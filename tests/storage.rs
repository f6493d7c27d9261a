use snel::chunk_generator::EncodedChunk;
use snel::encoding::Encoding;
use snel::proto_structs::Stripe;
use snel::schema::{ColumnDatatype, ColumnValue};
use snel::storage::{Storage, StorageBuilder, StorageError, SIGNATURE_LEN};
use snel::storage_backend::StorageBackend;
use snel::storage_inserter::{InsertionManager, StorageInserter};
use snel::storage_reader::StorageStripeIterator;

fn test_storage() -> Storage {
    StorageBuilder::new()
        .column("nullcol", ColumnDatatype::Byte)
        .column("bytecol", ColumnDatatype::Byte)
        .column("int32col", ColumnDatatype::Int32)
        .column("int64col", ColumnDatatype::Int64)
        .column("floatcol", ColumnDatatype::Float)
        .column("fixedlengthcol", ColumnDatatype::FixedLength(5))
        .column("variablelengthcol", ColumnDatatype::VariableLength)
        .in_memory()
        .unwrap()
}

fn sample_row() -> Vec<ColumnValue> {
    vec![
        ColumnValue::Null,
        ColumnValue::Byte(2),
        ColumnValue::Int32(300),
        ColumnValue::Int64(400000000i64),
        ColumnValue::Float(3.14159f32.to_bits()),
        ColumnValue::FixedLength(vec![1, 2, 3, 4, 5]),
        ColumnValue::VariableLength("Hello world".to_string().into()),
    ]
}

fn starts_and_ends_with_signature(bytes: &[u8]) -> bool {
    bytes.len() >= 2 * SIGNATURE_LEN
        && &bytes[..SIGNATURE_LEN] == b"SCS"
        && &bytes[bytes.len() - SIGNATURE_LEN..] == b"SCS"
}

#[test]
fn test_column_accessors() {
    let storage = StorageBuilder::new()
        .column("col1", ColumnDatatype::Int32)
        .column("col2", ColumnDatatype::Float)
        .in_memory()
        .unwrap();

    assert_eq!(storage.column(0).name(), "col1");
    assert_eq!(storage.column(1).name(), "col2");
    assert!(storage.column_by_name("col1").is_some());
    assert!(storage.column_by_name("col3").is_none());
    assert_eq!(storage.column_by_name("col2").unwrap().num_column_in_storage(), 1);
}

#[test]
fn storage_generates_right_columns() {
    StorageBuilder::new()
        .column("col1", ColumnDatatype::Int32)
        .column("col2", ColumnDatatype::Int32)
        .in_memory()
        .unwrap();
}

#[test]
fn storage_can_be_initialized() {
    let storage = StorageBuilder::new()
        .column("id", ColumnDatatype::Int32)
        .in_memory()
        .unwrap();
    let mut manager = storage.begin_inserting();
    let storage = {
        let inserter = manager.create_inserter();
        inserter.close(&mut manager).unwrap();
        manager.finish_inserting().unwrap()
    };
    let expected_signature = Storage::signature();
    let bytes = storage.contents();
    assert_eq!(&bytes[..expected_signature.len()], &expected_signature[..]);
    assert_eq!(&bytes[bytes.len() - expected_signature.len()..], &expected_signature[..]);
}

#[test]
fn duplicated_column_names_are_invalid_format() {
    let result = StorageBuilder::new()
        .column("id", ColumnDatatype::Int32)
        .column("id", ColumnDatatype::Int64)
        .in_memory();
    match result {
        Err(StorageError::InvalidFormat(msg)) => {
            assert!(msg.contains("more than once"));
            assert_eq!(msg, "Column 'id' is specified more than once");
        }
        Err(e) => panic!("unexpected error {:?}", e),
        Ok(_) => panic!("duplicate column accepted"),
    }
}

#[test]
fn new_storage_holds_only_the_signature() {
    let storage = test_storage();
    assert_eq!(storage.contents(), b"SCS");
    assert_eq!(storage.num_columns(), 7);
    assert_eq!(storage.num_rows(), 0);
    assert!(storage.stripes().is_empty());
}

#[test]
fn test_a_single_row_can_be_inserted() {
    let mut storage = test_storage();
    let mut insertion_manager = storage.begin_inserting();
    {
        let mut inserter = insertion_manager.create_inserter();
        let row = sample_row();
        let result = inserter.enqueue_row(&mut insertion_manager, &row);
        assert!(result.is_ok());
        inserter.close(&mut insertion_manager).unwrap();
    }

    storage = insertion_manager.finish_inserting().unwrap();
    assert_eq!(storage.num_rows(), 1);
    assert!(starts_and_ends_with_signature(storage.contents()));
    assert_eq!(storage.stripes().len(), 1);
    assert_eq!(storage.stripes()[0], Stripe { absolute_offset: 3, num_rows: 1 });
}

#[test]
fn invalid_values_cannot_be_inserted() {
    let storage = test_storage();
    let mut insertion_manager = storage.begin_inserting();
    {
        let mut inserter = insertion_manager.create_inserter();
        let mut row = sample_row();
        // This should be an Int32
        row[2] = ColumnValue::Int64(300);
        let result = inserter.enqueue_row(&mut insertion_manager, &row);
        assert!(result.is_err());
        assert!(matches!(result, Err(StorageError::TypeError)));
        inserter.close(&mut insertion_manager).unwrap();
    }
    let storage = insertion_manager.finish_inserting().unwrap();
    assert_eq!(storage.num_rows(), 0);
}

#[test]
fn wrong_arity_is_reported_with_counts() {
    let storage = test_storage();
    let mut manager = storage.begin_inserting();
    let mut inserter = manager.create_inserter();
    let row = vec![ColumnValue::Null, ColumnValue::Byte(1), ColumnValue::Int32(3)];
    match inserter.enqueue_row(&mut manager, &row) {
        Err(StorageError::InvalidNumberOfColumns(3, 7)) => {}
        other => panic!("unexpected {:?}", other),
    }
    inserter.close(&mut manager).unwrap();
}

#[test]
fn wrong_fixed_width_is_invalid_length() {
    let storage = test_storage();
    let mut manager = storage.begin_inserting();
    let mut inserter = manager.create_inserter();
    let mut row = sample_row();
    row[5] = ColumnValue::FixedLength(vec![1, 2, 3]);
    match inserter.enqueue_row(&mut manager, &row) {
        Err(StorageError::InvalidLength(3, 5)) => {}
        other => panic!("unexpected {:?}", other),
    }
    inserter.close(&mut manager).unwrap();
}

#[test]
fn rejected_row_leaves_no_trace() {
    let storage = StorageBuilder::new()
        .column("id", ColumnDatatype::Int32)
        .in_memory()
        .unwrap();
    let mut manager = storage.begin_inserting();
    let mut inserter = manager.create_inserter();
    inserter.enqueue_row(&mut manager, &vec![ColumnValue::Int32(1)]).unwrap();
    assert!(inserter.enqueue_row(&mut manager, &vec![ColumnValue::Byte(9)]).is_err());
    inserter.enqueue_row(&mut manager, &vec![ColumnValue::Int32(2)]).unwrap();
    inserter.close(&mut manager).unwrap();
    let storage = manager.finish_inserting().unwrap();
    assert_eq!(storage.num_rows(), 2);
    let bytes = storage.contents();
    // The chunk of the stripe: values 1 and 2, then the footer.
    let tail = &bytes[bytes.len() - 11..];
    assert_eq!(tail, &[1, 0, 0, 0, 2, 0, 0, 0, b'S', b'C', b'S']);
}

#[test]
fn stripe_hint_follows_widest_numeric_column() {
    let int32 = StorageBuilder::new().column("id", ColumnDatatype::Int32).in_memory().unwrap();
    assert_eq!(StorageInserter::num_rows_in_stripe_hint(&int32), 65536);
    let int64 = StorageBuilder::new()
        .column("a", ColumnDatatype::Byte)
        .column("b", ColumnDatatype::Int64)
        .in_memory()
        .unwrap();
    assert_eq!(StorageInserter::num_rows_in_stripe_hint(&int64), 32768);
    let var = StorageBuilder::new()
        .column("v", ColumnDatatype::VariableLength)
        .in_memory()
        .unwrap();
    assert_eq!(StorageInserter::num_rows_in_stripe_hint(&var), 262144);
}

#[test]
fn full_stripe_is_written_automatically() {
    let storage = StorageBuilder::new().column("id", ColumnDatatype::Int32).in_memory().unwrap();
    let max = StorageInserter::num_rows_in_stripe_hint(&storage);
    let mut manager = InsertionManager::new(storage);
    let mut inserter = manager.create_inserter();
    for i in 0..max {
        inserter.enqueue_row(&mut manager, &vec![ColumnValue::Int32(i as i32)]).unwrap();
    }
    inserter.enqueue_row(&mut manager, &vec![ColumnValue::Int32(-1)]).unwrap();
    assert_eq!(manager.storage().stripes().len(), 1);
    assert_eq!(manager.storage().stripes()[0].num_rows, max);
    assert_eq!(manager.storage().num_rows(), max);
    inserter.close(&mut manager).unwrap();
    let storage = manager.finish_inserting().unwrap();
    assert_eq!(storage.stripes().len(), 2);
    assert_eq!(storage.stripes()[1].num_rows, 1);
    assert_eq!(storage.num_rows(), max + 1);
}

#[test]
fn many_rows_make_ceiling_many_stripes() {
    let storage = StorageBuilder::new().column("id", ColumnDatatype::Int64).in_memory().unwrap();
    let max = StorageInserter::num_rows_in_stripe_hint(&storage);
    let total = 3 * max + 17;
    let rows: Vec<Vec<ColumnValue>> = (0..total).map(|i| vec![ColumnValue::Int64(i as i64)]).collect();
    let mut manager = storage.begin_inserting();
    manager.insert_rows(&rows).unwrap();
    let storage = manager.finish_inserting().unwrap();
    assert_eq!(storage.num_rows(), total);
    assert_eq!(storage.stripes().len(), (total + max - 1) / max);
    assert!(storage.stripes()[..3].iter().all(|s| s.num_rows == max));
    assert_eq!(storage.stripes()[3].num_rows, 17);
    assert!(starts_and_ends_with_signature(storage.contents()));
}

#[test]
fn write_to_vector() {
    let mut backend = StorageBackend::new_in_memory();
    let orig_buffer: [u8; 3] = [1, 2, 3];
    backend.write(&orig_buffer);
    assert_eq!(backend.position(), 3);
    assert_eq!(backend.contents(), &orig_buffer[..]);
}

#[test]
fn read_from_vector() {
    let v: Vec<u8> = vec!(1, 2, 3);
    let backend = StorageBackend::from_existing_memory(v);
    let mut buffer: [u8; 3] = [0, 0, 0];
    buffer.copy_from_slice(backend.contents());
    assert_eq!(buffer, [1, 2, 3]);
}

#[test]
fn stripe_iterator_walks_the_directory() {
    let storage = StorageBuilder::new().column("id", ColumnDatatype::Int32).in_memory().unwrap();
    let max = StorageInserter::num_rows_in_stripe_hint(&storage);
    let rows: Vec<Vec<ColumnValue>> = (0..max + 2).map(|i| vec![ColumnValue::Int32(i as i32)]).collect();
    let mut manager = storage.begin_inserting();
    manager.insert_rows(&rows).unwrap();
    let storage = manager.finish_inserting().unwrap();
    let mut it = StorageStripeIterator::new(&storage);
    let first = it.next().unwrap();
    assert_eq!(first.stripe, Stripe { absolute_offset: 3, num_rows: max });
    let second = it.next().unwrap();
    assert_eq!(second.stripe.num_rows, 2);
    assert!(second.stripe.absolute_offset > 3 + 4 * max);
    assert!(it.next().is_none());
    assert!(it.next().is_none());
}

#[test]
fn stripe_with_too_many_rows_is_refused() {
    let mut storage = StorageBuilder::new().column("id", ColumnDatatype::Int32).in_memory().unwrap();
    let chunks = vec![EncodedChunk(Encoding::Raw, vec![1, 0, 0, 0])];
    let rows: usize = (u32::MAX as usize) + 1;
    match StorageInserter::append_stripe(&mut storage, rows, &chunks) {
        Err(StorageError::InvalidFormat(_)) => {}
        other => panic!("unexpected {:?}", other),
    }
    assert_eq!(storage.contents(), b"SCS");
    assert!(storage.stripes().is_empty());
    StorageInserter::append_stripe(&mut storage, 1, &chunks).unwrap();
    assert_eq!(storage.stripes().len(), 1);
    assert_eq!(storage.num_rows(), 1);
    assert_eq!(&storage.contents()[storage.contents().len() - 4..], &[1, 0, 0, 0]);
}

#[test]
fn push_row_reports_a_full_stripe_and_flush_writes_it() {
    let storage = StorageBuilder::new().column("id", ColumnDatatype::Int32).in_memory().unwrap();
    let max = StorageInserter::num_rows_in_stripe_hint(&storage);
    let mut manager = storage.begin_inserting();
    let mut inserter = manager.create_inserter();
    for i in 0..max - 1 {
        assert_eq!(inserter.push_row(&manager, &vec![ColumnValue::Int32(i as i32)]).unwrap(), false);
    }
    assert!(inserter.push_row(&manager, &vec![ColumnValue::Int64(1)]).is_err());
    assert_eq!(inserter.pending_rows(), max - 1);
    assert_eq!(inserter.push_row(&manager, &vec![ColumnValue::Null]).unwrap(), true);
    assert!(manager.storage().stripes().is_empty());
    inserter.flush(&mut manager).unwrap();
    assert_eq!(inserter.pending_rows(), 0);
    assert_eq!(manager.storage().num_rows(), max);
    assert_eq!(manager.storage().stripes()[0], Stripe { absolute_offset: 3, num_rows: max });
    inserter.close(&mut manager).unwrap();
    let storage = manager.finish_inserting().unwrap();
    assert_eq!(storage.stripes().len(), 1);
}
