use snel::chunk_generator::{ChunkGenerator, FixedLengthChunkGenerator, NumericChunkGenerator, VariableLengthChunkGenerator};
use snel::encoding::Encoding;
use snel::schema::{ColumnDatatype, ColumnValue};
use snel::storage::StorageError;

#[test]
fn numeric_chunk_uses_sentinel_for_null() {
    let mut g = NumericChunkGenerator::new(ColumnDatatype::Int32, 4);
    g.append_value(&ColumnValue::Int32(42));
    g.append_value(&ColumnValue::Null);
    let chunk = g.get_encoded_chunk();
    assert!(chunk.0 == Encoding::Raw);
    assert_eq!(chunk.1, vec![42, 0, 0, 0, 0, 0, 0, 0x80]);
}

#[test]
fn float_null_is_negative_infinity() {
    let mut g = NumericChunkGenerator::new(ColumnDatatype::Float, 2);
    g.append_value(&ColumnValue::Null);
    g.append_value(&ColumnValue::Float(1.5f32.to_bits()));
    let chunk = g.get_encoded_chunk();
    let mut expected = f32::NEG_INFINITY.to_le_bytes().to_vec();
    expected.extend_from_slice(&1.5f32.to_le_bytes());
    assert_eq!(chunk.1, expected);
}

#[test]
fn numeric_chunk_size_is_width_times_count() {
    let mut g = ChunkGenerator::for_datatype(&ColumnDatatype::Int64, 8);
    for i in 0..5 {
        g.append_value(&ColumnValue::Int64(i * 1000));
    }
    g.append_value(&ColumnValue::Null);
    assert_eq!(g.get_encoded_chunk().1.len(), 8 * 6);
    let mut b = ChunkGenerator::for_datatype(&ColumnDatatype::Byte, 8);
    assert_eq!(b.get_encoded_chunk().1.len(), 0);
    b.append_value(&ColumnValue::Byte(-1));
    assert_eq!(b.get_encoded_chunk().1, vec![0xff]);
}

#[test]
fn fixed_length_chunk_layout() {
    let mut g = FixedLengthChunkGenerator::new(3, 4);
    g.append_value(&ColumnValue::FixedLength(vec![1, 2, 3]));
    g.append_value(&ColumnValue::Null);
    g.append_value(&ColumnValue::FixedLength(vec![4, 5, 6]));
    let chunk = g.get_encoded_chunk();
    assert_eq!(chunk.1, vec![0, 1, 0, 1, 2, 3, 4, 5, 6]);
    assert_eq!(chunk.1.len(), 3 + 3 * 2);
    g.reset();
    assert_eq!(g.get_encoded_chunk().1.len(), 0);
}

#[test]
fn variable_length_chunk_layout() {
    let mut g = VariableLengthChunkGenerator::new(4);
    g.append_value(&ColumnValue::VariableLength(b"ab".to_vec()));
    g.append_value(&ColumnValue::Null);
    g.append_value(&ColumnValue::VariableLength(Vec::new()));
    let chunk = g.get_encoded_chunk();
    assert_eq!(
        chunk.1,
        vec![2, 0, 0, 0, 0xff, 0xff, 0xff, 0xff, 0, 0, 0, 0, b'a', b'b']
    );
    assert_eq!(chunk.1.len(), 4 * 3 + 2);
}

#[test]
fn fixed_length_wrong_width_is_invalid_length() {
    let g = FixedLengthChunkGenerator::new(5, 1);
    match g.validate_value(&ColumnValue::FixedLength(vec![1, 2, 3])) {
        Err(StorageError::InvalidLength(3, 5)) => {}
        other => panic!("unexpected {:?}", other),
    }
    assert!(g.validate_value(&ColumnValue::Null).is_ok());
    match g.validate_value(&ColumnValue::Int32(1)) {
        Err(StorageError::TypeError) => {}
        other => panic!("unexpected {:?}", other),
    }
}

#[test]
fn mismatched_variants_are_type_errors() {
    let g = ChunkGenerator::for_datatype(&ColumnDatatype::Int32, 1);
    assert!(matches!(g.validate_value(&ColumnValue::Int64(300)), Err(StorageError::TypeError)));
    assert!(g.validate_value(&ColumnValue::Int32(300)).is_ok());
    let v = ChunkGenerator::for_datatype(&ColumnDatatype::VariableLength, 1);
    assert!(matches!(v.validate_value(&ColumnValue::FixedLength(vec![1])), Err(StorageError::TypeError)));
    assert!(v.validate_value(&ColumnValue::VariableLength(vec![1])).is_ok());
}

#[test]
fn append_values_matches_one_by_one() {
    let values = vec![ColumnValue::Int32(7), ColumnValue::Null, ColumnValue::Int32(-2)];
    let mut all = ChunkGenerator::for_datatype(&ColumnDatatype::Int32, 3);
    all.append_values(&values);
    let mut each = ChunkGenerator::for_datatype(&ColumnDatatype::Int32, 3);
    for v in &values {
        each.append_value(v);
    }
    assert_eq!(all.get_encoded_chunk().1, each.get_encoded_chunk().1);
    assert_eq!(all.get_encoded_chunk().1.len(), 12);
    all.reset();
    assert!(all.get_encoded_chunk().1.is_empty());
}
