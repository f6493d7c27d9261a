//! Batching rows into stripes and writing them to a storage.
use vstd::prelude::*;
use vstd::arithmetic::div_mod::lemma_fundamental_div_mod_converse;
use crate::chunk_generator::{encoded_cells, ChunkGenerator, EncodedChunk};
use crate::compression::Compression;
use crate::encoding::Encoding;
use crate::error::{StorageError, StorageResult};
use crate::proto_structs::{lemma_be_bytes_len, compression_tag, encoding_tag, wire_chunk, header_image, ColumnChunkHeader, Stripe, StripeHeader, WireChunk};
use crate::schema::{cell_accepted, cell_error, is_numeric, numeric_width, CellView, Column, ColumnDatatype, ColumnValue};
use crate::storage::{chunk_view, chunk_views, chunks_bytes, ends_with_signature, Storage};

verus! {

/// Sum of the chunks' sizes.
pub open spec fn total_size(chunks: Seq<(Encoding, Seq<u8>)>) -> nat
    decreases chunks.len(),
{
    if chunks.len() == 0 {
        0
    } else {
        total_size(chunks.drop_last()) + chunks.last().1.len()
    }
}

/// The chunk headers of a stripe: each chunk's offset from the end of the header
/// (the sizes of the chunks before it), its size (stored and encoded: chunks are
/// stored uncompressed) and its tags.
pub open spec fn wire_entries(chunks: Seq<(Encoding, Seq<u8>)>) -> Seq<WireChunk>
    decreases chunks.len(),
{
    if chunks.len() == 0 {
        Seq::empty()
    } else {
        let len = chunks.last().1.len() as usize;
        wire_entries(chunks.drop_last()).push(
            (
                total_size(chunks.drop_last()) as u64,
                len as u32,
                len as u32,
                encoding_tag(chunks.last().0),
                compression_tag(Compression::Uncompressed),
            ),
        )
    }
}

/// The bytes of a stripe: its serialized header, then its chunks.
pub open spec fn stripe_image(num_rows: usize, chunks: Seq<(Encoding, Seq<u8>)>) -> Seq<u8> {
    header_image(num_rows as u32, total_size(chunks) as u64, wire_entries(chunks))
        + chunks_bytes(chunks)
}

/// A stripe whose row count and chunk sizes fit the header's 32-bit fields, and
/// whose total size fits its 64-bit field.
pub open spec fn stripe_fits(num_rows: nat, chunks: Seq<(Encoding, Seq<u8>)>) -> bool {
    &&& num_rows <= u32::MAX
    &&& total_size(chunks) <= u64::MAX
    &&& forall|i: int| 0 <= i < chunks.len() ==> (#[trigger] chunks[i]).1.len() <= u32::MAX
}

/// Rows that can be written as one stripe (trivially so without columns).
pub open spec fn rows_fit(schema: Seq<ColumnDatatype>, rows: Seq<Seq<CellView>>) -> bool {
    schema.len() == 0 || stripe_fits(rows.len(), stripe_chunks(schema, rows))
}

/// `after` is `before` with one more stripe of `num_rows` rows made of `chunks`,
/// written at the end of the backend.
pub open spec fn stripe_written(
    before: Storage,
    after: Storage,
    num_rows: usize,
    chunks: Seq<(Encoding, Seq<u8>)>,
) -> bool {
    &&& after.spec_bytes() == before.spec_bytes() + stripe_image(num_rows, chunks)
    &&& after.spec_stripes() == before.spec_stripes().push(
        Stripe { absolute_offset: before.spec_bytes().len() as usize, num_rows },
    )
    &&& after.spec_num_rows() == before.spec_num_rows() + num_rows
    &&& after.spec_columns() == before.spec_columns()
}

/// The datatypes of a schema's columns, in order.
pub open spec fn schema_of(cols: Seq<Column>) -> Seq<ColumnDatatype> {
    cols.map_values(|c: Column| c.datatype)
}

/// The values of column `i` of each row.
pub open spec fn column_of(rows: Seq<Seq<CellView>>, i: int) -> Seq<CellView> {
    rows.map_values(|r: Seq<CellView>| r[i])
}

/// The chunks of a stripe of `rows`: one per column, in column order.
pub open spec fn stripe_chunks(schema: Seq<ColumnDatatype>, rows: Seq<Seq<CellView>>) -> Seq<
    (Encoding, Seq<u8>),
> {
    Seq::new(schema.len(), |i: int| (Encoding::Raw, encoded_cells(schema[i], column_of(rows, i))))
}

/// `after` is `before` once `rows` have been written as one stripe; a schema
/// without columns writes nothing.
pub open spec fn rows_flushed(
    before: Storage,
    after: Storage,
    schema: Seq<ColumnDatatype>,
    rows: Seq<Seq<CellView>>,
) -> bool {
    if schema.len() == 0 {
        after == before
    } else {
        stripe_written(before, after, rows.len() as usize, stripe_chunks(schema, rows))
    }
}

pub open spec fn row_view(row: Seq<ColumnValue>) -> Seq<CellView> {
    row.map_values(|v: ColumnValue| v@)
}

/// Every value of `row` is taken by its column.
pub open spec fn row_accepted(schema: Seq<ColumnDatatype>, row: Seq<CellView>) -> bool {
    &&& row.len() == schema.len()
    &&& forall|i: int| 0 <= i < row.len() ==> cell_accepted(schema[i], #[trigger] row[i])
}

/// `e` is the error of the first value of `row` that its column does not take.
pub open spec fn first_rejection(schema: Seq<ColumnDatatype>, row: Seq<CellView>, e: StorageError) -> bool {
    exists|k: int|
        0 <= k < row.len() && !cell_accepted(schema[k], #[trigger] row[k]) && cell_error(
            schema[k],
            row[k],
            e,
        ) && forall|j: int| 0 <= j < k ==> cell_accepted(schema[j], #[trigger] row[j])
}

/// The widest numeric value of a schema, 0 when it has no numeric column.
pub open spec fn max_numeric_width(cols: Seq<Column>) -> nat
    decreases cols.len(),
{
    if cols.len() == 0 {
        0
    } else {
        let w = if is_numeric(cols.last().datatype) {
            numeric_width(cols.last().datatype)
        } else {
            0
        };
        let rest = max_numeric_width(cols.drop_last());
        if w > rest {
            w
        } else {
            rest
        }
    }
}

/// Rows per stripe: 64 disk blocks of 4096 bytes over the widest numeric value (or 1).
pub open spec fn stripe_hint(cols: Seq<Column>) -> nat {
    let w = max_numeric_width(cols);
    (64 * 4096) / if w == 0 {
        1
    } else {
        w
    }
}

proof fn lemma_total_size_prefix(chunks: Seq<(Encoding, Seq<u8>)>, k: int)
    requires
        0 <= k <= chunks.len(),
    ensures
        total_size(chunks.subrange(0, k)) <= total_size(chunks),
    decreases chunks.len(),
{
    if k < chunks.len() {
        assert(chunks.drop_last().subrange(0, k) =~= chunks.subrange(0, k));
        lemma_total_size_prefix(chunks.drop_last(), k);
    } else {
        assert(chunks.subrange(0, k) =~= chunks);
    }
}

/// Owns a storage while rows are inserted into it.
pub struct InsertionManager {
    storage: Storage,
    open_inserters: usize,
}

impl InsertionManager {
    pub closed spec fn spec_storage(&self) -> Storage {
        self.storage
    }

    /// Inserters created and not yet closed.
    pub closed spec fn open_inserters(&self) -> nat {
        self.open_inserters as nat
    }

    pub open spec fn wf(&self) -> bool {
        self.spec_storage().wf()
    }

    pub fn new(storage: Storage) -> (r: InsertionManager)
        requires
            storage.wf(),
        ensures
            r.wf(),
            r.spec_storage() == storage,
            r.open_inserters() == 0,
    {
        InsertionManager { storage, open_inserters: 0 }
    }

    /// Inserters created and not yet closed.
    pub fn num_open_inserters(&self) -> (r: usize)
        ensures
            r == self.open_inserters(),
    {
        self.open_inserters
    }

    /// The storage, read-only.
    pub fn storage(&self) -> (r: &Storage)
        ensures
            *r == self.spec_storage(),
    {
        &self.storage
    }

    /// A new inserter for this manager's storage.
    pub fn create_inserter(&mut self) -> (r: StorageInserter)
        requires
            old(self).wf(),
            old(self).open_inserters() < usize::MAX,
        ensures
            final(self).wf(),
            final(self).spec_storage() == old(self).spec_storage(),
            final(self).open_inserters() == old(self).open_inserters() + 1,
            r.wf(),
            r.schema() == schema_of(old(self).spec_storage().spec_columns()),
            r.pending() == Seq::<Seq<CellView>>::empty(),
            r.max_rows() == stripe_hint(old(self).spec_storage().spec_columns()),
    {
        self.open_inserters = self.open_inserters + 1;
        StorageInserter::new(&self.storage)
    }

    /// Writes the footer and hands the storage back. Every inserter must have
    /// been closed first.
    pub fn finish_inserting(self) -> (r: StorageResult<Storage>)
        requires
            self.wf(),
            self.open_inserters() == 0,
        ensures
            r matches Ok(s) && s.wf() && s.spec_bytes() == self.spec_storage().spec_bytes()
                + crate::storage::signature_bytes() && ends_with_signature(s.spec_bytes())
                && s.spec_stripes() == self.spec_storage().spec_stripes() && s.spec_num_rows()
                == self.spec_storage().spec_num_rows() && s.spec_columns()
                == self.spec_storage().spec_columns(),
    {
        let mut storage = self.storage;
        match storage.write_footer() {
            Ok(()) => Ok(storage),
            Err(e) => Err(e),
        }
    }
}

/// Collects rows for one producer and writes them to the manager's storage one
/// stripe at a time. Each accepted row goes to the column generators at once;
/// when a stripe's worth has been collected, it is written.
pub struct StorageInserter {
    chunk_generators: Vec<ChunkGenerator>,
    enqueued_rows: usize,
    max_rows_in_stripe: usize,
    pending: Ghost<Seq<Seq<CellView>>>,
}

impl StorageInserter {
    /// The datatypes of the columns, in order.
    pub closed spec fn schema(&self) -> Seq<ColumnDatatype> {
        self.chunk_generators@.map_values(|g: ChunkGenerator| g.datatype_spec())
    }

    /// The accepted rows not written yet.
    pub closed spec fn pending(&self) -> Seq<Seq<CellView>> {
        self.pending@
    }

    /// Rows per stripe.
    pub closed spec fn max_rows(&self) -> nat {
        self.max_rows_in_stripe as nat
    }

    pub closed spec fn wf(&self) -> bool {
        &&& forall|i: int|
            0 <= i < self.chunk_generators@.len() ==> (#[trigger] self.chunk_generators@[i]).wf()
        &&& self.enqueued_rows == self.pending@.len()
        &&& forall|k: int|
            0 <= k < self.pending@.len() ==> row_accepted(self.schema(), #[trigger] self.pending@[k])
        &&& forall|i: int|
            0 <= i < self.chunk_generators@.len() ==> (#[trigger] self.chunk_generators@[i]).cells()
                == column_of(self.pending@, i)
        &&& self.max_rows_in_stripe >= 1
    }

    /// Number of accepted rows not written yet.
    pub fn pending_rows(&self) -> (r: usize)
        requires
            self.wf(),
        ensures
            r == self.pending().len(),
    {
        self.enqueued_rows
    }

    /// The target number of rows in a stripe, from the storage's schema.
    pub fn num_rows_in_stripe_hint(storage: &Storage) -> (r: usize)
        requires
            storage.wf(),
        ensures
            r == stripe_hint(storage.spec_columns()),
            r >= 1,
    {
        let columns = storage.columns();
        let mut max_size: usize = 0;
        let mut i: usize = 0;
        while i < columns.len()
            invariant
                columns@ == storage.spec_columns(),
                storage.wf(),
                i <= columns@.len(),
                max_size == max_numeric_width(columns@.subrange(0, i as int)),
                max_size <= 8,
            decreases columns@.len() - i,
        {
            let c = &columns[i];
            assert(columns@.subrange(0, i + 1).drop_last() =~= columns@.subrange(0, i as int));
            if c.datatype_info.is_numeric {
                match c.datatype_info.value_size {
                    Some(size) => {
                        if size > max_size {
                            max_size = size;
                        }
                    },
                    None => {},
                }
            }
            i = i + 1;
        }
        assert(columns@.subrange(0, i as int) =~= columns@);
        let divisor: usize = if max_size == 0 {
            1
        } else {
            max_size
        };
        assert(262144int / (divisor as int) >= 1) by (nonlinear_arith)
            requires
                1 <= divisor <= 8,
        ;
        (64 * 4096) / divisor
    }

    fn new(storage: &Storage) -> (r: StorageInserter)
        requires
            storage.wf(),
        ensures
            r.wf(),
            r.schema() == schema_of(storage.spec_columns()),
            r.pending() == Seq::<Seq<CellView>>::empty(),
            r.max_rows() == stripe_hint(storage.spec_columns()),
    {
        let max_rows_in_stripe = Self::num_rows_in_stripe_hint(storage);
        let columns = storage.columns();
        let mut chunk_generators: Vec<ChunkGenerator> = Vec::new();
        let mut i: usize = 0;
        while i < columns.len()
            invariant
                columns@ == storage.spec_columns(),
                i <= columns@.len(),
                chunk_generators@.len() == i,
                forall|k: int|
                    0 <= k < i ==> {
                        &&& (#[trigger] chunk_generators@[k]).wf()
                        &&& chunk_generators@[k].datatype_spec() == columns@[k].datatype
                        &&& chunk_generators@[k].cells() == Seq::<CellView>::empty()
                    },
            decreases columns@.len() - i,
        {
            chunk_generators.push(ChunkGenerator::for_datatype(&columns[i].datatype, max_rows_in_stripe));
            i = i + 1;
        }
        let r = StorageInserter {
            chunk_generators,
            enqueued_rows: 0,
            max_rows_in_stripe,
            pending: Ghost(Seq::empty()),
        };
        assert(r.schema() =~= schema_of(storage.spec_columns()));
        assert forall|k: int| 0 <= k < r.chunk_generators@.len() implies (
        #[trigger] r.chunk_generators@[k]).cells() == column_of(r.pending@, k) by {
            assert(column_of(r.pending@, k) =~= Seq::<CellView>::empty());
        }
        r
    }
}

impl StorageInserter {
    /// The storage's schema is the one this inserter was made for.
    pub open spec fn fits(&self, manager: &InsertionManager) -> bool {
        self.schema() == schema_of(manager.spec_storage().spec_columns())
    }

    /// Writes one stripe of `num_rows` rows made of the encoded `stripe` chunks:
    /// each chunk is stored uncompressed after a header that gives its offset,
    /// size and encoding. A stripe without chunks is skipped. A stripe whose row
    /// count or chunk sizes do not fit in 32 bits, or whose total size does not
    /// fit in 64 bits, is refused with `InvalidFormat`, and nothing is written.
    pub fn append_stripe(storage: &mut Storage, num_rows: usize, stripe: &Vec<EncodedChunk>) -> (r:
        StorageResult<()>)
        requires
            old(storage).wf(),
            old(storage).spec_num_rows() + num_rows <= usize::MAX,
        ensures
            final(storage).wf(),
            stripe@.len() == 0 ==> r is Ok && *final(storage) == *old(storage),
            stripe@.len() > 0 ==> (r is Ok <==> stripe_fits(num_rows as nat, chunk_views(stripe@))),
            stripe@.len() > 0 && r is Ok ==> stripe_written(
                *old(storage),
                *final(storage),
                num_rows,
                chunk_views(stripe@),
            ),
            r is Err ==> *final(storage) == *old(storage),
            r matches Err(e) ==> e is InvalidFormat,
    {
        if stripe.len() == 0 {
            return Ok(());
        }
        let ghost views = chunk_views(stripe@);
        if num_rows as u64 > 0xffff_ffff {
            return Err(StorageError::InvalidFormat("stripe with more than 2^32 - 1 rows".to_owned()));
        }
        let mut column_chunks: Vec<ColumnChunkHeader> = Vec::new();
        let mut offset: u64 = 0;
        let mut i: usize = 0;
        while i < stripe.len()
            invariant
                views == chunk_views(stripe@),
                *storage == *old(storage),
                old(storage).wf(),
                i <= stripe@.len(),
                offset as nat == total_size(views.subrange(0, i as int)),
                forall|j: int| 0 <= j < i ==> (#[trigger] views[j]).1.len() <= u32::MAX,
                column_chunks@.map_values(|c: ColumnChunkHeader| wire_chunk(c)) == wire_entries(
                    views.subrange(0, i as int),
                ),
            decreases stripe@.len() - i,
        {
            let len = stripe[i].1.len();
            assert(views[i as int].1.len() == len);
            assert(views.subrange(0, i + 1).drop_last() =~= views.subrange(0, i as int));
            if len as u64 > 0xffff_ffff {
                return Err(StorageError::InvalidFormat("chunk larger than 2^32 - 1 bytes".to_owned()));
            }
            if len as u64 > u64::MAX - offset {
                proof {
                    lemma_total_size_prefix(views, i + 1);
                }
                return Err(StorageError::InvalidFormat("stripe larger than 2^64 - 1 bytes".to_owned()));
            }
            column_chunks.push(
                ColumnChunkHeader {
                    relative_offset: offset,
                    compressed_size: len as u32,
                    uncompressed_size: len as u32,
                    encoding: stripe[i].0,
                    compression: Compression::Uncompressed,
                },
            );
            assert(column_chunks@.map_values(|c: ColumnChunkHeader| wire_chunk(c)) =~= wire_entries(
                views.subrange(0, i + 1),
            ));
            offset = offset + len as u64;
            i = i + 1;
        }
        assert(views.subrange(0, i as int) =~= views);
        let header = StripeHeader { num_rows: num_rows as u32, column_chunks, stripe_size: offset };
        assert(header.wire_chunks() == wire_entries(views));
        let bytes = header.encode();
        let ghost before = *storage;
        storage.write_stripe(num_rows, bytes.as_slice(), stripe);
        assert(storage.spec_bytes() =~= before.spec_bytes() + stripe_image(num_rows, views));
        Ok(())
    }

    /// Writes the pending rows as one stripe, then empties the generators. With
    /// nothing pending, nothing happens. On error nothing changes, so that the
    /// write can be tried again.
    pub fn flush(&mut self, manager: &mut InsertionManager) -> (r: StorageResult<()>)
        requires
            old(self).wf(),
            old(manager).wf(),
            old(self).fits(old(manager)),
            old(manager).spec_storage().spec_num_rows() + old(self).pending().len() <= usize::MAX,
        ensures
            final(self).wf(),
            final(manager).wf(),
            final(self).fits(final(manager)),
            final(self).schema() == old(self).schema(),
            final(self).max_rows() == old(self).max_rows(),
            final(manager).open_inserters() == old(manager).open_inserters(),
            old(self).pending().len() == 0 ==> r is Ok && *final(self) == *old(self)
                && *final(manager) == *old(manager),
            r is Ok ==> final(self).pending().len() == 0,
            r is Ok && old(self).pending().len() > 0 ==> rows_flushed(
                old(manager).spec_storage(),
                final(manager).spec_storage(),
                old(self).schema(),
                old(self).pending(),
            ),
            r is Err ==> *final(self) == *old(self) && *final(manager) == *old(manager),
            old(self).pending().len() > 0 ==> (r is Ok <==> rows_fit(
                old(self).schema(),
                old(self).pending(),
            )),
            r matches Err(e) ==> e is InvalidFormat,
    {
        if self.enqueued_rows == 0 {
            return Ok(());
        }
        let ghost schema = self.schema();
        let ghost rows = self.pending@;
        let n = self.chunk_generators.len();
        let mut chunks: Vec<EncodedChunk> = Vec::new();
        let mut i: usize = 0;
        while i < n
            invariant
                n == self.chunk_generators@.len(),
                schema == self.schema(),
                rows == self.pending@,
                self.wf(),
                i <= n,
                chunks@.len() == i,
                chunk_views(chunks@) == stripe_chunks(schema, rows).subrange(0, i as int),
            decreases n - i,
        {
            let c = self.chunk_generators[i].get_encoded_chunk();
            assert(schema[i as int] == self.chunk_generators@[i as int].datatype_spec());
            assert(self.chunk_generators@[i as int].cells() == column_of(rows, i as int));
            assert(chunk_view(c) == stripe_chunks(schema, rows)[i as int]);
            let ghost prev = chunks@;
            chunks.push(c);
            assert forall|j: int| 0 <= j < i + 1 implies chunk_views(chunks@)[j] == stripe_chunks(
                schema,
                rows,
            )[j] by {
                if j < i {
                    assert(chunks@[j] == prev[j]);
                    assert(chunk_views(prev)[j] == stripe_chunks(schema, rows).subrange(0, i as int)[j]);
                }
            }
            assert(chunk_views(chunks@) =~= stripe_chunks(schema, rows).subrange(0, i + 1));
            i = i + 1;
        }
        assert(stripe_chunks(schema, rows).subrange(0, n as int) =~= stripe_chunks(schema, rows));
        match Self::append_stripe(&mut manager.storage, self.enqueued_rows, &chunks) {
            Ok(()) => {
                let ghost gens = self.chunk_generators@;
                let mut k: usize = 0;
                while k < n
                    invariant
                        n == self.chunk_generators@.len(),
                        gens.len() == n,
                        k <= n,
                        self.max_rows_in_stripe == old(self).max_rows_in_stripe,
                        self.max_rows_in_stripe >= 1,
                        forall|j: int|
                            0 <= j < n ==> {
                                &&& (#[trigger] self.chunk_generators@[j]).wf()
                                &&& self.chunk_generators@[j].datatype_spec()
                                    == gens[j].datatype_spec()
                            },
                        forall|j: int|
                            0 <= j < k ==> (#[trigger] self.chunk_generators@[j]).cells() == Seq::<
                                CellView,
                            >::empty(),
                        forall|j: int| 0 <= j < n ==> (#[trigger] gens[j]).wf(),
                    decreases n - k,
                {
                    self.chunk_generators[k].reset();
                    k = k + 1;
                }
                self.enqueued_rows = 0;
                self.pending = Ghost(Seq::empty());
                proof {
                    assert(self.schema() =~= schema);
                    assert forall|j: int| 0 <= j < n implies (
                    #[trigger] self.chunk_generators@[j]).cells() == column_of(self.pending@, j) by {
                        assert(column_of(self.pending@, j) =~= Seq::<CellView>::empty());
                    }
                }
                Ok(())
            },
            Err(e) => Err(e),
        }
    }

    /// Checks `row` against the schema and accepts it into the pending rows, or
    /// reports the first problem: `InvalidNumberOfColumns(got, expected)` for a
    /// row of the wrong length, else the error of the first value that its column
    /// does not take. A rejected row changes nothing. Returns whether the pending
    /// rows now fill a stripe. Nothing is written, so the manager is only read.
    pub fn push_row(&mut self, manager: &InsertionManager, row: &Vec<ColumnValue>) -> (r:
        StorageResult<bool>)
        requires
            old(self).wf(),
            manager.wf(),
            old(self).fits(manager),
            old(self).pending().len() < usize::MAX,
        ensures
            final(self).wf(),
            final(self).fits(manager),
            final(self).schema() == old(self).schema(),
            final(self).max_rows() == old(self).max_rows(),
            row@.len() != old(self).schema().len() ==> (r matches Err(
                StorageError::InvalidNumberOfColumns(got, expected),
            ) && got == row@.len() && expected == old(self).schema().len()),
            row@.len() == old(self).schema().len() && !row_accepted(
                old(self).schema(),
                row_view(row@),
            ) ==> (r matches Err(e) && first_rejection(old(self).schema(), row_view(row@), e)),
            !row_accepted(old(self).schema(), row_view(row@)) ==> *final(self) == *old(self),
            row_accepted(old(self).schema(), row_view(row@)) ==> r == Ok::<bool, StorageError>(
                old(self).pending().len() + 1 == old(self).max_rows(),
            ) && final(self).pending() == old(self).pending().push(row_view(row@)),
    {
        let ghost schema = self.schema();
        let ghost rv = row_view(row@);
        let expected = manager.storage.num_columns();
        let got = row.len();
        if got != expected {
            return Err(StorageError::InvalidNumberOfColumns(got, expected));
        }
        let n = self.chunk_generators.len();
        assert(self.schema().len() == n);
        assert(schema_of(manager.storage.spec_columns()).len() == expected);
        let mut i: usize = 0;
        while i < n
            invariant
                n == self.chunk_generators@.len(),
                n == row@.len(),
                                *self == *old(self),
                manager.wf(),
                old(self).fits(manager),
                schema == self.schema(),
                rv == row_view(row@),
                self.wf(),
                i <= n,
                forall|j: int| 0 <= j < i ==> cell_accepted(schema[j], #[trigger] rv[j]),
            decreases n - i,
        {
            assert(schema[i as int] == self.chunk_generators@[i as int].datatype_spec());
            match self.chunk_generators[i].validate_value(&row[i]) {
                Ok(()) => {},
                Err(e) => {
                    assert(!cell_accepted(schema[i as int], rv[i as int]));
                    return Err(e);
                },
            }
            i = i + 1;
        }
        let ghost old_gens = self.chunk_generators@;
        let ghost rows = self.pending@.push(rv);
        let mut k: usize = 0;
        while k < n
            invariant
                n == self.chunk_generators@.len(),
                n == row@.len(),
                old_gens.len() == n,
                schema == old_gens.map_values(|g: ChunkGenerator| g.datatype_spec()),
                rv == row_view(row@),
                rows == old(self).pending@.push(rv),
                self.pending@ == old(self).pending@,
                self.enqueued_rows == old(self).enqueued_rows,
                self.max_rows_in_stripe == old(self).max_rows_in_stripe,
                old(self).wf(),
                                manager.wf(),
                old(self).fits(manager),
                old_gens == old(self).chunk_generators@,
                k <= n,
                row_accepted(schema, rv),
                forall|j: int|
                    0 <= j < n ==> {
                        &&& (#[trigger] self.chunk_generators@[j]).wf()
                        &&& self.chunk_generators@[j].datatype_spec() == old_gens[j].datatype_spec()
                    },
                forall|j: int|
                    0 <= j < k ==> (#[trigger] self.chunk_generators@[j]).cells() == column_of(
                        rows,
                        j,
                    ),
                forall|j: int|
                    k <= j < n ==> (#[trigger] self.chunk_generators@[j]).cells() == old_gens[j].cells(),
            decreases n - k,
        {
            assert(schema[k as int] == old_gens[k as int].datatype_spec());
            assert(rv[k as int] == row@[k as int]@);
            self.chunk_generators[k].append_value(&row[k]);
            assert(column_of(rows, k as int) =~= column_of(old(self).pending@, k as int).push(rv[k as int]));
            k = k + 1;
        }
        self.enqueued_rows = self.enqueued_rows + 1;
        self.pending = Ghost(rows);
        proof {
            assert(self.schema() =~= schema);
            assert forall|j: int| 0 <= j < self.pending@.len() implies row_accepted(
                self.schema(),
                #[trigger] self.pending@[j],
            ) by {
                if j < old(self).pending@.len() {
                    assert(self.pending@[j] == old(self).pending@[j]);
                }
            }
        }
        Ok(self.enqueued_rows == self.max_rows_in_stripe)
    }

    /// Checks `row` against the schema and accepts it, or reports the first
    /// problem: `InvalidNumberOfColumns(got, expected)` for a row of the wrong
    /// length, else the error of the first value that its column does not take.
    /// A rejected row changes nothing. When the accepted row completes a stripe,
    /// the stripe is written; if that write fails, the row stays pending and the
    /// write's error is returned.
    pub fn enqueue_row(&mut self, manager: &mut InsertionManager, row: &Vec<ColumnValue>) -> (r:
        StorageResult<()>)
        requires
            old(self).wf(),
            old(manager).wf(),
            old(self).fits(old(manager)),
            old(manager).spec_storage().spec_num_rows() + old(self).pending().len() + 1
                <= usize::MAX,
        ensures
            final(self).wf(),
            final(manager).wf(),
            final(self).fits(final(manager)),
            final(self).schema() == old(self).schema(),
            final(self).max_rows() == old(self).max_rows(),
            final(manager).open_inserters() == old(manager).open_inserters(),
            row@.len() != old(self).schema().len() ==> (r matches Err(
                StorageError::InvalidNumberOfColumns(got, expected),
            ) && got == row@.len() && expected == old(self).schema().len()),
            row@.len() == old(self).schema().len() && !row_accepted(
                old(self).schema(),
                row_view(row@),
            ) ==> (r matches Err(e) && first_rejection(old(self).schema(), row_view(row@), e)),
            !row_accepted(old(self).schema(), row_view(row@)) ==> *final(self) == *old(self)
                && *final(manager) == *old(manager),
            row_accepted(old(self).schema(), row_view(row@)) && old(self).pending().len() + 1
                != old(self).max_rows() ==> r is Ok && final(self).pending() == old(
                self,
            ).pending().push(row_view(row@)) && final(manager).spec_storage() == old(
                manager,
            ).spec_storage(),
            row_accepted(old(self).schema(), row_view(row@)) && old(self).pending().len() + 1
                == old(self).max_rows() && r is Ok ==> final(self).pending().len() == 0
                && rows_flushed(
                old(manager).spec_storage(),
                final(manager).spec_storage(),
                old(self).schema(),
                old(self).pending().push(row_view(row@)),
            ),
            row_accepted(old(self).schema(), row_view(row@)) && old(self).pending().len() + 1
                == old(self).max_rows() ==> (r is Ok <==> rows_fit(
                old(self).schema(),
                old(self).pending().push(row_view(row@)),
            )),
            row_accepted(old(self).schema(), row_view(row@)) && r is Err ==> final(self).pending()
                == old(self).pending().push(row_view(row@)) && final(manager).spec_storage()
                == old(manager).spec_storage() && (r matches Err(e) && e is InvalidFormat),
    {
        match self.push_row(manager, row) {
            Ok(full) => {
                if full {
                    self.flush(manager)
                } else {
                    Ok(())
                }
            },
            Err(e) => Err(e),
        }
    }

    /// Writes what is still pending, and releases this inserter.
    pub fn close(self, manager: &mut InsertionManager) -> (r: StorageResult<()>)
        requires
            self.wf(),
            old(manager).wf(),
            self.fits(old(manager)),
            old(manager).open_inserters() > 0,
            old(manager).spec_storage().spec_num_rows() + self.pending().len() <= usize::MAX,
        ensures
            final(manager).wf(),
            final(manager).open_inserters() == old(manager).open_inserters() - 1,
            self.pending().len() == 0 ==> r is Ok && final(manager).spec_storage() == old(
                manager,
            ).spec_storage(),
            r is Ok && self.pending().len() > 0 ==> rows_flushed(
                old(manager).spec_storage(),
                final(manager).spec_storage(),
                self.schema(),
                self.pending(),
            ),
            self.pending().len() > 0 ==> (r is Ok <==> rows_fit(self.schema(), self.pending())),
            r is Err ==> final(manager).spec_storage() == old(manager).spec_storage(),
            r matches Err(e) ==> e is InvalidFormat,
    {
        let mut inserter = self;
        let r = inserter.flush(manager);
        manager.open_inserters = manager.open_inserters - 1;
        r
    }
}

/// The directory entries from index `from` on start before `bound`.
pub open spec fn offsets_below(stripes: Seq<Stripe>, from: int, bound: nat) -> bool {
    forall|j: int| from <= j < stripes.len() ==> (#[trigger] stripes[j]).absolute_offset < bound
}

/// The directory entries from index `from` on start at strictly increasing offsets.
pub open spec fn offsets_increase_from(stripes: Seq<Stripe>, from: int) -> bool {
    forall|a: int, b: int|
        #![trigger stripes[a], stripes[b]]
        from <= a < b < stripes.len() ==> stripes[a].absolute_offset < stripes[b].absolute_offset
}

/// A written stripe starts where the backend ended, and its header is not empty:
/// the directory entries after `from` keep starting at increasing offsets, all
/// before the end of the backend.
proof fn lemma_stripe_offsets(
    before: Storage,
    after: Storage,
    num_rows: usize,
    chunks: Seq<(Encoding, Seq<u8>)>,
    from: int,
)
    requires
        before.wf(),
        stripe_written(before, after, num_rows, chunks),
        0 <= from <= before.spec_stripes().len(),
        offsets_below(before.spec_stripes(), from, before.spec_bytes().len()),
        offsets_increase_from(before.spec_stripes(), from),
    ensures
        offsets_below(after.spec_stripes(), from, after.spec_bytes().len()),
        offsets_increase_from(after.spec_stripes(), from),
{
    lemma_be_bytes_len(num_rows as u32 as nat, 4);
    assert(stripe_image(num_rows, chunks).len() >= 4);
    let st = after.spec_stripes();
    let n = before.spec_stripes().len();
    assert(st[n as int].absolute_offset == before.spec_bytes().len());
    assert forall|j: int| from <= j < st.len() implies (#[trigger] st[j]).absolute_offset < after.spec_bytes().len() by {
        if j < n {
            assert(st[j] == before.spec_stripes()[j]);
        }
    }
    assert forall|a: int, b: int| from <= a < b < st.len() implies #[trigger] st[a].absolute_offset < #[trigger] st[b].absolute_offset by {
        assert(st[a] == before.spec_stripes()[a]);
        if b < n {
            assert(st[b] == before.spec_stripes()[b]);
        }
    }
}

/// Every stripe from index `from` on, but the last, holds `max` rows.
pub open spec fn full_from(stripes: Seq<Stripe>, from: int, max: nat) -> bool {
    forall|j: int| from <= j < stripes.len() - 1 ==> (#[trigger] stripes[j]).num_rows == max
}

/// Inserting `total` rows in stripes of `max` rows writes `total / max` full
/// stripes and, when rows remain, one more: ⌈total / max⌉ stripes in all.
pub proof fn lemma_stripe_count(total: nat, max: nat, full: nat, rest: nat)
    requires
        max >= 1,
        total == full * max + rest,
        rest < max,
    ensures
        full + (if rest > 0 { 1nat } else { 0nat }) == (total + max - 1) / (max as int),
{
    if rest == 0 {
        lemma_fundamental_div_mod_converse(
            (total + max - 1) as int,
            max as int,
            full as int,
            (max - 1) as int,
        );
    } else {
        assert((full + 1) * max == full * max + max) by (nonlinear_arith);
        lemma_fundamental_div_mod_converse(
            (total + max - 1) as int,
            max as int,
            (full + 1) as int,
            (rest - 1) as int,
        );
    }
}

/// What a sequence of rows holds, value by value.
pub open spec fn rows_view(rows: Seq<Vec<ColumnValue>>) -> Seq<Seq<CellView>> {
    rows.map_values(|r: Vec<ColumnValue>| row_view(r@))
}

/// Rows `q * max` up to `(q + 1) * max` (or the end): the rows of stripe `q`.
pub open spec fn batch(rows: Seq<Seq<CellView>>, max: nat, q: nat) -> Seq<Seq<CellView>> {
    let end = if (q + 1) * max <= rows.len() {
        ((q + 1) * max) as int
    } else {
        rows.len() as int
    };
    rows.subrange((q * max) as int, end)
}

/// Every stripe that `rows` make, `max` rows at a time, can be written.
pub open spec fn all_batches_fit(schema: Seq<ColumnDatatype>, rows: Seq<Seq<CellView>>, max: nat) -> bool {
    forall|q: nat| q * max < rows.len() ==> rows_fit(schema, #[trigger] batch(rows, max, q))
}

/// `e` is what `enqueue_row` reports for `row` when the schema rejects it.
pub open spec fn row_rejection(schema: Seq<ColumnDatatype>, row: Seq<CellView>, e: StorageError) -> bool {
    ||| row.len() != schema.len() && (e matches StorageError::InvalidNumberOfColumns(got, expected)
        && got == row.len() && expected == schema.len())
    ||| row.len() == schema.len() && !row_accepted(schema, row) && first_rejection(schema, row, e)
}

impl InsertionManager {
    /// Inserts `rows` in order through a new inserter, which is then closed: the
    /// storage gains ⌈rows / stripe size⌉ stripes, all full but the last, and
    /// exactly `rows.len()` rows (without columns, nothing is written). Stops at
    /// the first row that the schema rejects, or the first stripe that cannot be
    /// written, after writing what was accepted before it.
    pub fn insert_rows(&mut self, rows: &Vec<Vec<ColumnValue>>) -> (r: StorageResult<()>)
        requires
            old(self).wf(),
            old(self).open_inserters() < usize::MAX,
            old(self).spec_storage().spec_num_rows() + rows@.len() <= usize::MAX,
        ensures
            final(self).wf(),
            final(self).open_inserters() == old(self).open_inserters(),
            final(self).spec_storage().spec_columns() == old(self).spec_storage().spec_columns(),
            (forall|k: int|
                0 <= k < rows@.len() ==> row_accepted(
                    schema_of(old(self).spec_storage().spec_columns()),
                    #[trigger] rows_view(rows@)[k],
                )) && all_batches_fit(
                schema_of(old(self).spec_storage().spec_columns()),
                rows_view(rows@),
                stripe_hint(old(self).spec_storage().spec_columns()),
            ) ==> r is Ok,
            r matches Err(e) ==> (e is InvalidFormat && !all_batches_fit(
                schema_of(old(self).spec_storage().spec_columns()),
                rows_view(rows@),
                stripe_hint(old(self).spec_storage().spec_columns()),
            )) || exists|k: int|
                0 <= k < rows@.len() && row_rejection(
                    schema_of(old(self).spec_storage().spec_columns()),
                    #[trigger] rows_view(rows@)[k],
                    e,
                ),
            (old(self).spec_storage().spec_columns().len() == 0 && r is Ok) ==> (final(self).spec_storage() == old(self).spec_storage()),
            (old(self).spec_storage().spec_columns().len() > 0 && r is Ok) ==> (final(self).spec_storage().spec_num_rows() == old(self).spec_storage().spec_num_rows() + rows@.len()),
            (old(self).spec_storage().spec_columns().len() > 0 && r is Ok) ==> (final(self).spec_storage().spec_stripes().len() == old(self).spec_storage().spec_stripes().len() + (rows@.len() + stripe_hint(old(self).spec_storage().spec_columns()) - 1) / (stripe_hint(old(self).spec_storage().spec_columns()) as int)),
            r is Ok ==> final(self).spec_storage().spec_stripes().subrange(
                0,
                old(self).spec_storage().spec_stripes().len() as int,
            ) == old(self).spec_storage().spec_stripes(),
            r is Ok ==> forall|j: int|
                old(self).spec_storage().spec_stripes().len() <= j < final(self).spec_storage().spec_stripes().len() ==> (#[trigger] final(self).spec_storage().spec_stripes()[j]).num_rows >= 1,
            r is Ok ==> offsets_increase_from(
                final(self).spec_storage().spec_stripes(),
                old(self).spec_storage().spec_stripes().len() as int,
            ),
            r is Ok ==> full_from(
                final(self).spec_storage().spec_stripes(),
                old(self).spec_storage().spec_stripes().len() as int,
                stripe_hint(old(self).spec_storage().spec_columns()),
            ),
    {
        let ghost base = self.storage;
        let ghost max = stripe_hint(base.spec_columns());
        let ghost schema = schema_of(base.spec_columns());
        let ghost views = rows_view(rows@);
        let mut inserter = self.create_inserter();
        let ghost mut full: nat = 0;
        let mut k: usize = 0;
        while k < rows.len()
            invariant
                inserter.wf(),
                inserter.fits(self),
                inserter.schema() == schema,
                schema == schema_of(base.spec_columns()),
                schema.len() == base.spec_columns().len(),
                inserter.max_rows() == max,
                max == stripe_hint(base.spec_columns()),
                max >= 1,
                views == rows_view(rows@),
                views.len() == rows@.len(),
                self.wf(),
                self.open_inserters() == old(self).open_inserters() + 1,
                self.storage.spec_columns() == base.spec_columns(),
                base == old(self).spec_storage(),
                base.spec_num_rows() + rows@.len() <= usize::MAX,
                k <= rows@.len(),
                full * max <= k,
                k == full * max + inserter.pending().len(),
                inserter.pending() == views.subrange((full * max) as int, k as int),
                inserter.pending().len() < max,
                schema.len() == 0 ==> self.storage == base,
                schema.len() > 0 ==> self.storage.spec_num_rows() == base.spec_num_rows() + full * max,
                schema.len() > 0 ==> self.storage.spec_stripes().len() == base.spec_stripes().len()
                    + full,
                self.storage.spec_stripes().subrange(0, base.spec_stripes().len() as int)
                    == base.spec_stripes(),
                forall|j: int|
                    base.spec_stripes().len() <= j < self.storage.spec_stripes().len() ==> (
                    #[trigger] self.storage.spec_stripes()[j]).num_rows == max,
                offsets_below(
                    self.storage.spec_stripes(),
                    base.spec_stripes().len() as int,
                    self.storage.spec_bytes().len(),
                ),
                offsets_increase_from(self.storage.spec_stripes(), base.spec_stripes().len() as int),
            decreases rows@.len() - k,
        {
            let ghost before = self.storage;
            let ghost pending = inserter.pending();
            assert(views[k as int] == row_view(rows@[k as int]@));
            assert(pending.push(views[k as int]) =~= views.subrange((full * max) as int, k + 1));
            proof {
                if pending.len() + 1 == max {
                    assert((full + 1) * max == full * max + max) by (nonlinear_arith);
                    assert(batch(views, max, full) =~= pending.push(views[k as int]));
                }
            }
            match inserter.enqueue_row(self, &rows[k]) {
                Ok(()) => {},
                Err(e) => {
                    proof {
                        if !row_accepted(schema, views[k as int]) {
                            assert(row_rejection(schema, rows_view(rows@)[k as int], e));
                            assert(exists|j: int|
                                0 <= j < rows@.len() && row_rejection(
                                    schema,
                                    #[trigger] rows_view(rows@)[j],
                                    e,
                                ));
                            assert(!(forall|j: int|
                                0 <= j < rows@.len() ==> row_accepted(
                                    schema,
                                    #[trigger] rows_view(rows@)[j],
                                )));
                        } else {
                            assert(pending.len() + 1 == max);
                            assert(full * max < views.len());
                            assert(!rows_fit(schema, batch(views, max, full)));
                            assert(e is InvalidFormat);
                            assert(!all_batches_fit(schema, views, max));
                        }
                    }
                    let _ = inserter.close(self);
                    return Err(e);
                },
            }
            proof {
                if pending.len() + 1 == max {
                    if schema.len() > 0 {
                        lemma_stripe_offsets(
                            before,
                            self.storage,
                            (pending.len() + 1) as usize,
                            stripe_chunks(schema, pending.push(views[k as int])),
                            base.spec_stripes().len() as int,
                        );
                        let after = self.storage.spec_stripes();
                        assert(after == before.spec_stripes().push(
                            Stripe {
                                absolute_offset: #[verifier::truncate] (before.spec_bytes().len() as usize),
                                num_rows: max as usize,
                            },
                        ));
                        assert(after.subrange(0, base.spec_stripes().len() as int)
                            =~= before.spec_stripes().subrange(0, base.spec_stripes().len() as int));
                    }
                    assert((full + 1) * max == full * max + max) by (nonlinear_arith);
                    full = full + 1;
                    assert(inserter.pending() =~= views.subrange((full * max) as int, k + 1));
                }
            }
            k = k + 1;
        }
        let ghost pending = inserter.pending();
        let ghost before = self.storage;
        proof {
            if pending.len() > 0 {
                assert((full + 1) * max == full * max + max) by (nonlinear_arith);
                assert(batch(views, max, full) =~= pending);
            }
        }
        let r = inserter.close(self);
        proof {
            if r is Ok {
                lemma_stripe_count(rows@.len() as nat, max, full, pending.len());
                if pending.len() > 0 && schema.len() > 0 {
                    lemma_stripe_offsets(
                        before,
                        self.storage,
                        pending.len() as usize,
                        stripe_chunks(schema, pending),
                        base.spec_stripes().len() as int,
                    );
                    assert(self.storage.spec_stripes().subrange(0, base.spec_stripes().len() as int)
                        =~= before.spec_stripes().subrange(0, base.spec_stripes().len() as int));
                    assert(self.storage.spec_stripes() == before.spec_stripes().push(
                        Stripe {
                            absolute_offset: #[verifier::truncate] (before.spec_bytes().len() as usize),
                            num_rows: pending.len() as usize,
                        },
                    ));
                }
            }
        }
        r
    }
}

} // verus!
