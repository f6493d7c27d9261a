//! A storage: its schema, the backend it writes to, and its stripe directory.
use vstd::prelude::*;
use vstd::string::StringExecFns;
use crate::chunk_generator::EncodedChunk;
use crate::encoding::Encoding;
pub use crate::error::{StorageError, StorageResult};
use crate::proto_structs::Stripe;
use crate::schema::{info_of, Column, ColumnBuilder, ColumnDatatype, DatatypeInfo};
use crate::storage_backend::StorageBackend;
use crate::storage_inserter::InsertionManager;

verus! {

/// Length of the signature that opens and closes a storage's bytes.
pub const SIGNATURE_LEN: usize = 3;

/// The signature "SCS" ("Snel Columnar Storage").
pub open spec fn signature_bytes() -> Seq<u8> {
    seq![0x53u8, 0x43u8, 0x53u8]
}

pub open spec fn starts_with_signature(bytes: Seq<u8>) -> bool {
    bytes.len() >= 3 && bytes.subrange(0, 3) == signature_bytes()
}

pub open spec fn ends_with_signature(bytes: Seq<u8>) -> bool {
    bytes.len() >= 3 && bytes.subrange(bytes.len() - 3, bytes.len() as int) == signature_bytes()
}

/// No two columns share a name.
pub open spec fn names_unique(names: Seq<Seq<char>>) -> bool {
    forall|i: int, j: int| 0 <= i < j < names.len() ==> names[i] != names[j]
}

/// The message of `InvalidFormat` for a column name given twice.
pub open spec fn duplicate_message(name: Seq<char>) -> Seq<char> {
    "Column '"@ + name + "' is specified more than once"@
}

/// `e` reports a name that two columns share.
pub open spec fn duplicate_error(names: Seq<Seq<char>>, e: StorageError) -> bool {
    e matches StorageError::InvalidFormat(m) && exists|i: int, j: int|
        0 <= i < j < names.len() && names[i] == names[j] && m@ == duplicate_message(names[i])
}

pub open spec fn builder_names(cols: Seq<ColumnBuilder>) -> Seq<Seq<char>> {
    cols.map_values(|c: ColumnBuilder| c.name@)
}

pub open spec fn column_names(cols: Seq<Column>) -> Seq<Seq<char>> {
    cols.map_values(|c: Column| c.name@)
}

/// The columns that a schema of builders gives: same names and datatypes, in order.
pub open spec fn columns_from(cols: Seq<Column>, builders: Seq<ColumnBuilder>) -> bool {
    &&& cols.len() == builders.len()
    &&& forall|i: int|
        0 <= i < cols.len() ==> {
            &&& (#[trigger] cols[i]).name@ == builders[i].name@
            &&& cols[i].datatype == builders[i].datatype
        }
}

pub open spec fn columns_wf(cols: Seq<Column>) -> bool {
    &&& forall|i: int|
        0 <= i < cols.len() ==> {
            &&& (#[trigger] cols[i]).num_column == i
            &&& cols[i].datatype_info == info_of(cols[i].datatype)
        }
    &&& names_unique(column_names(cols))
}

/// Total rows of the stripes of a directory.
pub open spec fn rows_in(stripes: Seq<Stripe>) -> nat
    decreases stripes.len(),
{
    if stripes.len() == 0 {
        0
    } else {
        rows_in(stripes.drop_last()) + stripes.last().num_rows as nat
    }
}

/// A chunk as a stripe holds it: its encoding and its bytes.
pub open spec fn chunk_view(c: EncodedChunk) -> (Encoding, Seq<u8>) {
    (c.0, c.1@)
}

pub open spec fn chunk_views(chunks: Seq<EncodedChunk>) -> Seq<(Encoding, Seq<u8>)> {
    chunks.map_values(|c: EncodedChunk| chunk_view(c))
}

/// The chunks' bytes, one after the other.
pub open spec fn chunks_bytes(chunks: Seq<(Encoding, Seq<u8>)>) -> Seq<u8>
    decreases chunks.len(),
{
    if chunks.len() == 0 {
        Seq::empty()
    } else {
        chunks_bytes(chunks.drop_last()) + chunks.last().1
    }
}

/// Builds storages from a list of columns.
pub struct StorageBuilder {
    pub columns: Vec<ColumnBuilder>,
}

impl StorageBuilder {
    pub fn new() -> (r: StorageBuilder)
        ensures
            r.columns@.len() == 0,
    {
        StorageBuilder { columns: Vec::new() }
    }

    /// Adds a column at the end of the schema.
    pub fn column(self, name: &str, datatype: ColumnDatatype) -> (r: StorageBuilder)
        ensures
            r.columns@.len() == self.columns@.len() + 1,
            r.columns@.subrange(0, self.columns@.len() as int) == self.columns@,
            r.columns@.last().name@ == name@,
            r.columns@.last().datatype == datatype,
    {
        let mut columns = self.columns;
        columns.push(Column::build(name, datatype));
        assert(columns@.subrange(0, self.columns@.len() as int) =~= self.columns@);
        StorageBuilder { columns }
    }

    /// A storage over a new in-memory backend. Fails with `InvalidFormat` when
    /// two columns share a name; otherwise the backend holds the signature alone.
    pub fn in_memory(&self) -> (r: StorageResult<Storage>)
        ensures
            r is Err <==> !names_unique(builder_names(self.columns@)),
            r matches Err(e) ==> duplicate_error(builder_names(self.columns@), e),
            r matches Ok(s) ==> {
                &&& s.wf()
                &&& columns_from(s.spec_columns(), self.columns@)
                &&& s.spec_bytes() == signature_bytes()
                &&& s.spec_stripes().len() == 0
                &&& s.spec_num_rows() == 0
            },
    {
        Storage::init(StorageBackend::new_in_memory(), self)
    }
}

/// A columnar storage. Its backend begins with the signature; its row count is
/// the sum of the rows of its stripes; its column names are unique.
pub struct Storage {
    num_rows: usize,
    columns: Vec<Column>,
    backend: StorageBackend,
    stripes: Vec<Stripe>,
}

impl Storage {
    pub closed spec fn spec_num_rows(&self) -> nat {
        self.num_rows as nat
    }

    pub closed spec fn spec_columns(&self) -> Seq<Column> {
        self.columns@
    }

    /// Everything written to the backend so far.
    pub closed spec fn spec_bytes(&self) -> Seq<u8> {
        self.backend@
    }

    /// The stripe directory.
    pub closed spec fn spec_stripes(&self) -> Seq<Stripe> {
        self.stripes@
    }

    pub open spec fn wf(&self) -> bool {
        &&& columns_wf(self.spec_columns())
        &&& self.spec_num_rows() == rows_in(self.spec_stripes())
        &&& starts_with_signature(self.spec_bytes())
        &&& self.spec_bytes().len() <= usize::MAX
    }

    /// Checks the schema, then writes the signature to the (empty) backend.
    fn init(backend: StorageBackend, builder: &StorageBuilder) -> (r: StorageResult<Storage>)
        requires
            backend@.len() == 0,
        ensures
            r is Err <==> !names_unique(builder_names(builder.columns@)),
            r matches Err(e) ==> duplicate_error(builder_names(builder.columns@), e),
            r matches Ok(s) ==> {
                &&& s.wf()
                &&& columns_from(s.spec_columns(), builder.columns@)
                &&& s.spec_bytes() == signature_bytes()
                &&& s.spec_stripes().len() == 0
                &&& s.spec_num_rows() == 0
            },
    {
        let ghost names = builder_names(builder.columns@);
        let n = builder.columns.len();
        let mut i: usize = 0;
        while i < n
            invariant
                n == builder.columns@.len(),
                names == builder_names(builder.columns@),
                i <= n,
                forall|a: int, b: int| 0 <= a < b < n && a < i ==> names[a] != names[b],
            decreases n - i,
        {
            let mut j: usize = i + 1;
            while j < n
                invariant
                    n == builder.columns@.len(),
                    names == builder_names(builder.columns@),
                    i < j <= n,
                    forall|a: int, b: int| 0 <= a < b < n && a < i ==> names[a] != names[b],
                    forall|b: int| i < b < j ==> names[i as int] != names[b],
                decreases n - j,
            {
                if builder.columns[i].name == builder.columns[j].name {
                    assert(names[i as int] == names[j as int]);
                    let mut msg = "Column '".to_owned();
                    msg.append(builder.columns[i].name.as_str());
                    msg.append("' is specified more than once");
                    assert(msg@ == duplicate_message(names[i as int]));
                    return Err(StorageError::InvalidFormat(msg));
                }
                j = j + 1;
            }
            i = i + 1;
        }
        let mut columns: Vec<Column> = Vec::new();
        let mut k: usize = 0;
        while k < n
            invariant
                n == builder.columns@.len(),
                names == builder_names(builder.columns@),
                names_unique(names),
                k <= n,
                columns@.len() == k,
                forall|a: int|
                    0 <= a < k ==> {
                        &&& (#[trigger] columns@[a]).name@ == builder.columns@[a].name@
                        &&& columns@[a].datatype == builder.columns@[a].datatype
                        &&& columns@[a].num_column == a
                        &&& columns@[a].datatype_info == info_of(columns@[a].datatype)
                    },
            decreases n - k,
        {
            let b = &builder.columns[k];
            columns.push(
                Column {
                    name: b.name.clone(),
                    datatype: b.datatype,
                    datatype_info: DatatypeInfo::new(&b.datatype),
                    num_column: k,
                },
            );
            k = k + 1;
        }
        assert(column_names(columns@) =~= names);
        let mut storage = Storage { num_rows: 0, columns, backend, stripes: Vec::new() };
        let _ = storage.write_header();
        assert(storage.backend@ =~= signature_bytes());
        assert(storage.backend@.subrange(0, 3) =~= signature_bytes());
        Ok(storage)
    }

    /// The signature, "SCS".
    pub fn signature() -> (r: Vec<u8>)
        ensures
            r@ == signature_bytes(),
            r@.len() == SIGNATURE_LEN,
    {
        let mut r: Vec<u8> = Vec::new();
        r.push(0x53);
        r.push(0x43);
        r.push(0x53);
        assert(r@ =~= signature_bytes());
        r
    }

    /// Writes the signature at the backend's position.
    pub fn write_header(&mut self) -> (r: StorageResult<()>)
        ensures
            r is Ok,
            final(self).spec_bytes() == old(self).spec_bytes() + signature_bytes(),
            final(self).spec_bytes().len() <= usize::MAX,
            final(self).spec_columns() == old(self).spec_columns(),
            final(self).spec_stripes() == old(self).spec_stripes(),
            final(self).spec_num_rows() == old(self).spec_num_rows(),
    {
        let sig = Self::signature();
        let _ = self.backend.write(sig.as_slice());
        Ok(())
    }

    /// Writes the closing signature at the end of the backend.
    pub fn write_footer(&mut self) -> (r: StorageResult<()>)
        requires
            old(self).wf(),
        ensures
            r is Ok,
            final(self).wf(),
            final(self).spec_bytes() == old(self).spec_bytes() + signature_bytes(),
            ends_with_signature(final(self).spec_bytes()),
            final(self).spec_columns() == old(self).spec_columns(),
            final(self).spec_stripes() == old(self).spec_stripes(),
            final(self).spec_num_rows() == old(self).spec_num_rows(),
    {
        let ghost before = self.backend@;
        let r = self.write_header();
        assert(self.backend@.subrange(0, 3) =~= before.subrange(0, 3));
        assert(self.backend@.subrange(self.backend@.len() - 3, self.backend@.len() as int)
            =~= signature_bytes());
        r
    }

    pub fn columns(&self) -> (r: &Vec<Column>)
        ensures
            r@ == self.spec_columns(),
    {
        &self.columns
    }

    pub fn column(&self, idx: usize) -> (r: &Column)
        requires
            idx < self.spec_columns().len(),
        ensures
            *r == self.spec_columns()[idx as int],
    {
        &self.columns[idx]
    }

    /// The column called `name`, if there is one.
    pub fn column_by_name(&self, name: &str) -> (r: Option<&Column>)
        ensures
            r is None <==> !column_names(self.spec_columns()).contains(name@),
            r matches Some(c) ==> exists|i: int|
                0 <= i < self.spec_columns().len() && *c == self.spec_columns()[i] && c.name@
                    == name@,
    {
        let wanted = name.to_owned();
        let mut i: usize = 0;
        while i < self.columns.len()
            invariant
                wanted@ == name@,
                i <= self.columns@.len(),
                forall|a: int| 0 <= a < i ==> (#[trigger] self.columns@[a]).name@ != name@,
            decreases self.columns@.len() - i,
        {
            if self.columns[i].name == wanted {
                assert(column_names(self.columns@)[i as int] == name@);
                return Some(&self.columns[i]);
            }
            i = i + 1;
        }
        assert forall|a: int| 0 <= a < column_names(self.columns@).len() implies column_names(
            self.columns@,
        )[a] != name@ by {
            assert(self.columns@[a].name@ != name@);
        }
        None
    }

    pub fn num_columns(&self) -> (r: usize)
        ensures
            r == self.spec_columns().len(),
    {
        self.columns.len()
    }

    pub fn num_rows(&self) -> (r: usize)
        ensures
            r == self.spec_num_rows(),
    {
        self.num_rows
    }

    /// The stripe directory.
    pub fn stripes(&self) -> (r: &Vec<Stripe>)
        ensures
            r@ == self.spec_stripes(),
    {
        &self.stripes
    }

    /// The bytes written to the backend so far.
    pub fn contents(&self) -> (r: &[u8])
        ensures
            r@ == self.spec_bytes(),
    {
        self.backend.contents()
    }

    /// Hands the backend over.
    pub fn into_backend(self) -> (r: StorageBackend)
        ensures
            r@ == self.spec_bytes(),
    {
        self.backend
    }

    /// Starts inserting rows through a manager that owns this storage.
    pub fn begin_inserting(self) -> (r: InsertionManager)
        requires
            self.wf(),
        ensures
            r.wf(),
            r.spec_storage() == self,
            r.open_inserters() == 0,
    {
        InsertionManager::new(self)
    }

    /// Records a stripe in the directory and counts its rows.
    pub fn append_stripe(&mut self, stripe: &Stripe)
        requires
            old(self).wf(),
            old(self).spec_num_rows() + stripe.num_rows <= usize::MAX,
        ensures
            final(self).wf(),
            final(self).spec_stripes() == old(self).spec_stripes().push(*stripe),
            final(self).spec_num_rows() == old(self).spec_num_rows() + stripe.num_rows,
            final(self).spec_bytes() == old(self).spec_bytes(),
            final(self).spec_columns() == old(self).spec_columns(),
    {
        self.stripes.push(*stripe);
        self.num_rows = self.num_rows + stripe.num_rows;
        assert(self.stripes@.drop_last() =~= old(self).stripes@);
    }

    /// Writes a stripe — its serialized header, then each chunk in order — at the
    /// end of the backend, and records it in the directory at the offset where
    /// its header starts.
    pub fn write_stripe(&mut self, num_rows: usize, header: &[u8], chunks: &Vec<EncodedChunk>)
        requires
            old(self).wf(),
            old(self).spec_num_rows() + num_rows <= usize::MAX,
        ensures
            final(self).wf(),
            final(self).spec_bytes() == old(self).spec_bytes() + header@ + chunks_bytes(
                chunk_views(chunks@),
            ),
            final(self).spec_stripes() == old(self).spec_stripes().push(
                Stripe { absolute_offset: old(self).spec_bytes().len() as usize, num_rows },
            ),
            final(self).spec_num_rows() == old(self).spec_num_rows() + num_rows,
            final(self).spec_columns() == old(self).spec_columns(),
    {
        let offset = self.backend.position();
        let _ = self.backend.write(header);
        let ghost after_header = self.backend@;
        let mut i: usize = 0;
        while i < chunks.len()
            invariant
                i <= chunks@.len(),
                self.backend@ == after_header + chunks_bytes(chunk_views(chunks@.subrange(0, i as int))),
                after_header == old(self).backend@ + header@,
                self.backend@.len() <= usize::MAX,
                offset == old(self).backend@.len(),
                self.stripes@ == old(self).stripes@,
                self.num_rows == old(self).num_rows,
                self.columns@ == old(self).columns@,
                old(self).wf(),
            decreases chunks@.len() - i,
        {
            let _ = self.backend.write(chunks[i].1.as_slice());
            assert(chunk_views(chunks@.subrange(0, i + 1)).drop_last() =~= chunk_views(
                chunks@.subrange(0, i as int),
            ));
            assert(self.backend@ =~= after_header + chunks_bytes(
                chunk_views(chunks@.subrange(0, i + 1)),
            ));
            i = i + 1;
        }
        assert(chunks@.subrange(0, i as int) =~= chunks@);
        assert(self.backend@.subrange(0, 3) =~= old(self).backend@.subrange(0, 3));
        self.append_stripe(&Stripe { absolute_offset: offset, num_rows });
    }
}

} // verus!
