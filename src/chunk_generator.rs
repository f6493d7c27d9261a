//! Per-column buffers that collect a stripe's values and encode them as one chunk.
use vstd::prelude::*;
use crate::encoding::{le_bytes, lemma_le_bytes_len, push_le, twos_complement, Encoding, FlatValue};
use crate::error::{StorageError, StorageResult};
use crate::schema::{cell_accepted, cell_error, is_numeric, numeric_width, CellView, ColumnDatatype, ColumnValue};

verus! {

/// The byte image that stands for a null in a numeric column: the type's least
/// value (`i8::MIN`, `i32::MIN`, `i64::MIN`), or negative infinity for floats.
pub open spec fn null_image(dt: ColumnDatatype) -> Seq<u8> {
    match dt {
        ColumnDatatype::Byte => le_bytes(0x80, 1),
        ColumnDatatype::Int32 => le_bytes(0x8000_0000, 4),
        ColumnDatatype::Int64 => le_bytes(0x8000_0000_0000_0000, 8),
        ColumnDatatype::Float => le_bytes(0xff80_0000, 4),
        _ => Seq::empty(),
    }
}

/// The little-endian image of one cell of a numeric column.
pub open spec fn numeric_image(dt: ColumnDatatype, c: CellView) -> Seq<u8> {
    match c {
        CellView::Byte(v) => v.flat(),
        CellView::Int32(v) => v.flat(),
        CellView::Int64(v) => v.flat(),
        CellView::Float(v) => v.flat(),
        _ => null_image(dt),
    }
}

pub open spec fn numeric_images(dt: ColumnDatatype, cells: Seq<CellView>) -> Seq<u8>
    decreases cells.len(),
{
    if cells.len() == 0 {
        Seq::empty()
    } else {
        numeric_images(dt, cells.drop_last()) + numeric_image(dt, cells.last())
    }
}

/// One byte per cell: 1 for a null, 0 for a present value.
pub open spec fn null_flags(cells: Seq<CellView>) -> Seq<u8>
    decreases cells.len(),
{
    if cells.len() == 0 {
        Seq::empty()
    } else {
        null_flags(cells.drop_last()) + seq![if cells.last() is Null { 1u8 } else { 0u8 }]
    }
}

/// The bytes of a fixed- or variable-length cell; nothing for any other cell.
pub open spec fn payload(c: CellView) -> Seq<u8> {
    match c {
        CellView::FixedLength(v) => v,
        CellView::VariableLength(v) => v,
        _ => Seq::empty(),
    }
}

pub open spec fn payloads(cells: Seq<CellView>) -> Seq<u8>
    decreases cells.len(),
{
    if cells.len() == 0 {
        Seq::empty()
    } else {
        payloads(cells.drop_last()) + payload(cells.last())
    }
}

/// The 32-bit size field of a variable-length cell: -1 for a null, else the length.
pub open spec fn size_image(c: CellView) -> Seq<u8> {
    if c is Null {
        le_bytes(0xffff_ffff, 4)
    } else {
        le_bytes(payload(c).len(), 4)
    }
}

pub open spec fn size_images(cells: Seq<CellView>) -> Seq<u8>
    decreases cells.len(),
{
    if cells.len() == 0 {
        Seq::empty()
    } else {
        size_images(cells.drop_last()) + size_image(cells.last())
    }
}

/// The chunk that a generator for `dt` produces from `cells`.
pub open spec fn encoded_cells(dt: ColumnDatatype, cells: Seq<CellView>) -> Seq<u8> {
    match dt {
        ColumnDatatype::FixedLength(_) => null_flags(cells) + payloads(cells),
        ColumnDatatype::VariableLength => size_images(cells) + payloads(cells),
        _ => numeric_images(dt, cells),
    }
}

/// Number of cells that are not null.
pub open spec fn present_count(cells: Seq<CellView>) -> nat
    decreases cells.len(),
{
    if cells.len() == 0 {
        0
    } else {
        present_count(cells.drop_last()) + if cells.last() is Null { 0nat } else { 1nat }
    }
}

/// Sum of the payload lengths of the cells.
pub open spec fn payload_len_sum(cells: Seq<CellView>) -> nat
    decreases cells.len(),
{
    if cells.len() == 0 {
        0
    } else {
        payload_len_sum(cells.drop_last()) + payload(cells.last()).len()
    }
}

/// The size of a chunk: `width * count` for a numeric column, `count + W * present`
/// for a fixed-length column of width `W`, `4 * count + total payload` for a
/// variable-length one.
pub open spec fn chunk_size(dt: ColumnDatatype, cells: Seq<CellView>) -> nat {
    match dt {
        ColumnDatatype::FixedLength(w) => cells.len() + ((w as usize) as nat) * present_count(cells),
        ColumnDatatype::VariableLength => 4 * cells.len() + payload_len_sum(cells),
        _ => numeric_width(dt) * cells.len(),
    }
}

pub open spec fn all_accepted(dt: ColumnDatatype, cells: Seq<CellView>) -> bool {
    forall|i: int| 0 <= i < cells.len() ==> cell_accepted(dt, #[trigger] cells[i])
}

proof fn lemma_numeric_image_len(dt: ColumnDatatype, c: CellView)
    requires
        is_numeric(dt),
        cell_accepted(dt, c),
    ensures
        numeric_image(dt, c).len() == numeric_width(dt),
{
    lemma_le_bytes_len(0x80, 1);
    lemma_le_bytes_len(0x8000_0000, 4);
    lemma_le_bytes_len(0x8000_0000_0000_0000, 8);
    lemma_le_bytes_len(0xff80_0000, 4);
    match c {
        CellView::Byte(v) => lemma_le_bytes_len(twos_complement(v as int, 0x100), 1),
        CellView::Int32(v) => lemma_le_bytes_len(twos_complement(v as int, 0x1_0000_0000), 4),
        CellView::Int64(v) => lemma_le_bytes_len(
            twos_complement(v as int, 0x1_0000_0000_0000_0000),
            8,
        ),
        CellView::Float(v) => lemma_le_bytes_len(v as nat, 4),
        _ => {},
    }
}

/// Every sequence of values that a generator accepts encodes to a chunk of
/// exactly `chunk_size` bytes.
pub proof fn lemma_encoded_chunk_size(dt: ColumnDatatype, cells: Seq<CellView>)
    requires
        all_accepted(dt, cells),
    ensures
        encoded_cells(dt, cells).len() == chunk_size(dt, cells),
    decreases cells.len(),
{
    if cells.len() == 0 {
        assert(null_flags(cells) =~= Seq::<u8>::empty());
        assert(payloads(cells) =~= Seq::<u8>::empty());
        assert(size_images(cells) =~= Seq::<u8>::empty());
        assert(numeric_images(dt, cells) =~= Seq::<u8>::empty());
        match dt {
            ColumnDatatype::FixedLength(w) => {
                assert(((w as usize) as nat) * 0 == 0) by (nonlinear_arith);
            },
            _ => {
                assert(numeric_width(dt) * 0 == 0) by (nonlinear_arith);
            },
        }
    } else {
        let init = cells.drop_last();
        let c = cells.last();
        assert(cell_accepted(dt, cells[cells.len() - 1]));
        assert forall|i: int| 0 <= i < init.len() implies cell_accepted(dt, #[trigger] init[i]) by {
            assert(init[i] == cells[i]);
        }
        lemma_encoded_chunk_size(dt, init);
        assert(payloads(cells) == payloads(init) + payload(c));
        match dt {
            ColumnDatatype::FixedLength(w) => {
                let ww = (w as usize) as nat;
                assert(null_flags(cells).len() == null_flags(init).len() + 1);
                if c is Null {
                    assert(present_count(cells) == present_count(init));
                    assert(payload(c).len() == 0);
                } else {
                    assert(present_count(cells) == present_count(init) + 1);
                    assert(payload(c).len() == ww);
                    assert(ww * present_count(cells) == ww * present_count(init) + ww)
                        by (nonlinear_arith)
                        requires
                            present_count(cells) == present_count(init) + 1,
                    ;
                }
            },
            ColumnDatatype::VariableLength => {
                lemma_le_bytes_len(0xffff_ffff, 4);
                lemma_le_bytes_len(payload(c).len(), 4);
                assert(size_images(cells).len() == size_images(init).len() + 4);
                assert(payload_len_sum(cells) == payload_len_sum(init) + payload(c).len());
            },
            _ => {
                lemma_numeric_image_len(dt, c);
                assert(numeric_width(dt) * cells.len() == numeric_width(dt) * init.len()
                    + numeric_width(dt)) by (nonlinear_arith)
                    requires
                        cells.len() == init.len() + 1,
                ;
            },
        }
    }
}

/// An encoded chunk and the encoding that produced it.
pub struct EncodedChunk(pub Encoding, pub Vec<u8>);

/// Collects the values of a numeric column (bytes, 32- and 64-bit integers, floats)
/// as their little-endian images; a null is stored as the type's sentinel.
pub struct NumericChunkGenerator {
    datatype: ColumnDatatype,
    values: Vec<u8>,
    cells: Ghost<Seq<CellView>>,
}

impl NumericChunkGenerator {
    pub proof fn lemma_cells_accepted(&self)
        requires
            self.wf(),
        ensures
            is_numeric(self.datatype_spec()),
            all_accepted(self.datatype_spec(), self.cells()),
    {
    }

    pub closed spec fn datatype_spec(&self) -> ColumnDatatype {
        self.datatype
    }

    /// The values appended since creation or the last reset.
    pub closed spec fn cells(&self) -> Seq<CellView> {
        self.cells@
    }

    pub closed spec fn wf(&self) -> bool {
        &&& is_numeric(self.datatype)
        &&& all_accepted(self.datatype, self.cells@)
        &&& self.values@ == numeric_images(self.datatype, self.cells@)
    }

    pub fn new(datatype: ColumnDatatype, _num_values: usize) -> (r: NumericChunkGenerator)
        requires
            is_numeric(datatype),
        ensures
            r.wf(),
            r.datatype_spec() == datatype,
            r.cells() == Seq::<CellView>::empty(),
    {
        NumericChunkGenerator { datatype, values: Vec::new(), cells: Ghost(Seq::empty()) }
    }

    pub fn validate_value(&self, value: &ColumnValue) -> (r: StorageResult<()>)
        requires
            self.wf(),
        ensures
            r is Ok <==> cell_accepted(self.datatype_spec(), value@),
            r matches Err(e) ==> cell_error(self.datatype_spec(), value@, e),
    {
        match (self.datatype, value) {
            (_, ColumnValue::Null) => Ok(()),
            (ColumnDatatype::Byte, ColumnValue::Byte(_)) => Ok(()),
            (ColumnDatatype::Int32, ColumnValue::Int32(_)) => Ok(()),
            (ColumnDatatype::Int64, ColumnValue::Int64(_)) => Ok(()),
            (ColumnDatatype::Float, ColumnValue::Float(_)) => Ok(()),
            _ => Err(StorageError::TypeError),
        }
    }

    /// Appends the image of `value`, or the null sentinel.
    pub fn append_value(&mut self, value: &ColumnValue)
        requires
            old(self).wf(),
            cell_accepted(old(self).datatype_spec(), value@),
        ensures
            final(self).wf(),
            final(self).datatype_spec() == old(self).datatype_spec(),
            final(self).cells() == old(self).cells().push(value@),
    {
        let ghost old_cells = self.cells@;
        match value {
            ColumnValue::Byte(v) => v.append_flat(&mut self.values),
            ColumnValue::Int32(v) => v.append_flat(&mut self.values),
            ColumnValue::Int64(v) => v.append_flat(&mut self.values),
            ColumnValue::Float(v) => v.append_flat(&mut self.values),
            _ => match self.datatype {
                ColumnDatatype::Byte => push_le(&mut self.values, 0x80, 1),
                ColumnDatatype::Int32 => push_le(&mut self.values, 0x8000_0000, 4),
                ColumnDatatype::Int64 => push_le(&mut self.values, 0x8000_0000_0000_0000, 8),
                _ => push_le(&mut self.values, 0xff80_0000, 4),
            },
        }
        self.cells = Ghost(old_cells.push(value@));
        proof {
            assert(self.cells@.drop_last() =~= old_cells);
            assert forall|i: int| 0 <= i < self.cells@.len() implies cell_accepted(
                self.datatype,
                #[trigger] self.cells@[i],
            ) by {
                if i < old_cells.len() {
                    assert(self.cells@[i] == old_cells[i]);
                }
            }
        }
    }

    /// The values' images, one after the other, with the `Raw` tag.
    pub fn get_encoded_chunk(&self) -> (r: EncodedChunk)
        requires
            self.wf(),
        ensures
            r.0 == Encoding::Raw,
            r.1@ == encoded_cells(self.datatype_spec(), self.cells()),
    {
        let mut out: Vec<u8> = Vec::new();
        out.extend_from_slice(self.values.as_slice());
        assert(out@ =~= self.values@);
        EncodedChunk(Encoding::Raw, out)
    }

    pub fn reset(&mut self)
        requires
            old(self).wf(),
        ensures
            final(self).wf(),
            final(self).datatype_spec() == old(self).datatype_spec(),
            final(self).cells() == Seq::<CellView>::empty(),
    {
        self.values.clear();
        self.cells = Ghost(Seq::empty());
        assert(self.values@ =~= numeric_images(self.datatype, Seq::empty()));
    }
}

/// Collects the values of a fixed-length column: a null flag per row, and the
/// bytes of the present values only.
pub struct FixedLengthChunkGenerator {
    width: i32,
    value_size: usize,
    nulls: Vec<bool>,
    values: Vec<u8>,
    cells: Ghost<Seq<CellView>>,
}

impl FixedLengthChunkGenerator {
    pub proof fn lemma_cells_accepted(&self)
        requires
            self.wf(),
        ensures
            all_accepted(self.datatype_spec(), self.cells()),
    {
    }

    pub closed spec fn datatype_spec(&self) -> ColumnDatatype {
        ColumnDatatype::FixedLength(self.width)
    }

    /// The values appended since creation or the last reset.
    pub closed spec fn cells(&self) -> Seq<CellView> {
        self.cells@
    }

    pub closed spec fn wf(&self) -> bool {
        &&& self.value_size == self.width as usize
        &&& all_accepted(self.datatype_spec(), self.cells@)
        &&& self.nulls@.len() == self.cells@.len()
        &&& forall|i: int| 0 <= i < self.cells@.len() ==> #[trigger] self.nulls@[i] == (self.cells@[i] is Null)
        &&& self.values@ == payloads(self.cells@)
    }

    pub fn new(value_size: i32, _num_values: usize) -> (r: FixedLengthChunkGenerator)
        ensures
            r.wf(),
            r.datatype_spec() == ColumnDatatype::FixedLength(value_size),
            r.cells() == Seq::<CellView>::empty(),
    {
        FixedLengthChunkGenerator {
            width: value_size,
            value_size: value_size as usize,
            nulls: Vec::new(),
            values: Vec::new(),
            cells: Ghost(Seq::empty()),
        }
    }

    /// Accepts a null, or a fixed-length value of exactly this column's width.
    pub fn validate_value(&self, value: &ColumnValue) -> (r: StorageResult<()>)
        requires
            self.wf(),
        ensures
            r is Ok <==> cell_accepted(self.datatype_spec(), value@),
            r matches Err(e) ==> cell_error(self.datatype_spec(), value@, e),
    {
        match value {
            ColumnValue::Null => Ok(()),
            ColumnValue::FixedLength(v) => {
                if v.len() == self.value_size {
                    Ok(())
                } else {
                    Err(StorageError::InvalidLength(v.len(), self.value_size))
                }
            },
            _ => Err(StorageError::TypeError),
        }
    }

    pub fn append_value(&mut self, value: &ColumnValue)
        requires
            old(self).wf(),
            cell_accepted(old(self).datatype_spec(), value@),
        ensures
            final(self).wf(),
            final(self).datatype_spec() == old(self).datatype_spec(),
            final(self).cells() == old(self).cells().push(value@),
    {
        let ghost old_cells = self.cells@;
        match value {
            ColumnValue::FixedLength(v) => {
                self.nulls.push(false);
                self.values.extend_from_slice(v.as_slice());
            },
            _ => {
                self.nulls.push(true);
            },
        }
        self.cells = Ghost(old_cells.push(value@));
        proof {
            assert(self.cells@.drop_last() =~= old_cells);
            assert(payloads(self.cells@) == payloads(old_cells) + payload(value@));
            assert(self.values@ =~= payloads(self.cells@));
            assert forall|i: int| 0 <= i < self.cells@.len() implies cell_accepted(
                self.datatype_spec(),
                #[trigger] self.cells@[i],
            ) by {
                if i < old_cells.len() {
                    assert(self.cells@[i] == old_cells[i]);
                }
            }
            assert forall|i: int| 0 <= i < self.cells@.len() implies #[trigger] self.nulls@[i] == (
            self.cells@[i] is Null) by {
                if i < old_cells.len() {
                    assert(self.cells@[i] == old_cells[i]);
                }
            }
        }
    }

    /// One flag byte per row (1 for a null), then the bytes of the present values,
    /// with the `Raw` tag.
    pub fn get_encoded_chunk(&self) -> (r: EncodedChunk)
        requires
            self.wf(),
        ensures
            r.0 == Encoding::Raw,
            r.1@ == encoded_cells(self.datatype_spec(), self.cells()),
    {
        let mut out: Vec<u8> = Vec::new();
        let mut i: usize = 0;
        while i < self.nulls.len()
            invariant
                self.wf(),
                i <= self.cells@.len(),
                out@ == null_flags(self.cells@.subrange(0, i as int)),
            decreases self.cells@.len() - i,
        {
            let flag: u8 = if self.nulls[i] { 1 } else { 0 };
            out.push(flag);
            assert(self.cells@.subrange(0, i + 1).drop_last() =~= self.cells@.subrange(0, i as int));
            i = i + 1;
        }
        assert(self.cells@.subrange(0, self.cells@.len() as int) =~= self.cells@);
        out.extend_from_slice(self.values.as_slice());
        EncodedChunk(Encoding::Raw, out)
    }

    pub fn reset(&mut self)
        requires
            old(self).wf(),
        ensures
            final(self).wf(),
            final(self).datatype_spec() == old(self).datatype_spec(),
            final(self).cells() == Seq::<CellView>::empty(),
    {
        self.nulls.clear();
        self.values.clear();
        self.cells = Ghost(Seq::empty());
        assert(self.values@ =~= payloads(Seq::empty()));
    }
}

/// Collects the values of a variable-length column: a signed 32-bit size per row
/// (-1 for a null), and the bytes of the present values.
pub struct VariableLengthChunkGenerator {
    sizes: Vec<u8>,
    values: Vec<u8>,
    cells: Ghost<Seq<CellView>>,
}

impl VariableLengthChunkGenerator {
    pub proof fn lemma_cells_accepted(&self)
        requires
            self.wf(),
        ensures
            all_accepted(ColumnDatatype::VariableLength, self.cells()),
    {
    }

    /// The values appended since creation or the last reset.
    pub closed spec fn cells(&self) -> Seq<CellView> {
        self.cells@
    }

    pub closed spec fn wf(&self) -> bool {
        &&& all_accepted(ColumnDatatype::VariableLength, self.cells@)
        &&& self.sizes@ == size_images(self.cells@)
        &&& self.values@ == payloads(self.cells@)
    }

    pub fn new(_num_values: usize) -> (r: VariableLengthChunkGenerator)
        ensures
            r.wf(),
            r.cells() == Seq::<CellView>::empty(),
    {
        VariableLengthChunkGenerator {
            sizes: Vec::new(),
            values: Vec::new(),
            cells: Ghost(Seq::empty()),
        }
    }

    /// Accepts a null or a variable-length value.
    pub fn validate_value(&self, value: &ColumnValue) -> (r: StorageResult<()>)
        requires
            self.wf(),
        ensures
            r is Ok <==> cell_accepted(ColumnDatatype::VariableLength, value@),
            r matches Err(e) ==> cell_error(ColumnDatatype::VariableLength, value@, e),
    {
        match value {
            ColumnValue::Null => Ok(()),
            ColumnValue::VariableLength(_) => Ok(()),
            _ => Err(StorageError::TypeError),
        }
    }

    pub fn append_value(&mut self, value: &ColumnValue)
        requires
            old(self).wf(),
            cell_accepted(ColumnDatatype::VariableLength, value@),
        ensures
            final(self).wf(),
            final(self).cells() == old(self).cells().push(value@),
    {
        let ghost old_cells = self.cells@;
        match value {
            ColumnValue::VariableLength(v) => {
                push_le(&mut self.sizes, v.len() as u64, 4);
                self.values.extend_from_slice(v.as_slice());
            },
            _ => {
                push_le(&mut self.sizes, 0xffff_ffff, 4);
            },
        }
        self.cells = Ghost(old_cells.push(value@));
        proof {
            assert(self.cells@.drop_last() =~= old_cells);
            assert(payloads(self.cells@) == payloads(old_cells) + payload(value@));
            assert(self.values@ =~= payloads(self.cells@));
            assert forall|i: int| 0 <= i < self.cells@.len() implies cell_accepted(
                ColumnDatatype::VariableLength,
                #[trigger] self.cells@[i],
            ) by {
                if i < old_cells.len() {
                    assert(self.cells@[i] == old_cells[i]);
                }
            }
        }
    }

    /// The size fields, little-endian, then the bytes of the present values,
    /// with the `Raw` tag.
    pub fn get_encoded_chunk(&self) -> (r: EncodedChunk)
        requires
            self.wf(),
        ensures
            r.0 == Encoding::Raw,
            r.1@ == encoded_cells(ColumnDatatype::VariableLength, self.cells()),
    {
        let mut out: Vec<u8> = Vec::new();
        out.extend_from_slice(self.sizes.as_slice());
        out.extend_from_slice(self.values.as_slice());
        assert(out@ =~= self.sizes@ + self.values@);
        EncodedChunk(Encoding::Raw, out)
    }

    pub fn reset(&mut self)
        requires
            old(self).wf(),
        ensures
            final(self).wf(),
            final(self).cells() == Seq::<CellView>::empty(),
    {
        self.sizes.clear();
        self.values.clear();
        self.cells = Ghost(Seq::empty());
        assert(self.values@ =~= payloads(Seq::empty()));
        assert(self.sizes@ =~= size_images(Seq::empty()));
    }
}

/// The generator of one column, chosen by its datatype.
pub enum ChunkGenerator {
    Numeric(NumericChunkGenerator),
    FixedLength(FixedLengthChunkGenerator),
    VariableLength(VariableLengthChunkGenerator),
}

impl ChunkGenerator {
    /// The datatype of the column that this generator collects.
    pub open spec fn datatype_spec(&self) -> ColumnDatatype {
        match self {
            ChunkGenerator::Numeric(g) => g.datatype_spec(),
            ChunkGenerator::FixedLength(g) => g.datatype_spec(),
            ChunkGenerator::VariableLength(_) => ColumnDatatype::VariableLength,
        }
    }

    /// The values appended since creation or the last reset.
    pub open spec fn cells(&self) -> Seq<CellView> {
        match self {
            ChunkGenerator::Numeric(g) => g.cells(),
            ChunkGenerator::FixedLength(g) => g.cells(),
            ChunkGenerator::VariableLength(g) => g.cells(),
        }
    }

    pub open spec fn wf(&self) -> bool {
        match self {
            ChunkGenerator::Numeric(g) => g.wf(),
            ChunkGenerator::FixedLength(g) => g.wf(),
            ChunkGenerator::VariableLength(g) => g.wf(),
        }
    }

    /// An empty generator for a column of `datatype`. The row count `size` is a
    /// sizing hint only: buffers grow as values arrive.
    pub fn for_datatype(datatype: &ColumnDatatype, size: usize) -> (r: ChunkGenerator)
        ensures
            r.wf(),
            r.datatype_spec() == *datatype,
            r.cells() == Seq::<CellView>::empty(),
    {
        match *datatype {
            ColumnDatatype::FixedLength(length) => ChunkGenerator::FixedLength(
                FixedLengthChunkGenerator::new(length, size),
            ),
            ColumnDatatype::VariableLength => ChunkGenerator::VariableLength(
                VariableLengthChunkGenerator::new(size),
            ),
            _ => ChunkGenerator::Numeric(NumericChunkGenerator::new(*datatype, size)),
        }
    }

    /// Checks that the column takes `value`; nothing changes.
    pub fn validate_value(&self, value: &ColumnValue) -> (r: StorageResult<()>)
        requires
            self.wf(),
        ensures
            r is Ok <==> cell_accepted(self.datatype_spec(), value@),
            r matches Err(e) ==> cell_error(self.datatype_spec(), value@, e),
    {
        match self {
            ChunkGenerator::Numeric(g) => g.validate_value(value),
            ChunkGenerator::FixedLength(g) => g.validate_value(value),
            ChunkGenerator::VariableLength(g) => g.validate_value(value),
        }
    }

    pub fn append_value(&mut self, value: &ColumnValue)
        requires
            old(self).wf(),
            cell_accepted(old(self).datatype_spec(), value@),
        ensures
            final(self).wf(),
            final(self).datatype_spec() == old(self).datatype_spec(),
            final(self).cells() == old(self).cells().push(value@),
    {
        match self {
            ChunkGenerator::Numeric(g) => g.append_value(value),
            ChunkGenerator::FixedLength(g) => g.append_value(value),
            ChunkGenerator::VariableLength(g) => g.append_value(value),
        }
    }

    /// Appends each of `values` in order.
    pub fn append_values(&mut self, values: &[ColumnValue])
        requires
            old(self).wf(),
            forall|i: int|
                0 <= i < values@.len() ==> cell_accepted(old(self).datatype_spec(), #[trigger] values@[i]@),
        ensures
            final(self).wf(),
            final(self).datatype_spec() == old(self).datatype_spec(),
            final(self).cells() == old(self).cells() + values@.map_values(|v: ColumnValue| v@),
    {
        let mut i: usize = 0;
        while i < values.len()
            invariant
                self.wf(),
                self.datatype_spec() == old(self).datatype_spec(),
                i <= values@.len(),
                forall|j: int|
                    0 <= j < values@.len() ==> cell_accepted(old(self).datatype_spec(), #[trigger] values@[j]@),
                self.cells() == old(self).cells() + values@.subrange(0, i as int).map_values(
                    |v: ColumnValue| v@,
                ),
            decreases values@.len() - i,
        {
            self.append_value(&values[i]);
            assert(values@.subrange(0, i + 1).map_values(|v: ColumnValue| v@) =~= values@.subrange(
                0,
                i as int,
            ).map_values(|v: ColumnValue| v@).push(values@[i as int]@));
            assert(self.cells() =~= old(self).cells() + values@.subrange(0, i + 1).map_values(
                |v: ColumnValue| v@,
            ));
            i = i + 1;
        }
        assert(values@.subrange(0, i as int) =~= values@);
    }

    /// The chunk of the values appended so far; its length is `chunk_size`.
    pub fn get_encoded_chunk(&self) -> (r: EncodedChunk)
        requires
            self.wf(),
        ensures
            r.0 == Encoding::Raw,
            r.1@ == encoded_cells(self.datatype_spec(), self.cells()),
            r.1@.len() == chunk_size(self.datatype_spec(), self.cells()),
    {
        let r = match self {
            ChunkGenerator::Numeric(g) => g.get_encoded_chunk(),
            ChunkGenerator::FixedLength(g) => g.get_encoded_chunk(),
            ChunkGenerator::VariableLength(g) => g.get_encoded_chunk(),
        };
        proof {
            self.lemma_cells_accepted();
            lemma_encoded_chunk_size(self.datatype_spec(), self.cells());
        }
        r
    }

    pub proof fn lemma_cells_accepted(&self)
        requires
            self.wf(),
        ensures
            all_accepted(self.datatype_spec(), self.cells()),
    {
        match self {
            ChunkGenerator::Numeric(g) => g.lemma_cells_accepted(),
            ChunkGenerator::FixedLength(g) => g.lemma_cells_accepted(),
            ChunkGenerator::VariableLength(g) => g.lemma_cells_accepted(),
        }
    }

    pub fn reset(&mut self)
        requires
            old(self).wf(),
        ensures
            final(self).wf(),
            final(self).datatype_spec() == old(self).datatype_spec(),
            final(self).cells() == Seq::<CellView>::empty(),
    {
        match self {
            ChunkGenerator::Numeric(g) => g.reset(),
            ChunkGenerator::FixedLength(g) => g.reset(),
            ChunkGenerator::VariableLength(g) => g.reset(),
        }
    }
}

} // verus!
