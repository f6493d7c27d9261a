//! Column datatypes, columns and the values that fill them.
use vstd::prelude::*;

verus! {

/// Basic types supported by the storage.
#[derive(Debug, Clone, Copy, PartialEq, Eq, Structural)]
pub enum ColumnDatatype {
    Byte,
    Int32,
    Int64,
    Float,
    FixedLength(i32),
    VariableLength,
}

/// Facts derived from a datatype.
#[derive(Debug, Clone, Copy, PartialEq, Eq, Structural)]
pub struct DatatypeInfo {
    pub is_numeric: bool,
    pub is_fixed_size: bool,
    pub value_size: Option<usize>,
}

/// Bytes that one value of a numeric datatype takes.
pub open spec fn numeric_width(dt: ColumnDatatype) -> nat {
    match dt {
        ColumnDatatype::Byte => 1,
        ColumnDatatype::Int32 => 4,
        ColumnDatatype::Int64 => 8,
        ColumnDatatype::Float => 4,
        _ => 0,
    }
}

pub open spec fn is_numeric(dt: ColumnDatatype) -> bool {
    dt is Byte || dt is Int32 || dt is Int64 || dt is Float
}

pub open spec fn info_of(dt: ColumnDatatype) -> DatatypeInfo {
    match dt {
        ColumnDatatype::FixedLength(s) => DatatypeInfo {
            is_numeric: false,
            is_fixed_size: true,
            value_size: Some(s as usize),
        },
        ColumnDatatype::VariableLength => DatatypeInfo {
            is_numeric: false,
            is_fixed_size: false,
            value_size: None,
        },
        _ => DatatypeInfo {
            is_numeric: true,
            is_fixed_size: true,
            value_size: Some(numeric_width(dt) as usize),
        },
    }
}

impl DatatypeInfo {
    pub fn new(datatype: &ColumnDatatype) -> (r: DatatypeInfo)
        ensures
            r == info_of(*datatype),
    {
        match *datatype {
            ColumnDatatype::Byte => DatatypeInfo {
                is_numeric: true,
                is_fixed_size: true,
                value_size: Some(1),
            },
            ColumnDatatype::Int32 => DatatypeInfo {
                is_numeric: true,
                is_fixed_size: true,
                value_size: Some(4),
            },
            ColumnDatatype::Int64 => DatatypeInfo {
                is_numeric: true,
                is_fixed_size: true,
                value_size: Some(8),
            },
            ColumnDatatype::Float => DatatypeInfo {
                is_numeric: true,
                is_fixed_size: true,
                value_size: Some(4),
            },
            ColumnDatatype::FixedLength(s) => DatatypeInfo {
                is_numeric: false,
                is_fixed_size: true,
                value_size: Some(s as usize),
            },
            ColumnDatatype::VariableLength => DatatypeInfo {
                is_numeric: false,
                is_fixed_size: false,
                value_size: None,
            },
        }
    }
}

/// A column of a storage: its name, its datatype and its position in the schema.
pub struct Column {
    pub name: String,
    pub datatype: ColumnDatatype,
    pub datatype_info: DatatypeInfo,
    pub num_column: usize,
}

impl Column {
    /// A column description, to be placed in a schema.
    pub fn build(name: &str, datatype: ColumnDatatype) -> (r: ColumnBuilder)
        ensures
            r.name@ == name@,
            r.datatype == datatype,
    {
        ColumnBuilder { name: name.to_owned(), datatype }
    }

    pub fn datatype(&self) -> (r: &ColumnDatatype)
        ensures
            *r == self.datatype,
    {
        &self.datatype
    }

    pub fn name(&self) -> (r: &str)
        ensures
            r@ == self.name@,
    {
        self.name.as_str()
    }

    /// The position of this column in its storage's schema.
    pub fn num_column_in_storage(&self) -> (r: usize)
        ensures
            r == self.num_column,
    {
        self.num_column
    }
}

/// A column's name and datatype, before it has a position.
pub struct ColumnBuilder {
    pub name: String,
    pub datatype: ColumnDatatype,
}

/// One cell of a row. A `Float` holds the IEEE-754 bits of a 32-bit float.
#[derive(Debug, Clone)]
pub enum ColumnValue {
    Null,
    Byte(i8),
    Int32(i32),
    Int64(i64),
    Float(u32),
    FixedLength(Vec<u8>),
    VariableLength(Vec<u8>),
}

/// What a `ColumnValue` holds, with byte vectors seen as sequences.
pub enum CellView {
    Null,
    Byte(i8),
    Int32(i32),
    Int64(i64),
    Float(u32),
    FixedLength(Seq<u8>),
    VariableLength(Seq<u8>),
}

impl View for ColumnValue {
    type V = CellView;

    open spec fn view(&self) -> CellView {
        match self {
            ColumnValue::Null => CellView::Null,
            ColumnValue::Byte(v) => CellView::Byte(*v),
            ColumnValue::Int32(v) => CellView::Int32(*v),
            ColumnValue::Int64(v) => CellView::Int64(*v),
            ColumnValue::Float(v) => CellView::Float(*v),
            ColumnValue::FixedLength(v) => CellView::FixedLength(v@),
            ColumnValue::VariableLength(v) => CellView::VariableLength(v@),
        }
    }
}

/// Whether a column of datatype `dt` takes the value `c`.
pub open spec fn cell_accepted(dt: ColumnDatatype, c: CellView) -> bool {
    match (dt, c) {
        (_, CellView::Null) => true,
        (ColumnDatatype::Byte, CellView::Byte(_)) => true,
        (ColumnDatatype::Int32, CellView::Int32(_)) => true,
        (ColumnDatatype::Int64, CellView::Int64(_)) => true,
        (ColumnDatatype::Float, CellView::Float(_)) => true,
        (ColumnDatatype::FixedLength(w), CellView::FixedLength(v)) => v.len() == w as usize,
        (ColumnDatatype::VariableLength, CellView::VariableLength(_)) => true,
        _ => false,
    }
}

/// Whether a fixed-length value has the wrong width for a fixed-length column.
pub open spec fn cell_wrong_length(dt: ColumnDatatype, c: CellView) -> bool {
    match (dt, c) {
        (ColumnDatatype::FixedLength(w), CellView::FixedLength(v)) => v.len() != w as usize,
        _ => false,
    }
}

/// Whether `e` is the error that validating `c` against `dt` reports:
/// `InvalidLength(got, expected)` for a fixed-length value of the wrong width,
/// `TypeError` for any other rejected value.
pub open spec fn cell_error(dt: ColumnDatatype, c: CellView, e: crate::error::StorageError) -> bool {
    if cell_wrong_length(dt, c) {
        e matches crate::error::StorageError::InvalidLength(got, expected)
            && got as int == c->FixedLength_0.len()
            && expected == dt->FixedLength_0 as usize
    } else {
        e is TypeError
    }
}

} // verus!
