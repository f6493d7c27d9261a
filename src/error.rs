//! The errors that building a storage and inserting into it can report.
use vstd::prelude::*;

verus! {

#[verifier::external_type_specification]
#[verifier::external_body]
pub struct ExPathBuf(std::path::PathBuf);

#[verifier::external_type_specification]
#[verifier::external_body]
pub struct ExIoError(std::io::Error);

#[verifier::external_type_specification]
#[verifier::external_body]
pub struct ExEncodingError(bincode::rustc_serialize::EncodingError);

#[derive(Debug)]
pub enum StorageError {
    /// The target file of a new storage exists already.
    FileAlreadyExists,
    /// The target path is a directory, is empty, or has no existing parent.
    InvalidPath(std::path::PathBuf),
    /// A schema-level problem, such as a column name given twice.
    InvalidFormat(String),
    /// The backend failed.
    IoError(std::io::Error),
    /// A row had `.0` values where the storage has `.1` columns.
    InvalidNumberOfColumns(usize, usize),
    /// A value's variant does not match its column's datatype.
    TypeError,
    /// A fixed-length value had `.0` bytes where its column holds `.1`.
    InvalidLength(usize, usize),
}

pub type StorageResult<T> = Result<T, StorageError>;

} // verus!
