//! A columnar storage engine: rows of typed, possibly-null values are batched
//! into stripes, encoded column by column and appended to a backend.
pub mod chunk_generator;
pub mod column_writer;
pub mod compression;
pub mod encoding;
pub mod error;
pub mod file_format;
pub mod nulls_bitmap;
pub mod proto_structs;
pub mod schema;
pub mod storage;
pub mod storage_backend;
pub mod storage_inserter;
pub mod storage_reader;
