//! Encoded and compressed buffers, and the chunks made of them.
use vstd::prelude::*;
use crate::compression::Compressor;
use crate::encoding::{flat_seq, Encoder, FlatValue};

verus! {

/// A buffer of values, encoded and then compressed.
pub struct EncodedCompressedBuffer {
    pub encoder: Encoder,
    pub compressor: Compressor,
    /// Number of values that were encoded.
    pub uncompressed_size: usize,
    pub compressed_data: Vec<u8>,
}

impl EncodedCompressedBuffer {
    /// Encodes `data` with `encoder` and compresses the result with `compressor`.
    /// Run-length encoding is not implemented, and the Snappy codec is not linked
    /// into the library, so the encoder is `Flat` and the compressor `Raw`.
    pub fn from<T: FlatValue>(encoder: &Encoder, compressor: &Compressor, data: &[T]) -> (r:
        EncodedCompressedBuffer)
        requires
            *encoder == Encoder::Flat,
            *compressor == Compressor::Raw,
        ensures
            r.encoder == *encoder,
            r.compressor == *compressor,
            r.uncompressed_size == data@.len(),
            r.compressed_data@ == flat_seq(data@),
    {
        let encoded = match encoder.encode(data) {
            Ok(bytes) => bytes,
            Err(_) => Vec::new(),
        };
        let compressed_data = match compressor.compress(encoded.as_slice()) {
            Some(bytes) => bytes,
            None => Vec::new(),
        };
        EncodedCompressedBuffer {
            encoder: *encoder,
            compressor: *compressor,
            uncompressed_size: data.len(),
            compressed_data,
        }
    }

    pub fn get_compressed_size(&self) -> (r: usize)
        ensures
            r == self.compressed_data@.len(),
    {
        self.compressed_data.len()
    }
}

/// A column chunk of the block format: its null bitmap and its values.
pub struct StorageChunk {
    pub compressed_nulls_bitmap: EncodedCompressedBuffer,
    pub compressed_values: EncodedCompressedBuffer,
}

impl StorageChunk {
    /// Bytes taken by the bitmap and the values together.
    pub fn get_total_compressed_size(&self) -> (r: usize)
        requires
            self.compressed_nulls_bitmap.compressed_data@.len()
                + self.compressed_values.compressed_data@.len() <= usize::MAX,
        ensures
            r == self.compressed_nulls_bitmap.compressed_data@.len()
                + self.compressed_values.compressed_data@.len(),
    {
        self.compressed_nulls_bitmap.get_compressed_size() + self.compressed_values.get_compressed_size()
    }
}

} // verus!
