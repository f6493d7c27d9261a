//! Byte-buffer compressors applied to encoded chunks.
use vstd::prelude::*;

verus! {

/// The compression that a chunk header records.
#[derive(Debug, Clone, Copy, PartialEq, Eq, Structural)]
pub enum Compression {
    Uncompressed,
    Snappy,
}

/// A lossless byte-in, byte-out transform.
#[derive(Debug, Clone, Copy, PartialEq, Eq, Structural)]
pub enum Compressor {
    /// The identity.
    Raw,
    /// The Snappy block codec, which the embedding application links and runs.
    Snappy,
}

/// A copy of `buffer`.
pub fn copy_bytes(buffer: &[u8]) -> (r: Vec<u8>)
    ensures
        r@ == buffer@,
{
    let mut out: Vec<u8> = Vec::new();
    out.extend_from_slice(buffer);
    assert(out@ =~= buffer@);
    out
}

impl Compressor {
    /// The header tag of what this compressor produces.
    pub fn compression(&self) -> (r: Compression)
        ensures
            *self == Compressor::Raw ==> r == Compression::Uncompressed,
            *self == Compressor::Snappy ==> r == Compression::Snappy,
    {
        match self {
            Compressor::Raw => Compression::Uncompressed,
            Compressor::Snappy => Compression::Snappy,
        }
    }

    /// `Raw` returns a copy of `buffer`. The Snappy codec is not linked into this
    /// library, so `Snappy` returns `None`: the caller runs the codec itself.
    pub fn compress(&self, buffer: &[u8]) -> (r: Option<Vec<u8>>)
        ensures
            *self == Compressor::Raw ==> (r matches Some(b) && b@ == buffer@),
            *self == Compressor::Snappy ==> r is None,
    {
        match self {
            Compressor::Raw => Some(copy_bytes(buffer)),
            Compressor::Snappy => None,
        }
    }
}

} // verus!
