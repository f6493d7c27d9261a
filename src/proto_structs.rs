//! The headers that precede each stripe in the backend, and their serialization.
use vstd::prelude::*;
use crate::compression::Compression;
use crate::encoding::Encoding;
use bincode::rustc_serialize::EncodingError;

verus! {

/// One column chunk of a stripe, as its header describes it.
#[derive(Debug, Clone, Copy, PartialEq, Eq, Structural)]
pub struct ColumnChunkHeader {
    /// Offset of the chunk from the end of the stripe header.
    pub relative_offset: u64,
    pub compressed_size: u32,
    pub uncompressed_size: u32,
    pub encoding: Encoding,
    pub compression: Compression,
}

/// The header written in front of a stripe's chunks.
pub struct StripeHeader {
    pub num_rows: u32,
    pub column_chunks: Vec<ColumnChunkHeader>,
    /// Total size of the chunks that follow the header.
    pub stripe_size: u64,
}

/// An entry of the stripe directory: where a stripe's header starts, and its rows.
#[derive(Debug, Clone, Copy, PartialEq, Eq, Structural)]
pub struct Stripe {
    pub absolute_offset: usize,
    pub num_rows: usize,
}

/// A chunk header as the serializer sees it: the three sizes and the two tags.
pub type WireChunk = (u64, u32, u32, u32, u32);

pub open spec fn encoding_tag(e: Encoding) -> u32 {
    match e {
        Encoding::Raw => 0,
        Encoding::Delta => 1,
        Encoding::RLE => 2,
    }
}

pub open spec fn compression_tag(c: Compression) -> u32 {
    match c {
        Compression::Uncompressed => 0,
        Compression::Snappy => 1,
    }
}

pub open spec fn wire_chunk(c: ColumnChunkHeader) -> WireChunk {
    (
        c.relative_offset,
        c.compressed_size,
        c.uncompressed_size,
        encoding_tag(c.encoding),
        compression_tag(c.compression),
    )
}

/// The `width` low-order bytes of `v`, most significant first.
pub open spec fn be_bytes(v: nat, width: nat) -> Seq<u8>
    decreases width,
{
    if width == 0 {
        Seq::empty()
    } else {
        be_bytes(v / 256, (width - 1) as nat).push((v % 256) as u8)
    }
}

pub proof fn lemma_be_bytes_len(v: nat, width: nat)
    ensures
        be_bytes(v, width).len() == width,
    decreases width,
{
    if width > 0 {
        lemma_be_bytes_len(v / 256, (width - 1) as nat);
    }
}

/// The fields of a chunk header, each big-endian at its own width.
pub open spec fn wire_chunk_bytes(c: WireChunk) -> Seq<u8> {
    be_bytes(c.0 as nat, 8) + be_bytes(c.1 as nat, 4) + be_bytes(c.2 as nat, 4) + be_bytes(
        c.3 as nat,
        4,
    ) + be_bytes(c.4 as nat, 4)
}

pub open spec fn wire_chunks_bytes(chunks: Seq<WireChunk>) -> Seq<u8>
    decreases chunks.len(),
{
    if chunks.len() == 0 {
        Seq::empty()
    } else {
        wire_chunks_bytes(chunks.drop_last()) + wire_chunk_bytes(chunks.last())
    }
}

/// A serialized stripe header: the row count (4 bytes), the stripe size (8 bytes),
/// the number of chunk headers (8 bytes), then each chunk header; all big-endian.
pub open spec fn header_image(num_rows: u32, stripe_size: u64, chunks: Seq<WireChunk>) -> Seq<u8> {
    be_bytes(num_rows as nat, 4) + be_bytes(stripe_size as nat, 8) + be_bytes(chunks.len(), 8)
        + wire_chunks_bytes(chunks)
}

/// Relies on bincode::rustc_serialize::encode with an unbounded size: it writes
/// into a new vector, which cannot fail, each integer big-endian at its width, a
/// tuple field by field, and a vector as its length (8 bytes) then its elements.
#[verifier::external_body]
fn bincode_encode(value: &(u32, u64, Vec<WireChunk>)) -> (r: Result<Vec<u8>, EncodingError>)
    ensures
        r is Ok,
        r matches Ok(b) ==> b@ == header_image(value.0, value.1, value.2@),
{
    bincode::rustc_serialize::encode(value, bincode::SizeLimit::Infinite)
}

impl Encoding {
    pub fn tag(&self) -> (r: u32)
        ensures
            r == encoding_tag(*self),
    {
        match self {
            Encoding::Raw => 0,
            Encoding::Delta => 1,
            Encoding::RLE => 2,
        }
    }
}

impl Compression {
    pub fn tag(&self) -> (r: u32)
        ensures
            r == compression_tag(*self),
    {
        match self {
            Compression::Uncompressed => 0,
            Compression::Snappy => 1,
        }
    }
}

impl StripeHeader {
    /// The chunk headers as the serializer sees them.
    pub open spec fn wire_chunks(&self) -> Seq<WireChunk> {
        self.column_chunks@.map_values(|c: ColumnChunkHeader| wire_chunk(c))
    }

    /// The serialized header.
    pub fn encode(&self) -> (r: Vec<u8>)
        ensures
            r@ == header_image(self.num_rows, self.stripe_size, self.wire_chunks()),
    {
        let mut chunks: Vec<WireChunk> = Vec::new();
        let mut i: usize = 0;
        while i < self.column_chunks.len()
            invariant
                i <= self.column_chunks@.len(),
                chunks@ == self.column_chunks@.subrange(0, i as int).map_values(
                    |c: ColumnChunkHeader| wire_chunk(c),
                ),
            decreases self.column_chunks@.len() - i,
        {
            let c = self.column_chunks[i];
            chunks.push(
                (
                    c.relative_offset,
                    c.compressed_size,
                    c.uncompressed_size,
                    c.encoding.tag(),
                    c.compression.tag(),
                ),
            );
            assert(chunks@ =~= self.column_chunks@.subrange(0, i + 1).map_values(
                |c: ColumnChunkHeader| wire_chunk(c),
            ));
            i = i + 1;
        }
        assert(self.column_chunks@.subrange(0, i as int) =~= self.column_chunks@);
        let value = (self.num_rows, self.stripe_size, chunks);
        match bincode_encode(&value) {
            Ok(bytes) => bytes,
            Err(_) => {
                proof {
                    assert(false);
                }
                Vec::new()
            },
        }
    }
}

} // verus!
