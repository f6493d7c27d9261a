//! Metadata records of the block-based table format.
use vstd::prelude::*;
use crate::compression::Compressor;
use crate::encoding::Encoder;

verus! {

/// How one chunk's null bitmap and values were stored, and their sizes.
pub struct ChunkHeader {
    pub nulls_encoder: Encoder,
    pub nulls_compressor: Compressor,
    pub nulls_size: usize,
    pub values_encoder: Encoder,
    pub values_compressor: Compressor,
    pub values_size: usize,
}

/// A table's row count and its blocks.
pub struct TableMetadata {
    pub num_rows: usize,
    pub blocks: Vec<BlockMetadata>,
}

impl TableMetadata {
    pub fn new() -> (r: TableMetadata)
        ensures
            r.num_rows == 0,
            r.blocks@.len() == 0,
    {
        TableMetadata { num_rows: 0, blocks: Vec::new() }
    }
}

/// A block's row count and where its chunks are.
pub struct BlockMetadata {
    pub num_rows_in_block: usize,
    pub chunks: Vec<ChunkMetadata>,
}

/// Where a chunk is: an optional separate file, and an offset.
pub struct ChunkMetadata {
    pub file: Option<String>,
    pub offset_in_file: usize,
}

} // verus!
