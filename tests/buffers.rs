use snel::column_writer::{EncodedCompressedBuffer, StorageChunk};
use snel::compression::{Compression, Compressor};
use snel::encoding::{EncodeError, Encoder};
use snel::proto_structs::{ColumnChunkHeader, StripeHeader};
use snel::encoding::Encoding;

#[test]
fn test_storage_chunk_size() {
    let chunk = StorageChunk {
        compressed_nulls_bitmap:
            EncodedCompressedBuffer::from(&Encoder::Flat, &Compressor::Raw, &vec![1u8,2,3]),
        compressed_values:
            EncodedCompressedBuffer::from(&Encoder::Flat, &Compressor::Raw, &vec![4u8,5])
    };

    assert_eq!(chunk.get_total_compressed_size(), 5);

    let chunk = StorageChunk {
        compressed_nulls_bitmap:
            EncodedCompressedBuffer::from(&Encoder::Flat, &Compressor::Raw, &vec![1i32,2,3]),
        compressed_values:
            EncodedCompressedBuffer::from(&Encoder::Flat, &Compressor::Raw, &vec![4,5])
    };

    assert_eq!(chunk.get_total_compressed_size(), 5*4);
}

#[test]
fn flat_encoding_is_little_endian() {
    let bytes = Encoder::Flat.encode(&[300i32, -1]).unwrap();
    assert_eq!(bytes, vec![0x2c, 0x01, 0, 0, 0xff, 0xff, 0xff, 0xff]);
    let bytes = Encoder::Flat.encode(&[i64::MIN]).unwrap();
    assert_eq!(bytes, vec![0, 0, 0, 0, 0, 0, 0, 0x80]);
    let bytes = Encoder::Flat.encode(&[-2i8, 7]).unwrap();
    assert_eq!(bytes, vec![0xfe, 7]);
}

#[test]
fn rle_is_not_implemented() {
    assert_eq!(Encoder::RLE.encode(&[1u8]).unwrap_err(), EncodeError::NotImplemented);
}

#[test]
fn raw_compression_is_identity() {
    let data = vec![9u8, 0, 255, 3];
    assert_eq!(Compressor::Raw.compress(&data), Some(data.clone()));
    assert_eq!(Compressor::Raw.compression(), Compression::Uncompressed);
    assert_eq!(Compressor::Snappy.compress(&data), None);
}

#[test]
fn encoded_buffer_counts_values_not_bytes() {
    let b = EncodedCompressedBuffer::from(&Encoder::Flat, &Compressor::Raw, &[1i64, 2, 3]);
    assert_eq!(b.uncompressed_size, 3);
    assert_eq!(b.get_compressed_size(), 24);
}

#[test]
fn stripe_header_serializes_big_endian_fields() {
    let header = StripeHeader {
        num_rows: 2,
        column_chunks: vec![ColumnChunkHeader {
            relative_offset: 0,
            compressed_size: 8,
            uncompressed_size: 8,
            encoding: Encoding::Raw,
            compression: Compression::Uncompressed,
        }],
        stripe_size: 8,
    };
    let bytes = header.encode();
    let mut expected: Vec<u8> = vec![0, 0, 0, 2];
    expected.extend_from_slice(&[0, 0, 0, 0, 0, 0, 0, 8]);
    expected.extend_from_slice(&[0, 0, 0, 0, 0, 0, 0, 1]);
    expected.extend_from_slice(&[0, 0, 0, 0, 0, 0, 0, 0]);
    expected.extend_from_slice(&[0, 0, 0, 8]);
    expected.extend_from_slice(&[0, 0, 0, 8]);
    expected.extend_from_slice(&[0, 0, 0, 0]);
    expected.extend_from_slice(&[0, 0, 0, 0]);
    assert_eq!(bytes, expected);
}
