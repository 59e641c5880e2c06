//! The LZ4 frame codec with independent 64 KiB blocks.

use krabka::compression::lz4::{
    compress, compress_with_level, decompress, frame_header, frame_info, FrameSettings, BLOCK_SIZE,
};
use krabka::compression::CompressionError;

const HELLO: &[u8] = b"hello kafka, this is a moderately repetitive payload to compress";
const BIG_CAP: usize = 256 * 1024 * 1024;

#[test]
fn roundtrip() {
    let z = compress(HELLO).unwrap();
    let back = decompress(&z, BIG_CAP).unwrap();
    assert!(back.as_slice() == HELLO);
}

#[test]
fn decompress_empty_rejected() {
    assert!(matches!(decompress(b"", BIG_CAP), Err(CompressionError::InvalidData(_))));
}

#[test]
fn decompress_garbage_rejected() {
    assert!(matches!(
        decompress(b"this is not lz4", BIG_CAP),
        Err(CompressionError::InvalidData(_))
    ));
}

#[test]
fn larger_payload_roundtrips() {
    let big = vec![0xABu8; 128 * 1024];
    let z = compress(&big).unwrap();
    let back = decompress(&z, BIG_CAP).unwrap();
    assert!(back.as_slice() == big.as_slice());
}

#[test]
fn decompression_bomb_rejected() {
    let bomb = vec![0u8; 64 * 1024 * 1024];
    let z = compress(&bomb).unwrap();
    assert!(matches!(decompress(&z, 1024), Err(CompressionError::TooLarge { limit: 1024 })));
    let back = decompress(&z, BIG_CAP).unwrap();
    assert!(back.as_slice() == bomb.as_slice());
}

#[test]
fn decompress_at_exact_cap_succeeds() {
    let z = compress(HELLO).unwrap();
    let back = decompress(&z, HELLO.len()).unwrap();
    assert!(back.as_slice() == HELLO);
    assert!(matches!(
        decompress(&z, HELLO.len() - 1),
        Err(CompressionError::TooLarge { limit }) if limit == HELLO.len() - 1
    ));
}

#[test]
fn frame_uses_64kib_independent_blocks() {
    let big = vec![0xCDu8; 128 * 1024];
    let z = compress(&big).unwrap();
    let flg = z[4];
    let bd = z[5];
    assert!(&z[0..4] == &[0x04, 0x22, 0x4D, 0x18][..]);
    assert!(bd >> 4 & 0x7 == 4);
    assert!(flg >> 5 & 1 == 1);
    assert!(flg >> 4 & 1 == 0);
    assert!(flg >> 2 & 1 == 0);
}

/// A payload compressible enough that HC's larger search window finds
/// matches the fast compressor misses, over more than one 64 KiB block.
fn compressible_payload() -> Vec<u8> {
    let unit = b"the quick brown fox jumps over the lazy dog, again and again; ";
    unit.iter().copied().cycle().take(3 * BLOCK_SIZE).collect()
}

#[test]
fn compress_with_level_uses_hc_except_at_the_default() {
    let payload = compressible_payload();
    let fast = compress(&payload).unwrap();
    for (level, expect_fast_bytes) in [(9, true), (1, false), (17, false)] {
        let out = compress_with_level(&payload, level).unwrap();
        assert!((out.as_slice() == fast.as_slice()) == expect_fast_bytes, "level {level}");
        if !expect_fast_bytes {
            assert!(out.len() < fast.len(), "level {level}");
        }
        let back = decompress(&out, BIG_CAP).unwrap();
        assert!(back.as_slice() == payload.as_slice(), "level {level}");
    }
}

#[test]
fn compress_with_level_hc_frame_uses_the_same_header_as_the_fast_frame() {
    let payload = compressible_payload();
    let fast = compress(&payload).unwrap();
    let hc = compress_with_level(&payload, 1).unwrap();
    let header = frame_header();
    assert!(fast[..header.len()] == hc[..header.len()]);
}

#[test]
fn an_empty_payload_is_a_header_and_an_end_mark() {
    let header = frame_header();
    let hc = compress_with_level(&[], 3).unwrap();
    let mut want = header.clone();
    want.extend_from_slice(&[0, 0, 0, 0]);
    assert_eq!(hc, want);
    assert_eq!(compress(&[]).unwrap(), want);
    assert_eq!(decompress(&hc, 0).unwrap(), Vec::<u8>::new());
}

#[test]
fn an_incompressible_block_is_stored_with_the_uncompressed_bit() {
    // Bytes with no repeats: HC cannot shrink them, so the block is stored.
    let data: Vec<u8> = (0..=255u8).collect();
    let out = compress_with_level(&data, 1).unwrap();
    let header = frame_header();
    let size = u32::from_le_bytes([
        out[header.len()],
        out[header.len() + 1],
        out[header.len() + 2],
        out[header.len() + 3],
    ]);
    assert_eq!(size, 256 | 0x8000_0000);
    assert_eq!(&out[header.len() + 4..header.len() + 4 + 256], data.as_slice());
    assert_eq!(decompress(&out, BIG_CAP).unwrap(), data);
}

#[test]
fn kafka_frame_settings_and_their_header_bytes() {
    assert_eq!(
        frame_info(),
        FrameSettings {
            block_size_code: 4,
            independent_blocks: true,
            block_checksums: false,
            content_checksum: false,
        }
    );
    let header = frame_header();
    assert_eq!(header.len(), 7);
    assert_eq!(&header[..6], &[0x04, 0x22, 0x4D, 0x18, 0x60, 0x40]);
    let empty = compress(&[]).unwrap();
    assert_eq!(empty.len(), 11);
    assert_eq!(&empty[7..], &[0, 0, 0, 0]);
}
