//! LZ4 frame format (LZ4F), independent blocks.
//!
//! Kafka writes LZ4 in the frame format, with magic `0x04 22 4D 18`, and makes
//! these choices: 64 KiB block size, independent blocks, no block checksum, and
//! no content-size in the header. This codec makes the same choices, so its
//! bytes agree with the output of Kafka's `KafkaLZ4BlockOutputStream`.
//!
//! Kafka picks the block compressor by level: the fast compressor at the
//! default level (9), and LZ4 HC at every other level in `1..=17`.
//! [`compress_with_level`] matches that split. `lz4rip` has only the fast
//! compressor, so the HC path builds the same independent-block frame here,
//! with `lzzzz`'s binding to the reference `liblz4` HC compressor for the
//! block bytes. The frame header and end mark are identical either way: they
//! depend only on the frame settings, not on which compressor filled the
//! blocks.

use std::io::{Read, Write};

use lz4rip::frame::{BlockMode, BlockSize, FrameDecoder, FrameEncoder, FrameInfo};

use vstd::prelude::*;
use vstd::slice::slice_subrange;
use vstd::string::StringExecFns;

use crate::compression::error::CompressionError;
use crate::primitives::put_slice;

verus! {

/// Kafka's default lz4 level. Only this level uses the fast compressor; every
/// other level in `1..=17` uses HC.
pub const DEFAULT_LEVEL: i32 = 9;

/// Kafka's independent-block maximum size, the LZ4F default of 64 KiB.
pub const BLOCK_SIZE: usize = 65536;

/// The high bit of a block's 4-byte little-endian size that marks it as
/// stored uncompressed, per the LZ4 frame format.
pub const BLOCK_UNCOMPRESSED_BIT: u32 = 0x8000_0000;

// ---------------------------------------------------------------------------
// The frame settings
// ---------------------------------------------------------------------------

/// The settings of an LZ4 frame that `lz4rip`'s `FrameInfo` carries, with no
/// content size and no dictionary: the block-size code of the frame format
/// (4 for 64 KiB, 5 for 256 KiB, 6 for 1 MiB, 7 for 4 MiB), whether blocks
/// are independent, and whether blocks and the whole content carry checksums.
#[derive(Debug, Clone, Copy, PartialEq, Eq, Structural)]
pub struct FrameSettings {
    pub block_size_code: u8,
    pub independent_blocks: bool,
    pub block_checksums: bool,
    pub content_checksum: bool,
}

/// Kafka's frame: 64 KiB blocks, independent, without block or content
/// checksums.
pub open spec fn kafka_frame() -> FrameSettings {
    FrameSettings {
        block_size_code: 4,
        independent_blocks: true,
        block_checksums: false,
        content_checksum: false,
    }
}

/// The settings name a block size that the frame format defines.
pub open spec fn valid_settings(s: FrameSettings) -> bool {
    4 <= s.block_size_code <= 7
}

/// The FLG byte of the frame descriptor: version `01`, then the flags of the
/// settings.
pub open spec fn flg_byte(s: FrameSettings) -> u8 {
    (0x40 + (if s.independent_blocks {
        0x20int
    } else {
        0
    }) + (if s.block_checksums {
        0x10int
    } else {
        0
    }) + (if s.content_checksum {
        0x04int
    } else {
        0
    })) as u8
}

/// The BD byte of the frame descriptor: the block-size code in bits 6 to 4.
pub open spec fn bd_byte(s: FrameSettings) -> u8 {
    (s.block_size_code * 16) as u8
}

/// The first six bytes of a frame: the magic number `0x184D2204`, little
/// endian, then FLG and BD.
pub open spec fn frame_start(s: FrameSettings) -> Seq<u8> {
    seq![0x04u8, 0x22u8, 0x4Du8, 0x18u8, flg_byte(s), bd_byte(s)]
}

/// The bytes that every frame holds besides its blocks: the 7-byte header
/// (magic, FLG, BD, header checksum), the 4-byte end mark, and the 4-byte
/// content checksum when the settings ask for one.
pub open spec fn frame_overhead(s: FrameSettings) -> nat {
    11 + if s.content_checksum {
        4nat
    } else {
        0
    }
}

/// Kafka's frame settings.
pub fn frame_info() -> (s: FrameSettings)
    ensures
        s == kafka_frame(),
{
    FrameSettings {
        block_size_code: 4,
        independent_blocks: true,
        block_checksums: false,
        content_checksum: false,
    }
}

// ---------------------------------------------------------------------------
// What the outside crates compute
// ---------------------------------------------------------------------------

/// The LZ4 frame that `lz4rip`'s `FrameEncoder` writes for `data` with the
/// frame settings `settings`, or `None` when it reports a failure.
pub uninterp spec fn lz4_frame(data: Seq<u8>, settings: FrameSettings) -> Option<Seq<u8>>;

/// What `lz4rip`'s `FrameDecoder` reads from the frame `data` when it stops
/// after `limit` bytes of output, or `None` when it reports an error first.
pub uninterp spec fn lz4_frame_read(data: Seq<u8>, limit: nat) -> Option<Seq<u8>>;

/// The block that `lzzzz::lz4_hc::compress` writes for `src` at `level` into a
/// buffer of `capacity` bytes, or `None` when it reports a failure.
pub uninterp spec fn lz4_hc_block(src: Seq<u8>, capacity: nat, level: i32) -> Option<Seq<u8>>;

/// `LZ4_compressBound`: the largest block that LZ4 can make of `n` bytes, or
/// zero above `LZ4_MAX_INPUT_SIZE`.
pub open spec fn lz4_bound(n: nat) -> nat {
    if n <= 0x7E00_0000 {
        n + n / 255 + 16
    } else {
        0
    }
}

/// `lz4rip`: `FrameEncoder::with_frame_info` over a `Vec`, with a `FrameInfo`
/// that holds `settings` one for one, then `write_all` of `data` and `finish`.
/// The contract claims that the bytes are the frame `lz4_frame` names, and that
/// the call fails exactly when that name says so. From the crate's source
/// (`FrameInfo::write`, `FrameEncoder::begin_frame` and `end_frame`) it also
/// claims that empty input never fails; that a frame opens with the magic
/// number, FLG and BD of the settings; that its 7-byte header is the same for
/// every input; that it ends with the 4-byte zero end mark when there is no
/// content checksum; and that a frame of empty input holds nothing else. The
/// header checksum byte and the message of a failure are not stated.
#[verifier::external_body]
fn lz4rip_encode_frame(data: &[u8], settings: FrameSettings) -> (r: Result<Vec<u8>, String>)
    requires
        valid_settings(settings),
    ensures
        match lz4_frame(data@, settings) {
            Some(f) => r matches Ok(v) && v@ == f,
            None => r is Err,
        },
        data@.len() == 0 ==> r is Ok,
        r matches Ok(v) ==> v@.len() >= frame_overhead(settings) && v@.take(6) == frame_start(
            settings,
        ),
        r matches Ok(v) ==> (!settings.content_checksum ==> v@.skip(v@.len() - 4) == le32(0)),
        r matches Ok(v) ==> (data@.len() == 0 ==> v@.len() == frame_overhead(settings)),
        r matches Ok(v) ==> forall|e: Seq<u8>|
            #[trigger] lz4_frame(e, settings) matches Some(g) ==> g.take(7) == v@.take(7),
{
    let size = match settings.block_size_code {
        4 => BlockSize::Max64KB,
        5 => BlockSize::Max256KB,
        6 => BlockSize::Max1MB,
        _ => BlockSize::Max4MB,
    };
    let mode = if settings.independent_blocks { BlockMode::Independent } else { BlockMode::Linked };
    let info = FrameInfo::new().block_size(size).block_mode(mode)
        .block_checksums(settings.block_checksums).content_checksum(settings.content_checksum);
    let mut encoder = FrameEncoder::with_frame_info(info, Vec::new());
    let written = encoder.write_all(data).map_err(|e| format!("lz4 write: {e}"));
    written.and_then(|()| encoder.finish().map_err(|e| format!("lz4 finish: {e}")))
}

/// `lz4rip`: `FrameDecoder::new` over `data`, read through `std::io::Take` of
/// `limit` bytes to the end. The contract claims that the bytes are what
/// `lz4_frame_read` names, that the call fails exactly when that name says so,
/// and, from the documentation of `Take`, that it returns at most `limit`
/// bytes. It also claims the round trip that the crate's documentation shows
/// and its frame round-trip fuzzing checks: a frame that the encoder wrote for
/// `d` reads back, without an error, as `d` cut at `limit` bytes. The message
/// of a failure is not stated.
#[verifier::external_body]
fn lz4rip_decode_frame(data: &[u8], limit: u64) -> (r: Result<Vec<u8>, String>)
    ensures
        match lz4_frame_read(data@, limit as nat) {
            Some(v) => r matches Ok(x) && x@ == v,
            None => r is Err,
        },
        r matches Ok(x) ==> x@.len() <= limit,
        r matches Ok(x) ==> forall|d: Seq<u8>, s: FrameSettings|
            #[trigger] lz4_frame(d, s) == Some(data@) ==> x@ == if d.len() <= limit {
                d
            } else {
                d.take(limit as int)
            },
        r is Err ==> forall|d: Seq<u8>, s: FrameSettings| #[trigger] lz4_frame(d, s) != Some(data@),
{
    let mut out = Vec::new();
    match FrameDecoder::new(data).take(limit).read_to_end(&mut out) {
        Ok(_) => Ok(out),
        Err(e) => Err(format!("lz4 decode: {e}")),
    }
}

/// `lzzzz::lz4::max_compressed_size`, which the crate computes as
/// `LZ4_compressBound`.
#[verifier::external_body]
fn lzzzz_max_compressed_size(n: usize) -> (r: usize)
    ensures
        r == lz4_bound(n as nat),
{
    lzzzz::lz4::max_compressed_size(n)
}

/// `lzzzz::lz4_hc::compress` of `src` at `level` into `dst`. The contract
/// claims that `dst` keeps its length, that the call fails exactly when
/// `lz4_hc_block` says so, and that otherwise it returns the length of that
/// block, which it wrote at the front of `dst`. The bytes of `dst` after the
/// block and the message of a failure are not stated.
#[verifier::external_body]
fn lzzzz_hc_compress(src: &[u8], dst: &mut Vec<u8>, level: i32) -> (r: Result<usize, String>)
    ensures
        final(dst)@.len() == old(dst)@.len(),
        match lz4_hc_block(src@, old(dst)@.len(), level) {
            Some(b) => r matches Ok(n) && n == b.len() && n <= old(dst)@.len() && final(dst)@.take(
                n as int,
            ) == b,
            None => r is Err,
        },
{
    match lzzzz::lz4_hc::compress(src, dst.as_mut_slice(), level) {
        Ok(n) => Ok(n),
        Err(e) => Err(format!("lz4 hc compress: {e}")),
    }
}

// ---------------------------------------------------------------------------
// The frame that the HC path builds
// ---------------------------------------------------------------------------

/// The four little-endian bytes of `n`.
pub open spec fn le32(n: nat) -> Seq<u8> {
    seq![(n % 256) as u8, ((n / 256) % 256) as u8, ((n / 65536) % 256) as u8, ((n / 16777216) % 256) as u8]
}

/// The header of Kafka's frame: the first seven bytes of the frame of empty
/// input.
pub open spec fn frame_header_bytes() -> Option<Seq<u8>> {
    match lz4_frame(Seq::empty(), kafka_frame()) {
        Some(f) => Some(f.take(7)),
        None => None,
    }
}

/// One LZ4F block compressed with HC: its 4-byte size, then its bytes. A block
/// that HC does not shrink is stored as it is, with the uncompressed bit set.
pub open spec fn hc_block_bytes(block: Seq<u8>, level: i32) -> Option<Seq<u8>> {
    match lz4_hc_block(block, lz4_bound(block.len()), level) {
        Some(c) => if c.len() < block.len() {
            Some(le32(c.len()) + c)
        } else {
            Some(le32(block.len() + 0x8000_0000) + block)
        },
        None => None,
    }
}

/// The HC blocks of `data` from offset `start` on, one block for each 64 KiB.
pub open spec fn hc_blocks_from(data: Seq<u8>, start: nat, level: i32) -> Option<Seq<u8>>
    decreases data.len() - start,
{
    if start >= data.len() {
        Some(Seq::empty())
    } else {
        let end: int = if start + 65536 <= data.len() {
            start + 65536int
        } else {
            data.len() as int
        };
        match hc_block_bytes(data.subrange(start as int, end), level) {
            Some(b) => match hc_blocks_from(data, end as nat, level) {
                Some(rest) => Some(b + rest),
                None => None,
            },
            None => None,
        }
    }
}

/// The HC frame of `data`: the frame header, the HC blocks, and the end mark.
pub open spec fn hc_frame(data: Seq<u8>, level: i32) -> Option<Seq<u8>> {
    match frame_header_bytes() {
        Some(h) => match hc_blocks_from(data, 0, level) {
            Some(b) => Some(h + b + le32(0)),
            None => None,
        },
        None => None,
    }
}

fn put_le32(out: &mut Vec<u8>, n: u32)
    ensures
        final(out)@ == old(out)@ + le32(n as nat),
{
    out.push((n % 256) as u8);
    out.push(((n / 256) % 256) as u8);
    out.push(((n / 65536) % 256) as u8);
    out.push(((n / 16777216) % 256) as u8);
    assert(out@ =~= old(out)@ + le32(n as nat));
}

fn invalid_data(message: &str) -> (e: CompressionError)
    ensures
        e matches CompressionError::InvalidData(m) && m@ == message@,
{
    let mut m = String::new();
    m.append(message);
    CompressionError::InvalidData(m)
}

/// The frame header, taken from the frame that the fast encoder writes for
/// empty input: that frame is the header and the end mark. The header depends
/// only on the frame settings, so every HC frame reuses it.
pub fn frame_header() -> (h: Vec<u8>)
    ensures
        frame_header_bytes() == Some(h@),
        h@.len() == 7,
        h@.take(6) == frame_start(kafka_frame()),
        lz4_frame(Seq::empty(), kafka_frame()) == Some(h@ + le32(0)),
{
    let empty: [u8; 0] = [];
    assert(empty@ =~= Seq::<u8>::empty());
    let mut out = match lz4rip_encode_frame(empty.as_slice(), frame_info()) {
        Ok(v) => v,
        Err(_) => {
            return Vec::new();
        },
    };
    let ghost whole = out@;
    out.truncate(7);
    assert(whole =~= out@ + le32(0)) by {
        assert(whole.skip(7) == le32(0));
    }
    assert(out@.take(6) =~= whole.take(6));
    assert(whole.take(7) =~= out@);
    out
}

/// Compresses `data` into one LZ4 frame of Kafka's settings with the fast
/// compressor.
pub fn compress(data: &[u8]) -> (res: Result<Vec<u8>, CompressionError>)
    ensures
        match lz4_frame(data@, kafka_frame()) {
            Some(f) => res matches Ok(v) && v@ == f,
            None => res matches Err(CompressionError::InvalidData(_)),
        },
        data@.len() == 0 ==> res is Ok,
        res matches Ok(v) ==> {
            &&& v@.len() >= 11
            &&& v@.take(6) == frame_start(kafka_frame())
            &&& v@.skip(v@.len() - 4) == le32(0)
            &&& (frame_header_bytes() matches Some(h) ==> v@.take(7) == h)
        },
{
    match lz4rip_encode_frame(data, frame_info()) {
        Ok(v) => Ok(v),
        Err(m) => Err(CompressionError::InvalidData(m)),
    }
}

/// Appends one LZ4F block of `block` compressed with HC at `level`: its 4-byte
/// size, then its bytes. A block that HC does not shrink is stored as it is,
/// exactly as the LZ4 frame format allows.
fn write_hc_block(out: &mut Vec<u8>, block: &[u8], level: i32) -> (res: Result<(), CompressionError>)
    requires
        block@.len() <= BLOCK_SIZE,
    ensures
        match hc_block_bytes(block@, level) {
            Some(b) => res is Ok && final(out)@ == old(out)@ + b,
            None => res matches Err(CompressionError::InvalidData(_)) && final(out)@ == old(out)@,
        },
{
    let cap = lzzzz_max_compressed_size(block.len());
    let mut buf = vec![0u8; cap];
    let comp_len = match lzzzz_hc_compress(block, &mut buf, level) {
        Ok(n) => n,
        Err(m) => return Err(CompressionError::InvalidData(m)),
    };
    if comp_len < block.len() {
        put_le32(out, comp_len as u32);
        put_slice(out, slice_subrange(buf.as_slice(), 0, comp_len));
        assert(buf@.subrange(0, comp_len as int) =~= buf@.take(comp_len as int));
    } else {
        put_le32(out, block.len() as u32 + BLOCK_UNCOMPRESSED_BIT);
        put_slice(out, block);
    }
    Ok(())
}

/// Compresses `data` at `level`, which the caller has checked against Kafka's
/// `1..=17` range. Level 9, Kafka's default, gives the same bytes as
/// [`compress`]. Every other level uses LZ4 HC, in the same
/// independent-64-KiB-block frame.
pub fn compress_with_level(data: &[u8], level: i32) -> (res: Result<Vec<u8>, CompressionError>)
    ensures
        level == DEFAULT_LEVEL ==> match lz4_frame(data@, kafka_frame()) {
            Some(f) => res matches Ok(v) && v@ == f,
            None => res matches Err(CompressionError::InvalidData(_)),
        },
        level != DEFAULT_LEVEL ==> match hc_frame(data@, level) {
            Some(f) => res matches Ok(v) && v@ == f,
            None => res matches Err(CompressionError::InvalidData(_)),
        },
        data@.len() == 0 ==> (res matches Ok(v) && lz4_frame(data@, kafka_frame()) == Some(v@)),
        res matches Ok(v) ==> (frame_header_bytes() matches Some(h) ==> v@.take(7) == h),
{
    if level == DEFAULT_LEVEL {
        return compress(data);
    }
    let mut out = frame_header();
    let ghost header = out@;
    let ghost mut acc = Seq::<u8>::empty();
    let mut start: usize = 0;
    assert(out@ =~= header + acc);
    while start < data.len()
        invariant
            level != DEFAULT_LEVEL,
            start <= data@.len(),
            frame_header_bytes() == Some(header),
            out@ == header + acc,
            hc_blocks_from(data@, 0, level) == match hc_blocks_from(data@, start as nat, level) {
                Some(rest) => Some(acc + rest),
                None => None::<Seq<u8>>,
            },
        decreases data@.len() - start,
    {
        let end = if data.len() - start >= BLOCK_SIZE {
            start + BLOCK_SIZE
        } else {
            data.len()
        };
        let block = slice_subrange(data, start, end);
        let ghost next = end as nat;
        match write_hc_block(&mut out, block, level) {
            Ok(()) => {},
            Err(e) => {
                return Err(e);
            },
        }
        proof {
            let b = hc_block_bytes(block@, level)->Some_0;
            if let Some(rn) = hc_blocks_from(data@, next, level) {
                assert(acc + (b + rn) =~= (acc + b) + rn);
            }
            acc = acc + b;
        }
        assert(out@ =~= header + acc);
        start = end;
    }
    assert(acc + Seq::<u8>::empty() =~= acc);
    put_le32(&mut out, 0);
    proof {
        if data@.len() == 0 {
            assert(data@ =~= Seq::<u8>::empty());
            assert(acc =~= Seq::<u8>::empty());
            assert(out@ =~= header + le32(0));
        }
    }
    Ok(out)
}

/// Decompresses the LZ4 frame `data`, whose content may hold at most
/// `max_output` bytes.
///
/// The read stops after `max_output + 1` bytes, so an oversized content is
/// detected without the whole of it in memory. Content of exactly
/// `max_output` bytes is allowed.
pub fn decompress(data: &[u8], max_output: usize) -> (res: Result<Vec<u8>, CompressionError>)
    ensures
        data@.len() == 0 ==> (res matches Err(CompressionError::InvalidData(m)) && m@
            == "empty lz4 payload"@),
        data@.len() > 0 ==> match lz4_frame_read(
            data@,
            if max_output as nat + 1 > u64::MAX {
                u64::MAX as nat
            } else {
                max_output as nat + 1
            },
        ) {
            Some(v) => if v.len() > max_output {
                res == Err::<Vec<u8>, CompressionError>(
                    CompressionError::TooLarge { limit: max_output },
                )
            } else {
                res matches Ok(x) && x@ == v
            },
            None => res matches Err(CompressionError::InvalidData(_)),
        },
        forall|d: Seq<u8>, s: FrameSettings|
            #[trigger] lz4_frame(d, s) == Some(data@) && data@.len() > 0 ==> if d.len()
                <= max_output {
                res matches Ok(x) && x@ == d
            } else {
                (max_output as nat) < u64::MAX ==> res == Err::<Vec<u8>, CompressionError>(
                    CompressionError::TooLarge { limit: max_output },
                )
            },
{
    if data.len() == 0 {
        return Err(invalid_data("empty lz4 payload"));
    }
    let limit: u64 = if max_output as u64 == u64::MAX {
        u64::MAX
    } else {
        max_output as u64 + 1
    };
    let out = match lz4rip_decode_frame(data, limit) {
        Ok(v) => v,
        Err(m) => return Err(CompressionError::InvalidData(m)),
    };
    if out.len() > max_output {
        return Err(CompressionError::TooLarge { limit: max_output });
    }
    Ok(out)
}

} // verus!
