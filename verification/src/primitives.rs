//! Readers and writers for the wire primitives, each proved against the model
//! in [`crate::wire`].

use vstd::prelude::*;
use vstd::slice::{slice_subrange, slice_to_vec};
use vstd::string::StringSliceAdditionalSpecFns;
use vstd::utf8::*;

use crate::error::ProtocolError;
use crate::wire::{
    be_bytes, be_value, compact_str, encode_field, encode_strs, lemma_encode_strs_split,
    lemma_encode_strs_take, lemma_pow256_values, lemma_uvarint_roundtrip, parse_compact_bytes,
    parse_compact_str, parse_field, parse_strs, parse_uvarint, parse_uvarint_within, pow128,
    pow256, str_fits, strs_fit, uvarint, FieldKind, FieldValue,
};

verus! {

// ---------------------------------------------------------------------------
// Byte appends
// ---------------------------------------------------------------------------

/// Appends `src` to `buf`.
pub fn put_slice(buf: &mut Vec<u8>, src: &[u8])
    ensures
        final(buf)@ == old(buf)@ + src@,
{
    let ghost start = buf@;
    buf.extend_from_slice(src);
    assert(buf@ =~= start + src@);
}

// ---------------------------------------------------------------------------
// Unsigned varints
// ---------------------------------------------------------------------------

/// Writes `v` as the shortest unsigned varint.
pub fn put_uvarint(buf: &mut Vec<u8>, v: u32)
    ensures
        final(buf)@ == old(buf)@ + uvarint(v as nat),
{
    let ghost start = buf@;
    let mut x = v;
    while x >= 128
        invariant
            buf@ + uvarint(x as nat) == start + uvarint(v as nat),
        decreases x,
    {
        let b = ((x % 128) + 128) as u8;
        let ghost before = buf@;
        buf.push(b);
        assert(uvarint(x as nat) =~= seq![b] + uvarint((x / 128) as nat));
        assert(before + uvarint(x as nat) =~= buf@ + uvarint((x / 128) as nat));
        x = x / 128;
    }
    buf.push(x as u8);
    assert(buf@ =~= start + uvarint(v as nat));
}

/// The byte count of the shortest unsigned varint of `v`.
pub fn uvarint_len(v: u32) -> (n: usize)
    ensures
        n == uvarint(v as nat).len(),
        1 <= n <= 5,
{
    proof {
        lemma_uvarint_roundtrip(v as nat, Seq::empty());
    }
    let mut x = v;
    let mut n: usize = 1;
    while x >= 128
        invariant
            n + uvarint(x as nat).len() == uvarint(v as nat).len() + 1,
            1 <= n,
            uvarint(v as nat).len() <= 5,
        decreases x,
    {
        assert(uvarint(x as nat) =~= seq![((x % 128) + 128) as u8] + uvarint((x / 128) as nat));
        x = x / 128;
        n = n + 1;
    }
    n
}

proof fn lemma_pow128_pos(k: nat)
    ensures
        pow128(k) >= 1,
    decreases k,
{
    if k > 0 {
        lemma_pow128_pos((k - 1) as nat);
    }
}

proof fn lemma_uvarint_within_bound(s: Seq<u8>, budget: nat)
    ensures
        parse_uvarint_within(s, budget) matches Some((v, n)) ==> v < pow128(budget) && 1 <= n
            <= budget && n <= s.len(),
    decreases budget,
{
    if budget > 0 {
        lemma_pow128_pos((budget - 1) as nat);
        if s.len() > 0 && s[0] >= 128 {
            lemma_uvarint_within_bound(s.drop_first(), (budget - 1) as nat);
        }
    }
}

fn get_uvarint_within(buf: &[u8], pos: usize, budget: u64) -> (res: Option<(u64, usize)>)
    requires
        pos <= buf@.len(),
        budget <= 5,
    ensures
        match parse_uvarint_within(buf@.skip(pos as int), budget as nat) {
            Some((v, n)) => res == Some((v as u64, n as usize)),
            None => res is None,
        },
    decreases budget,
{
    proof {
        reveal_with_fuel(pow128, 6);
        lemma_uvarint_within_bound(buf@.skip(pos as int), budget as nat);
    }
    if budget == 0 || pos >= buf.len() {
        return None;
    }
    let b = buf[pos];
    if b < 128 {
        return Some((b as u64, 1));
    }
    assert(buf@.skip(pos as int).drop_first() =~= buf@.skip(pos + 1));
    match get_uvarint_within(buf, pos + 1, budget - 1) {
        Some((v, n)) => {
            proof {
                lemma_uvarint_within_bound(buf@.skip(pos + 1), (budget - 1) as nat);
            }
            Some(((b - 128) as u64 + 128 * v, n + 1))
        },
        None => None,
    }
}

/// Reads the unsigned 32-bit varint that starts at `pos`, and returns it with
/// the position after it.
pub fn get_uvarint(buf: &[u8], pos: usize) -> (res: Result<(u32, usize), ProtocolError>)
    requires
        pos <= buf@.len(),
    ensures
        match res {
            Ok((v, p)) => parse_uvarint(buf@.skip(pos as int)) == Some((v as nat, (p - pos) as nat))
                && pos < p <= buf@.len(),
            Err(e) => parse_uvarint(buf@.skip(pos as int)) is None && e == ProtocolError::Malformed,
        },
{
    proof {
        lemma_uvarint_within_bound(buf@.skip(pos as int), 5);
        reveal_with_fuel(pow128, 6);
    }
    let len = buf.len();
    match get_uvarint_within(buf, pos, 5) {
        Some((v, n)) => if v <= 0xffff_ffff {
            assert(pos + n <= len);
            Ok((v as u32, pos + n))
        } else {
            Err(ProtocolError::Malformed)
        },
        None => Err(ProtocolError::Malformed),
    }
}

// ---------------------------------------------------------------------------
// Fixed-width integers
// ---------------------------------------------------------------------------

pub(crate) fn put_be(buf: &mut Vec<u8>, n: u64, w: usize)
    requires
        w <= 8,
    ensures
        final(buf)@ == old(buf)@ + be_bytes(n as nat, w as nat),
    decreases w,
{
    if w > 0 {
        put_be(buf, n / 256, w - 1);
        let ghost mid = buf@;
        buf.push((n % 256) as u8);
        assert(buf@ =~= old(buf)@ + be_bytes(n as nat, w as nat));
    }
}

pub(crate) proof fn lemma_be_value_bound(s: Seq<u8>)
    ensures
        be_value(s) < pow256(s.len()),
    decreases s.len(),
{
    if s.len() > 0 {
        lemma_be_value_bound(s.drop_last());
    }
}

pub(crate) fn get_be(buf: &[u8], pos: usize, w: usize) -> (v: u64)
    requires
        w <= 8,
        pos + w <= buf@.len(),
    ensures
        v == be_value(buf@.subrange(pos as int, pos + w)),
    decreases w,
{
    if w == 0 {
        0
    } else {
        let hi = get_be(buf, pos, w - 1);
        let ghost s = buf@.subrange(pos as int, pos + w);
        assert(s.drop_last() =~= buf@.subrange(pos as int, pos + w - 1));
        proof {
            lemma_be_value_bound(s.drop_last());
            lemma_pow256_values();
            reveal_with_fuel(pow256, 9);
        }
        let last = buf.len() - (buf.len() - pos - w) - 1;
        hi * 256 + buf[last] as u64
    }
}

proof fn lemma_int_field_bytes(buf: Seq<u8>, pos: int, w: nat)
    requires
        0 <= pos <= buf.len(),
    ensures
        buf.len() - pos >= w ==> buf.skip(pos).take(w as int) =~= buf.subrange(pos, pos + w),
{
}

/// Writes `x` in one byte.
pub fn put_i8(buf: &mut Vec<u8>, x: i8)
    ensures
        final(buf)@ == old(buf)@ + encode_field(FieldValue::Int8(x)),
{
    proof {
        lemma_pow256_values();
    }
    let u: u64 = if x >= 0 {
        x as u64
    } else {
        (x as i64 + 256) as u64
    };
    put_be(buf, u, 1);
}

/// Writes `x` in two big-endian bytes.
pub fn put_i16(buf: &mut Vec<u8>, x: i16)
    ensures
        final(buf)@ == old(buf)@ + encode_field(FieldValue::Int16(x)),
{
    proof {
        lemma_pow256_values();
    }
    let u: u64 = if x >= 0 {
        x as u64
    } else {
        (x as i64 + 65536) as u64
    };
    put_be(buf, u, 2);
}

/// Writes `x` in four big-endian bytes.
pub fn put_i32(buf: &mut Vec<u8>, x: i32)
    ensures
        final(buf)@ == old(buf)@ + encode_field(FieldValue::Int32(x)),
{
    proof {
        lemma_pow256_values();
    }
    let u: u64 = if x >= 0 {
        x as u64
    } else {
        (x as i64 + 4294967296) as u64
    };
    put_be(buf, u, 4);
}

/// Writes `x` in eight big-endian bytes.
pub fn put_i64(buf: &mut Vec<u8>, x: i64)
    ensures
        final(buf)@ == old(buf)@ + encode_field(FieldValue::Int64(x)),
{
    proof {
        lemma_pow256_values();
    }
    let u: u64 = if x >= 0 {
        x as u64
    } else {
        ((x + 9223372036854775807) + 1) as u64 + 9223372036854775808u64
    };
    put_be(buf, u, 8);
}

/// Reads the one-byte integer at `pos`.
pub fn get_i8(buf: &[u8], pos: usize) -> (res: Result<(i8, usize), ProtocolError>)
    requires
        pos <= buf@.len(),
    ensures
        match parse_field(FieldKind::Int8, buf@.skip(pos as int)) {
            Some((v, n)) => res matches Ok((x, p)) && v == FieldValue::Int8(x) && p == pos + n,
            None => res == Err::<(i8, usize), ProtocolError>(ProtocolError::Malformed),
        },
{
    proof {
        reveal(parse_field);
    }
    proof {
        lemma_pow256_values();
        lemma_int_field_bytes(buf@, pos as int, 1);
    }
    if buf.len() - pos < 1 {
        return Err(ProtocolError::Malformed);
    }
    let u = get_be(buf, pos, 1);
    proof {
        lemma_be_value_bound(buf@.subrange(pos as int, pos + 1));
    }
    let x: i8 = if u < 128 {
        u as i8
    } else {
        (u as i64 - 256) as i8
    };
    Ok((x, pos + 1))
}

/// Reads the two-byte big-endian integer at `pos`.
pub fn get_i16(buf: &[u8], pos: usize) -> (res: Result<(i16, usize), ProtocolError>)
    requires
        pos <= buf@.len(),
    ensures
        match parse_field(FieldKind::Int16, buf@.skip(pos as int)) {
            Some((v, n)) => res matches Ok((x, p)) && v == FieldValue::Int16(x) && p == pos + n,
            None => res == Err::<(i16, usize), ProtocolError>(ProtocolError::Malformed),
        },
{
    proof {
        reveal(parse_field);
    }
    proof {
        lemma_pow256_values();
        lemma_int_field_bytes(buf@, pos as int, 2);
    }
    if buf.len() - pos < 2 {
        return Err(ProtocolError::Malformed);
    }
    let u = get_be(buf, pos, 2);
    proof {
        lemma_be_value_bound(buf@.subrange(pos as int, pos + 2));
    }
    let x: i16 = if u < 32768 {
        u as i16
    } else {
        (u as i64 - 65536) as i16
    };
    Ok((x, pos + 2))
}

/// Reads the four-byte big-endian integer at `pos`.
pub fn get_i32(buf: &[u8], pos: usize) -> (res: Result<(i32, usize), ProtocolError>)
    requires
        pos <= buf@.len(),
    ensures
        match parse_field(FieldKind::Int32, buf@.skip(pos as int)) {
            Some((v, n)) => res matches Ok((x, p)) && v == FieldValue::Int32(x) && p == pos + n,
            None => res == Err::<(i32, usize), ProtocolError>(ProtocolError::Malformed),
        },
{
    proof {
        reveal(parse_field);
    }
    proof {
        lemma_pow256_values();
        lemma_int_field_bytes(buf@, pos as int, 4);
    }
    if buf.len() - pos < 4 {
        return Err(ProtocolError::Malformed);
    }
    let u = get_be(buf, pos, 4);
    proof {
        lemma_be_value_bound(buf@.subrange(pos as int, pos + 4));
    }
    let x: i32 = if u < 2147483648 {
        u as i32
    } else {
        (u as i64 - 4294967296) as i32
    };
    Ok((x, pos + 4))
}

/// Reads the eight-byte big-endian integer at `pos`.
pub fn get_i64(buf: &[u8], pos: usize) -> (res: Result<(i64, usize), ProtocolError>)
    requires
        pos <= buf@.len(),
    ensures
        match parse_field(FieldKind::Int64, buf@.skip(pos as int)) {
            Some((v, n)) => res matches Ok((x, p)) && v == FieldValue::Int64(x) && p == pos + n,
            None => res == Err::<(i64, usize), ProtocolError>(ProtocolError::Malformed),
        },
{
    proof {
        reveal(parse_field);
    }
    proof {
        lemma_pow256_values();
        lemma_int_field_bytes(buf@, pos as int, 8);
    }
    if buf.len() - pos < 8 {
        return Err(ProtocolError::Malformed);
    }
    let u = get_be(buf, pos, 8);
    proof {
        lemma_be_value_bound(buf@.subrange(pos as int, pos + 8));
    }
    let x: i64 = if u < 9223372036854775808 {
        u as i64
    } else {
        ((u - 9223372036854775808) as i64 - 9223372036854775807) - 1
    };
    Ok((x, pos + 8))
}

/// Writes `b` as one byte, `1` for `true` and `0` for `false`.
pub fn put_bool(buf: &mut Vec<u8>, b: bool)
    ensures
        final(buf)@ == old(buf)@ + encode_field(FieldValue::Bool(b)),
{
    buf.push(if b {
        1
    } else {
        0
    });
}

/// Reads the boolean at `pos`. Any non-zero byte reads as `true`.
pub fn get_bool(buf: &[u8], pos: usize) -> (res: Result<(bool, usize), ProtocolError>)
    requires
        pos <= buf@.len(),
    ensures
        match parse_field(FieldKind::Bool, buf@.skip(pos as int)) {
            Some((v, n)) => res matches Ok((x, p)) && v == FieldValue::Bool(x) && p == pos + n,
            None => res == Err::<(bool, usize), ProtocolError>(ProtocolError::Malformed),
        },
{
    proof {
        reveal(parse_field);
    }
    if pos >= buf.len() {
        return Err(ProtocolError::Malformed);
    }
    Ok((buf[pos] != 0, pos + 1))
}


// ---------------------------------------------------------------------------
// UUIDs
// ---------------------------------------------------------------------------

/// A 16-byte UUID, held as its big-endian bytes.
#[derive(Debug, Clone, Copy, PartialEq, Eq, Hash, Default)]
pub struct Uuid(pub [u8; 16]);

impl Uuid {
    /// The nil UUID, all zero bytes.
    pub fn zero() -> (u: Uuid)
        ensures
            u@ == Seq::new(16, |_i: int| 0u8),
    {
        let u = Uuid([0u8; 16]);
        assert(u@ =~= Seq::new(16, |_i: int| 0u8));
        u
    }
}

impl View for Uuid {
    type V = Seq<u8>;

    open spec fn view(&self) -> Seq<u8> {
        self.0@
    }
}

/// Writes the 16 bytes of `u`.
pub fn put_uuid(buf: &mut Vec<u8>, u: &Uuid)
    ensures
        final(buf)@ == old(buf)@ + encode_field(FieldValue::Uuid(u@)),
{
    put_slice(buf, u.0.as_slice());
}

/// Reads the UUID at `pos`.
pub fn get_uuid(buf: &[u8], pos: usize) -> (res: Result<(Uuid, usize), ProtocolError>)
    requires
        pos <= buf@.len(),
    ensures
        match parse_field(FieldKind::Uuid, buf@.skip(pos as int)) {
            Some((v, n)) => res matches Ok((x, p)) && v == FieldValue::Uuid(x@) && p == pos + n,
            None => res == Err::<(Uuid, usize), ProtocolError>(ProtocolError::Malformed),
        },
{
    proof {
        reveal(parse_field);
    }
    if buf.len() - pos < 16 {
        return Err(ProtocolError::Malformed);
    }
    let a = [
        buf[pos],
        buf[pos + 1],
        buf[pos + 2],
        buf[pos + 3],
        buf[pos + 4],
        buf[pos + 5],
        buf[pos + 6],
        buf[pos + 7],
        buf[pos + 8],
        buf[pos + 9],
        buf[pos + 10],
        buf[pos + 11],
        buf[pos + 12],
        buf[pos + 13],
        buf[pos + 14],
        buf[pos + 15],
    ];
    assert(a@ =~= buf@.skip(pos as int).take(16));
    Ok((Uuid(a), pos + 16))
}

// ---------------------------------------------------------------------------
// Compact strings and bytes
// ---------------------------------------------------------------------------

/// `std::str::from_utf8`, which by its documentation returns `Ok` exactly
/// when `bytes` are valid UTF-8, with a string slice that holds those bytes.
#[verifier::external_body]
fn str_from_utf8<'a>(bytes: &'a [u8]) -> (res: Option<&'a str>)
    ensures
        res is Some <==> valid_utf8(bytes@),
        res matches Some(s) ==> s.spec_bytes() == bytes@,
{
    std::str::from_utf8(bytes).ok()
}

/// Writes `s` as a compact string.
pub fn put_compact_string(buf: &mut Vec<u8>, s: &str)
    requires
        str_fits(s@),
    ensures
        final(buf)@ == old(buf)@ + encode_field(FieldValue::Str(s@)),
{
    let bytes = s.as_bytes();
    put_uvarint(buf, (bytes.len() + 1) as u32);
    put_slice(buf, bytes);
    assert(buf@ =~= old(buf)@ + compact_str(s@));
}

/// The view of an optional string.
pub open spec fn opt_view(s: Option<String>) -> Option<Seq<char>> {
    match s {
        Some(x) => Some(x@),
        None => None,
    }
}

/// Writes `s` as a compact nullable string: `None` as the null marker.
pub fn put_compact_nullable_string(buf: &mut Vec<u8>, s: &Option<String>)
    requires
        s matches Some(x) ==> str_fits(x@),
    ensures
        final(buf)@ == old(buf)@ + encode_field(FieldValue::NullableStr(opt_view(*s))),
{
    match s {
        Some(x) => put_compact_string(buf, x.as_str()),
        None => put_uvarint(buf, 0),
    }
}

/// Writes `b` as compact bytes.
pub fn put_compact_bytes(buf: &mut Vec<u8>, b: &[u8])
    requires
        b@.len() < u32::MAX,
    ensures
        final(buf)@ == old(buf)@ + encode_field(FieldValue::Bytes(b@)),
{
    put_uvarint(buf, (b.len() + 1) as u32);
    put_slice(buf, b);
    assert(buf@ =~= old(buf)@ + encode_field(FieldValue::Bytes(b@)));
}

/// The byte range of the compact byte string at `pos`.
fn get_compact_range(buf: &[u8], pos: usize) -> (res: Result<(usize, usize), ProtocolError>)
    requires
        pos <= buf@.len(),
    ensures
        match parse_compact_bytes(buf@.skip(pos as int)) {
            Some((b, n)) => res matches Ok((start, end)) && pos <= start <= end && end == pos + n
                && b == buf@.subrange(start as int, end as int),
            None => res == Err::<(usize, usize), ProtocolError>(ProtocolError::Malformed),
        },
{
    let (l, start) = get_uvarint(buf, pos)?;
    if l < 1 || buf.len() - start < (l - 1) as usize {
        return Err(ProtocolError::Malformed);
    }
    let end = start + (l - 1) as usize;
    assert(buf@.skip(pos as int).subrange((start - pos) as int, (end - pos) as int) =~= buf@.subrange(
        start as int,
        end as int,
    ));
    Ok((start, end))
}

/// Reads the compact bytes at `pos`.
pub fn get_compact_bytes(buf: &[u8], pos: usize) -> (res: Result<(Vec<u8>, usize), ProtocolError>)
    requires
        pos <= buf@.len(),
    ensures
        res matches Ok((_, p)) ==> p <= buf@.len(),
        match parse_field(FieldKind::Bytes, buf@.skip(pos as int)) {
            Some((v, n)) => res matches Ok((x, p)) && v == FieldValue::Bytes(x@) && p == pos + n,
            None => res == Err::<(Vec<u8>, usize), ProtocolError>(ProtocolError::Malformed),
        },
{
    proof {
        reveal(parse_field);
    }
    let (start, end) = get_compact_range(buf, pos)?;
    let bytes = slice_to_vec(slice_subrange(buf, start, end));
    Ok((bytes, end))
}

fn get_compact_str_checked(buf: &[u8], pos: usize) -> (res: Result<(String, usize), ProtocolError>)
    requires
        pos <= buf@.len(),
    ensures
        res matches Ok((_, p)) ==> p <= buf@.len(),
        match parse_compact_str(buf@.skip(pos as int)) {
            Some((v, n)) => res matches Ok((x, p)) && v == x@ && p == pos + n,
            None => res == Err::<(String, usize), ProtocolError>(ProtocolError::Malformed),
        },
{
    broadcast use decode_utf8_encode_utf8, encode_utf8_decode_utf8;

    let (start, end) = get_compact_range(buf, pos)?;
    match str_from_utf8(slice_subrange(buf, start, end)) {
        Some(s) => Ok((s.to_owned(), end)),
        None => Err(ProtocolError::Malformed),
    }
}

/// Reads the compact string at `pos`.
pub fn get_compact_string(buf: &[u8], pos: usize) -> (res: Result<(String, usize), ProtocolError>)
    requires
        pos <= buf@.len(),
    ensures
        res matches Ok((_, p)) ==> p <= buf@.len(),
        match parse_field(FieldKind::Str, buf@.skip(pos as int)) {
            Some((v, n)) => res matches Ok((x, p)) && v == FieldValue::Str(x@) && p == pos + n,
            None => res == Err::<(String, usize), ProtocolError>(ProtocolError::Malformed),
        },
{
    proof {
        reveal(parse_field);
    }
    get_compact_str_checked(buf, pos)
}

/// Reads the compact nullable string at `pos`.
pub fn get_compact_nullable_string(buf: &[u8], pos: usize) -> (res: Result<
    (Option<String>, usize),
    ProtocolError,
>)
    requires
        pos <= buf@.len(),
    ensures
        res matches Ok((_, p)) ==> p <= buf@.len(),
        match parse_field(FieldKind::NullableStr, buf@.skip(pos as int)) {
            Some((v, n)) => res matches Ok((x, p)) && v == FieldValue::NullableStr(opt_view(x))
                && p == pos + n,
            None => res == Err::<(Option<String>, usize), ProtocolError>(ProtocolError::Malformed),
        },
{
    proof {
        reveal(parse_field);
    }
    let (l, next) = get_uvarint(buf, pos)?;
    if l == 0 {
        return Ok((None, next));
    }
    let (s, end) = get_compact_str_checked(buf, pos)?;
    Ok((Some(s), end))
}

/// The byte count of `s` as a compact string.
pub fn compact_string_len(s: &str) -> (n: usize)
    requires
        str_fits(s@),
        encode_field(FieldValue::Str(s@)).len() <= usize::MAX,
    ensures
        n == encode_field(FieldValue::Str(s@)).len(),
{
    let len = s.as_bytes().len();
    let p = uvarint_len((len + 1) as u32);
    assert(encode_field(FieldValue::Str(s@)).len() == p + len);
    p + len
}

/// The byte count of `s` as a compact nullable string.
pub fn compact_nullable_string_len(s: &Option<String>) -> (n: usize)
    requires
        s matches Some(x) ==> str_fits(x@),
        encode_field(FieldValue::NullableStr(opt_view(*s))).len() <= usize::MAX,
    ensures
        n == encode_field(FieldValue::NullableStr(opt_view(*s))).len(),
{
    match s {
        Some(x) => compact_string_len(x.as_str()),
        None => uvarint_len(0),
    }
}

/// The byte count of `b` as compact bytes.
pub fn compact_bytes_len(b: &[u8]) -> (n: usize)
    requires
        b@.len() < u32::MAX,
        encode_field(FieldValue::Bytes(b@)).len() <= usize::MAX,
    ensures
        n == encode_field(FieldValue::Bytes(b@)).len(),
{
    let p = uvarint_len((b.len() + 1) as u32);
    assert(encode_field(FieldValue::Bytes(b@)).len() == p + b@.len());
    p + b.len()
}

// ---------------------------------------------------------------------------
// Compact arrays of compact strings
// ---------------------------------------------------------------------------

/// The views of a run of strings.
pub open spec fn string_views(items: Seq<String>) -> Seq<Seq<char>> {
    items.map_values(|s: String| s@)
}

/// Writes `items` as a compact array of compact strings.
pub fn encode_string_array(buf: &mut Vec<u8>, items: &[String])
    requires
        conforms_str_array(items@),
    ensures
        final(buf)@ == old(buf)@ + encode_field(FieldValue::StrArray(string_views(items@))),
{
    let ghost view = string_views(items@);
    put_uvarint(buf, (items.len() + 1) as u32);
    let ghost start = buf@;
    let mut i: usize = 0;
    while i < items.len()
        invariant
            i <= items@.len(),
            view == string_views(items@),
            strs_fit(view),
            buf@ == start + encode_strs(view.take(i as int)),
        decreases items@.len() - i,
    {
        proof {
            lemma_encode_strs_take(view, i as int);
            assert(str_fits(view[i as int]));
        }
        put_compact_string(buf, items[i].as_str());
        i = i + 1;
    }
    assert(view.take(items@.len() as int) =~= view);
    assert(buf@ =~= old(buf)@ + encode_field(FieldValue::StrArray(view)));
}

/// A run of strings that a compact array of compact strings can hold.
pub open spec fn conforms_str_array(items: Seq<String>) -> bool {
    items.len() < u32::MAX && strs_fit(string_views(items))
}

/// The byte count of `items` as a compact array of compact strings.
pub fn string_array_len(items: &[String]) -> (n: usize)
    requires
        conforms_str_array(items@),
        encode_field(FieldValue::StrArray(string_views(items@))).len() <= usize::MAX,
    ensures
        n == encode_field(FieldValue::StrArray(string_views(items@))).len(),
{
    let ghost view = string_views(items@);
    let mut total: usize = uvarint_len((items.len() + 1) as u32);
    let mut i: usize = 0;
    while i < items.len()
        invariant
            i <= items@.len(),
            view == string_views(items@),
            strs_fit(view),
            total == uvarint((items@.len() + 1) as nat).len() + encode_strs(view.take(i as int)).len(),
            uvarint((items@.len() + 1) as nat).len() + encode_strs(view).len() <= usize::MAX,
        decreases items@.len() - i,
    {
        proof {
            lemma_encode_strs_take(view, i as int);
            lemma_encode_strs_split(view, i + 1);
            assert(str_fits(view[i as int]));
        }
        total = total + compact_string_len(items[i].as_str());
        i = i + 1;
    }
    assert(view.take(items@.len() as int) =~= view);
    total
}

/// Reads the compact array of compact strings at `pos`.
pub fn decode_string_array(buf: &[u8], pos: usize) -> (res: Result<(Vec<String>, usize), ProtocolError>)
    requires
        pos <= buf@.len(),
    ensures
        res matches Ok((_, p)) ==> p <= buf@.len(),
        match parse_field(FieldKind::StrArray, buf@.skip(pos as int)) {
            Some((v, n)) => res matches Ok((x, p)) && v == FieldValue::StrArray(string_views(x@))
                && p == pos + n,
            None => res == Err::<(Vec<String>, usize), ProtocolError>(ProtocolError::Malformed),
        },
{
    proof {
        reveal(parse_field);
    }
    let (c, start) = get_uvarint(buf, pos)?;
    if c < 1 {
        return Err(ProtocolError::Malformed);
    }
    let count = c - 1;
    let ghost s0 = buf@.skip(start as int);
    assert(buf@.skip(pos as int).skip((start - pos) as int) =~= s0);
    let mut items: Vec<String> = Vec::new();
    let mut p = start;
    let mut i: u32 = 0;
    while i < count
        invariant
            start <= p <= buf@.len(),
            i <= count,
            s0 == buf@.skip(start as int),
            pos < start,
            buf@.skip(pos as int).skip((start - pos) as int) == s0,
            parse_uvarint(buf@.skip(pos as int)) == Some(((count + 1) as nat, (start - pos) as nat)),
            parse_strs(count as nat, s0) == match parse_strs(
                (count - i) as nat,
                buf@.skip(p as int),
            ) {
                Some((ss, m)) => Some((string_views(items@) + ss, ((p - start) + m) as nat)),
                None => None::<(Seq<Seq<char>>, nat)>,
            },
        decreases count - i,
    {
        proof {
            reveal(parse_field);
        }
        let ghost before = string_views(items@);
        let ghost sp = buf@.skip(p as int);
        let (x, next) = match get_compact_str_checked(buf, p) {
            Ok(r) => r,
            Err(e) => {
                assert(parse_strs((count - i) as nat, sp) is None);
                return Err(e);
            },
        };
        proof {
            assert(sp.skip((next - p) as int) =~= buf@.skip(next as int));
        }
        items.push(x);
        assert(string_views(items@) =~= before.push(x@));
        p = next;
        i = i + 1;
        assert forall|ss: Seq<Seq<char>>| true implies before + (seq![x@] + ss) =~= string_views(
            items@,
        ) + ss by {}
    }
    assert(string_views(items@) + Seq::<Seq<char>>::empty() =~= string_views(items@));
    assert(buf@.skip(pos as int).skip((start - pos) as int) =~= s0);
    Ok((items, p))
}

} // verus!
