//! The byte-level model of the KIP-482 flexible framing that every
//! krabka-private message uses.
//!
//! A message is a record: a sequence of fields, each of one [`FieldKind`].
//! [`encode_record`] says which bytes a record takes on the wire, and
//! [`parse_record`] says what a reader makes of a byte sequence. The executable
//! codecs are proved against these two functions, and the lemmas at the end of
//! this module prove that a read of a written record gives the record back.

use vstd::prelude::*;
use vstd::utf8::*;

verus! {

/// The shape of one field on the wire.
pub enum FieldKind {
    Bool,
    Int8,
    Int16,
    Int32,
    Int64,
    Uuid,
    /// A compact string: an unsigned varint of the byte length plus one, then
    /// the UTF-8 bytes.
    Str,
    /// A compact nullable string: a zero length prefix stands for null.
    NullableStr,
    /// Compact bytes: an unsigned varint of the length plus one, then the bytes.
    Bytes,
    /// A compact array of compact strings.
    StrArray,
    /// A compact array of nested records of the given shape.
    Structs(Seq<FieldKind>),
    /// The tagged-fields trailer: a count, then for each field its tag, its
    /// size and its bytes, in ascending tag order.
    Tags,
}

/// The value of one field, in the shape a [`FieldKind`] names.
pub enum FieldValue {
    Bool(bool),
    Int8(i8),
    Int16(i16),
    Int32(i32),
    Int64(i64),
    Uuid(Seq<u8>),
    Str(Seq<char>),
    NullableStr(Option<Seq<char>>),
    Bytes(Seq<u8>),
    StrArray(Seq<Seq<char>>),
    Structs(Seq<Seq<FieldValue>>),
    Tags(Seq<(u32, Seq<u8>)>),
}

// ---------------------------------------------------------------------------
// Unsigned varints
// ---------------------------------------------------------------------------

/// The shortest unsigned varint of `v`: seven bits a byte, least significant
/// group first, the high bit set on every byte but the last.
pub open spec fn uvarint(v: nat) -> Seq<u8>
    decreases v,
{
    if v < 128 {
        seq![v as u8]
    } else {
        seq![((v % 128) + 128) as u8] + uvarint(v / 128)
    }
}

/// Reads an unsigned varint of at most `budget` bytes from the front of `s`,
/// and returns its value and its byte count.
pub open spec fn parse_uvarint_within(s: Seq<u8>, budget: nat) -> Option<(nat, nat)>
    decreases budget,
{
    if budget == 0 || s.len() == 0 {
        None
    } else if s[0] < 128 {
        Some((s[0] as nat, 1))
    } else {
        match parse_uvarint_within(s.drop_first(), (budget - 1) as nat) {
            Some((v, n)) => Some((((s[0] - 128) + 128 * v) as nat, n + 1)),
            None => None,
        }
    }
}

/// The unsigned 32-bit varint at the front of `s`: at most five bytes, and a
/// value that fits a `u32`.
pub open spec fn parse_uvarint(s: Seq<u8>) -> Option<(nat, nat)> {
    match parse_uvarint_within(s, 5) {
        Some((v, n)) => if v <= u32::MAX {
            Some((v, n))
        } else {
            None
        },
        None => None,
    }
}

// ---------------------------------------------------------------------------
// Fixed-width big-endian integers
// ---------------------------------------------------------------------------

pub open spec fn pow256(w: nat) -> nat
    decreases w,
{
    if w == 0 {
        1
    } else {
        256 * pow256((w - 1) as nat)
    }
}

/// The `w` low bytes of `n`, most significant first.
pub open spec fn be_bytes(n: nat, w: nat) -> Seq<u8>
    decreases w,
{
    if w == 0 {
        Seq::empty()
    } else {
        be_bytes(n / 256, (w - 1) as nat).push((n % 256) as u8)
    }
}

/// The unsigned value of `s`, most significant byte first.
pub open spec fn be_value(s: Seq<u8>) -> nat
    decreases s.len(),
{
    if s.len() == 0 {
        0
    } else {
        be_value(s.drop_last()) * 256 + (s.last() as nat)
    }
}

/// The two's-complement pattern of `v` in `w` bytes, as an unsigned number.
pub open spec fn to_unsigned(v: int, w: nat) -> nat {
    if v >= 0 {
        v as nat
    } else {
        (v + pow256(w)) as nat
    }
}

/// The signed value of the `w`-byte two's-complement pattern `u`.
pub open spec fn to_signed(u: nat, w: nat) -> int {
    if u < pow256(w) / 2 {
        u as int
    } else {
        u - pow256(w)
    }
}

/// `v` as a `w`-byte big-endian two's-complement integer.
pub open spec fn int_bytes(v: int, w: nat) -> Seq<u8> {
    be_bytes(to_unsigned(v, w), w)
}

/// The signed `w`-byte big-endian integer at the front of `s`.
pub open spec fn parse_int(s: Seq<u8>, w: nat) -> Option<(int, nat)> {
    if s.len() >= w {
        Some((to_signed(be_value(s.take(w as int)), w), w))
    } else {
        None
    }
}

// ---------------------------------------------------------------------------
// Strings and byte strings
// ---------------------------------------------------------------------------

/// A compact string: the byte length plus one as a varint, then UTF-8.
pub open spec fn compact_str(s: Seq<char>) -> Seq<u8> {
    uvarint(encode_utf8(s).len() + 1) + encode_utf8(s)
}

/// Compact bytes: the length plus one as a varint, then the bytes.
pub open spec fn compact_bytes(b: Seq<u8>) -> Seq<u8> {
    uvarint(b.len() + 1) + b
}

/// The byte string of a compact length prefix at the front of `s`. A prefix
/// of zero, the null marker, is refused.
pub open spec fn parse_compact_bytes(s: Seq<u8>) -> Option<(Seq<u8>, nat)> {
    match parse_uvarint(s) {
        Some((l, n)) => if l >= 1 && n + (l - 1) <= s.len() {
            Some((s.subrange(n as int, (n + l - 1) as int), (n + l - 1) as nat))
        } else {
            None
        },
        None => None,
    }
}

/// The compact string at the front of `s`: its bytes must be UTF-8.
pub open spec fn parse_compact_str(s: Seq<u8>) -> Option<(Seq<char>, nat)> {
    match parse_compact_bytes(s) {
        Some((b, n)) => if valid_utf8(b) {
            Some((decode_utf8(b), n))
        } else {
            None
        },
        None => None,
    }
}

/// A run of compact strings, one after another.
pub open spec fn encode_strs(ss: Seq<Seq<char>>) -> Seq<u8>
    decreases ss.len(),
{
    if ss.len() == 0 {
        Seq::empty()
    } else {
        compact_str(ss[0]) + encode_strs(ss.drop_first())
    }
}

/// `count` compact strings at the front of `s`.
pub open spec fn parse_strs(count: nat, s: Seq<u8>) -> Option<(Seq<Seq<char>>, nat)>
    decreases count,
{
    if count == 0 {
        Some((Seq::empty(), 0))
    } else {
        match parse_compact_str(s) {
            Some((x, n)) => match parse_strs((count - 1) as nat, s.skip(n as int)) {
                Some((xs, m)) => Some((seq![x] + xs, n + m)),
                None => None,
            },
            None => None,
        }
    }
}

// ---------------------------------------------------------------------------
// Tagged fields
// ---------------------------------------------------------------------------

/// One tagged field: its tag, its size, then its bytes.
pub open spec fn encode_tag(t: (u32, Seq<u8>)) -> Seq<u8> {
    uvarint(t.0 as nat) + uvarint(t.1.len()) + t.1
}

pub open spec fn encode_tags(ts: Seq<(u32, Seq<u8>)>) -> Seq<u8>
    decreases ts.len(),
{
    if ts.len() == 0 {
        Seq::empty()
    } else {
        encode_tag(ts[0]) + encode_tags(ts.drop_first())
    }
}

/// `count` tagged fields at the front of `s`, each with a tag of at least
/// `min_tag` and above the tag before it.
pub open spec fn parse_tags(count: nat, min_tag: nat, s: Seq<u8>) -> Option<
    (Seq<(u32, Seq<u8>)>, nat),
>
    decreases count,
{
    if count == 0 {
        Some((Seq::empty(), 0))
    } else {
        match parse_uvarint(s) {
            Some((tag, n1)) => match parse_uvarint(s.skip(n1 as int)) {
                Some((len, n2)) => if tag >= min_tag && n1 + n2 + len <= s.len() {
                    let body = s.subrange((n1 + n2) as int, (n1 + n2 + len) as int);
                    match parse_tags((count - 1) as nat, tag + 1, s.skip((n1 + n2 + len) as int)) {
                        Some((ts, m)) => Some(
                            (seq![(tag as u32, body)] + ts, (n1 + n2 + len + m) as nat),
                        ),
                        None => None,
                    }
                } else {
                    None
                },
                None => None,
            },
            None => None,
        }
    }
}

/// Every tag is at least `min_tag` and above the tag before it.
pub open spec fn tags_ascending_from(ts: Seq<(u32, Seq<u8>)>, min_tag: nat) -> bool
    decreases ts.len(),
{
    ts.len() == 0 || (ts[0].0 >= min_tag && tags_ascending_from(
        ts.drop_first(),
        ts[0].0 as nat + 1,
    ))
}


// ---------------------------------------------------------------------------
// Records
// ---------------------------------------------------------------------------

/// The bytes of one field.
pub open spec fn encode_field(v: FieldValue) -> Seq<u8>
    decreases v,
{
    match v {
        FieldValue::Bool(b) => seq![if b { 1u8 } else { 0u8 }],
        FieldValue::Int8(x) => int_bytes(x as int, 1),
        FieldValue::Int16(x) => int_bytes(x as int, 2),
        FieldValue::Int32(x) => int_bytes(x as int, 4),
        FieldValue::Int64(x) => int_bytes(x as int, 8),
        FieldValue::Uuid(u) => u,
        FieldValue::Str(s) => compact_str(s),
        FieldValue::NullableStr(o) => match o {
            Some(s) => compact_str(s),
            None => uvarint(0),
        },
        FieldValue::Bytes(b) => compact_bytes(b),
        FieldValue::StrArray(ss) => uvarint(ss.len() + 1) + encode_strs(ss),
        FieldValue::Structs(rs) => uvarint(rs.len() + 1) + encode_records(rs),
        FieldValue::Tags(ts) => uvarint(ts.len()) + encode_tags(ts),
    }
}

/// The bytes of a record: its fields, one after another.
pub open spec fn encode_record(vs: Seq<FieldValue>) -> Seq<u8>
    decreases vs,
{
    if vs.len() == 0 {
        Seq::empty()
    } else {
        encode_field(vs[0]) + encode_record(vs.drop_first())
    }
}

/// The bytes of a run of records, one after another.
pub open spec fn encode_records(rs: Seq<Seq<FieldValue>>) -> Seq<u8>
    decreases rs,
{
    if rs.len() == 0 {
        Seq::empty()
    } else {
        encode_record(rs[0]) + encode_records(rs.drop_first())
    }
}

/// What a reader makes of the front of `s` as a field of kind `k`: the value
/// and the number of bytes it takes, or `None` when the bytes do not hold one.
#[verifier::opaque]
pub open spec fn parse_field(k: FieldKind, s: Seq<u8>) -> Option<(FieldValue, nat)>
    decreases k, 0nat,
{
    match k {
        FieldKind::Bool => if s.len() >= 1 {
            Some((FieldValue::Bool(s[0] != 0), 1))
        } else {
            None
        },
        FieldKind::Int8 => match parse_int(s, 1) {
            Some((x, n)) => Some((FieldValue::Int8(x as i8), n)),
            None => None,
        },
        FieldKind::Int16 => match parse_int(s, 2) {
            Some((x, n)) => Some((FieldValue::Int16(x as i16), n)),
            None => None,
        },
        FieldKind::Int32 => match parse_int(s, 4) {
            Some((x, n)) => Some((FieldValue::Int32(x as i32), n)),
            None => None,
        },
        FieldKind::Int64 => match parse_int(s, 8) {
            Some((x, n)) => Some((FieldValue::Int64(x as i64), n)),
            None => None,
        },
        FieldKind::Uuid => if s.len() >= 16 {
            Some((FieldValue::Uuid(s.take(16)), 16))
        } else {
            None
        },
        FieldKind::Str => match parse_compact_str(s) {
            Some((x, n)) => Some((FieldValue::Str(x), n)),
            None => None,
        },
        FieldKind::NullableStr => match parse_uvarint(s) {
            Some((l, n)) => if l == 0 {
                Some((FieldValue::NullableStr(None), n))
            } else {
                match parse_compact_str(s) {
                    Some((x, m)) => Some((FieldValue::NullableStr(Some(x)), m)),
                    None => None,
                }
            },
            None => None,
        },
        FieldKind::Bytes => match parse_compact_bytes(s) {
            Some((x, n)) => Some((FieldValue::Bytes(x), n)),
            None => None,
        },
        FieldKind::StrArray => match parse_uvarint(s) {
            Some((c, n)) => if c >= 1 {
                match parse_strs((c - 1) as nat, s.skip(n as int)) {
                    Some((ss, m)) => Some((FieldValue::StrArray(ss), n + m)),
                    None => None,
                }
            } else {
                None
            },
            None => None,
        },
        FieldKind::Structs(ks) => match parse_uvarint(s) {
            Some((c, n)) => if c >= 1 {
                match parse_records(ks, (c - 1) as nat, s.skip(n as int)) {
                    Some((rs, m)) => Some((FieldValue::Structs(rs), n + m)),
                    None => None,
                }
            } else {
                None
            },
            None => None,
        },
        FieldKind::Tags => match parse_uvarint(s) {
            Some((c, n)) => match parse_tags(c, 0, s.skip(n as int)) {
                Some((ts, m)) => Some((FieldValue::Tags(ts), n + m)),
                None => None,
            },
            None => None,
        },
    }
}

/// What a reader makes of the front of `s` as a record of shape `ks`.
pub open spec fn parse_record(ks: Seq<FieldKind>, s: Seq<u8>) -> Option<(Seq<FieldValue>, nat)>
    decreases ks, 0nat,
{
    if ks.len() == 0 {
        Some((Seq::empty(), 0))
    } else {
        match parse_field(ks[0], s) {
            Some((v, n)) => match parse_record(ks.drop_first(), s.skip(n as int)) {
                Some((vs, m)) => Some((seq![v] + vs, n + m)),
                None => None,
            },
            None => None,
        }
    }
}

/// What a reader makes of the front of `s` as `count` records of shape `ks`.
pub open spec fn parse_records(ks: Seq<FieldKind>, count: nat, s: Seq<u8>) -> Option<
    (Seq<Seq<FieldValue>>, nat),
>
    decreases ks, count,
{
    if count == 0 {
        Some((Seq::empty(), 0))
    } else {
        match parse_record(ks, s) {
            Some((r, n)) => match parse_records(ks, (count - 1) as nat, s.skip(n as int)) {
                Some((rs, m)) => Some((seq![r] + rs, n + m)),
                None => None,
            },
            None => None,
        }
    }
}

// ---------------------------------------------------------------------------
// Well-formed values
// ---------------------------------------------------------------------------

/// A string whose compact length prefix fits a 32-bit varint.
pub open spec fn str_fits(s: Seq<char>) -> bool {
    encode_utf8(s).len() < u32::MAX
}

pub open spec fn strs_fit(ss: Seq<Seq<char>>) -> bool {
    forall|i: int| 0 <= i < ss.len() ==> #[trigger] str_fits(ss[i])
}

pub open spec fn tag_bodies_fit(ts: Seq<(u32, Seq<u8>)>) -> bool {
    forall|i: int| 0 <= i < ts.len() ==> #[trigger] ts[i].1.len() <= u32::MAX
}

/// `v` has the shape `k` and every length in it fits its varint prefix. Every
/// value that a writer can put on the wire is well formed in this sense.
pub open spec fn conforms(k: FieldKind, v: FieldValue) -> bool
    decreases v,
{
    match v {
        FieldValue::Bool(_) => k is Bool,
        FieldValue::Int8(_) => k is Int8,
        FieldValue::Int16(_) => k is Int16,
        FieldValue::Int32(_) => k is Int32,
        FieldValue::Int64(_) => k is Int64,
        FieldValue::Uuid(u) => k is Uuid && u.len() == 16,
        FieldValue::Str(s) => k is Str && str_fits(s),
        FieldValue::NullableStr(o) => k is NullableStr && match o {
            Some(s) => str_fits(s),
            None => true,
        },
        FieldValue::Bytes(b) => k is Bytes && b.len() < u32::MAX,
        FieldValue::StrArray(ss) => k is StrArray && ss.len() < u32::MAX && strs_fit(ss),
        FieldValue::Structs(rs) => match k {
            FieldKind::Structs(ks) => rs.len() < u32::MAX && conforms_records(ks, rs),
            _ => false,
        },
        FieldValue::Tags(ts) => k is Tags && ts.len() <= u32::MAX && tags_ascending_from(ts, 0)
            && tag_bodies_fit(ts),
    }
}

/// `vs` has the shape `ks`, field by field.
pub open spec fn conforms_record(ks: Seq<FieldKind>, vs: Seq<FieldValue>) -> bool
    decreases vs,
{
    if vs.len() == 0 {
        ks.len() == 0
    } else {
        ks.len() == vs.len() && conforms(ks[0], vs[0]) && conforms_record(
            ks.drop_first(),
            vs.drop_first(),
        )
    }
}

/// Every record of `rs` has the shape `ks`.
pub open spec fn conforms_records(ks: Seq<FieldKind>, rs: Seq<Seq<FieldValue>>) -> bool
    decreases rs,
{
    rs.len() == 0 || (conforms_record(ks, rs[0]) && conforms_records(ks, rs.drop_first()))
}


/// `v` has the shape `k` and every length in it fits its varint prefix, so a
/// writer can put it on the wire. Unlike [`conforms`], the tags of a trailer
/// may come in any order: a writer puts them down as they are.
pub open spec fn writable(k: FieldKind, v: FieldValue) -> bool
    decreases v,
{
    match v {
        FieldValue::Structs(rs) => match k {
            FieldKind::Structs(ks) => rs.len() < u32::MAX && writable_records(ks, rs),
            _ => false,
        },
        FieldValue::Tags(ts) => k is Tags && ts.len() <= u32::MAX && tag_bodies_fit(ts),
        _ => conforms(k, v),
    }
}

/// `vs` has the shape `ks` and can go on the wire, field by field.
pub open spec fn writable_record(ks: Seq<FieldKind>, vs: Seq<FieldValue>) -> bool
    decreases vs,
{
    if vs.len() == 0 {
        ks.len() == 0
    } else {
        ks.len() == vs.len() && writable(ks[0], vs[0]) && writable_record(
            ks.drop_first(),
            vs.drop_first(),
        )
    }
}

/// Every record of `rs` has the shape `ks` and can go on the wire.
pub open spec fn writable_records(ks: Seq<FieldKind>, rs: Seq<Seq<FieldValue>>) -> bool
    decreases rs,
{
    rs.len() == 0 || (writable_record(ks, rs[0]) && writable_records(ks, rs.drop_first()))
}

// ---------------------------------------------------------------------------
// Lemmas: a read of what a write put down gives the value back
// ---------------------------------------------------------------------------

pub open spec fn pow128(k: nat) -> nat
    decreases k,
{
    if k == 0 {
        1
    } else {
        128 * pow128((k - 1) as nat)
    }
}

proof fn lemma_uvarint_len(v: nat, k: nat)
    requires
        v < pow128(k),
    ensures
        1 <= uvarint(v).len() <= if k == 0 { 1 } else { k },
    decreases v,
{
    if v >= 128 {
        assert(k >= 2) by {
            if k == 1 {
                assert(pow128(1) == 128) by {
                    reveal_with_fuel(pow128, 2);
                }
            } else if k == 0 {
            }
        }
        lemma_uvarint_len(v / 128, (k - 1) as nat);
    }
}

proof fn lemma_uvarint_within(v: nat, rest: Seq<u8>, budget: nat)
    requires
        uvarint(v).len() <= budget,
    ensures
        parse_uvarint_within(uvarint(v) + rest, budget) == Some((v, uvarint(v).len())),
    decreases v,
{
    let s = uvarint(v) + rest;
    if v < 128 {
        assert(s[0] == v as u8);
    } else {
        let tail = uvarint(v / 128);
        assert(s.drop_first() =~= tail + rest);
        lemma_uvarint_within(v / 128, rest, (budget - 1) as nat);
        assert(s[0] == ((v % 128) + 128) as u8);
    }
}

/// A varint of a `u32` reads back as itself, whatever follows it.
pub proof fn lemma_uvarint_roundtrip(v: nat, rest: Seq<u8>)
    requires
        v <= u32::MAX,
    ensures
        parse_uvarint(uvarint(v) + rest) == Some((v, uvarint(v).len())),
        1 <= uvarint(v).len() <= 5,
{
    assert(pow128(5) == 34359738368) by {
        reveal_with_fuel(pow128, 6);
    }
    lemma_uvarint_len(v, 5);
    lemma_uvarint_within(v, rest, 5);
}

pub proof fn lemma_be_bytes(n: nat, w: nat)
    ensures
        be_bytes(n, w).len() == w,
        n < pow256(w) ==> be_value(be_bytes(n, w)) == n,
    decreases w,
{
    if w > 0 {
        lemma_be_bytes(n / 256, (w - 1) as nat);
        let b = be_bytes(n, w);
        assert(b.drop_last() =~= be_bytes(n / 256, (w - 1) as nat));
        if n < pow256(w) {
            assert(n / 256 < pow256((w - 1) as nat));
        }
    }
}

pub proof fn lemma_pow256_values()
    ensures
        pow256(1) == 256,
        pow256(2) == 65536,
        pow256(4) == 4294967296,
        pow256(8) == 18446744073709551616,
{
    reveal_with_fuel(pow256, 9);
}

/// A `w`-byte integer reads back as itself, whatever follows it.
pub proof fn lemma_int_roundtrip(v: int, w: nat, rest: Seq<u8>)
    requires
        w == 1 || w == 2 || w == 4 || w == 8,
        -(pow256(w) / 2) <= v < pow256(w) / 2,
    ensures
        int_bytes(v, w).len() == w,
        parse_int(int_bytes(v, w) + rest, w) == Some((v, w)),
{
    lemma_pow256_values();
    let u = to_unsigned(v, w);
    lemma_be_bytes(u, w);
    let s = int_bytes(v, w) + rest;
    assert(s.take(w as int) =~= int_bytes(v, w));
}

/// A compact byte string reads back as itself.
pub proof fn lemma_compact_bytes_roundtrip(b: Seq<u8>, rest: Seq<u8>)
    requires
        b.len() < u32::MAX,
    ensures
        parse_compact_bytes(compact_bytes(b) + rest) == Some((b, compact_bytes(b).len())),
{
    let p = uvarint(b.len() + 1);
    lemma_uvarint_roundtrip(b.len() + 1, b + rest);
    assert(compact_bytes(b) + rest =~= p + (b + rest));
    assert((compact_bytes(b) + rest).subrange(p.len() as int, (p.len() + b.len()) as int) =~= b);
}

/// A compact string reads back as itself.
pub proof fn lemma_compact_str_roundtrip(x: Seq<char>, rest: Seq<u8>)
    requires
        str_fits(x),
    ensures
        parse_compact_str(compact_str(x) + rest) == Some((x, compact_str(x).len())),
{
    broadcast use encode_utf8_valid_utf8, encode_utf8_decode_utf8;

    lemma_compact_bytes_roundtrip(encode_utf8(x), rest);
}


#[verifier::spinoff_prover]
#[verifier::rlimit(40)]
pub proof fn lemma_strs_roundtrip(ss: Seq<Seq<char>>, rest: Seq<u8>)
    requires
        strs_fit(ss),
    ensures
        parse_strs(ss.len(), encode_strs(ss) + rest) == Some((ss, encode_strs(ss).len())),
    decreases ss.len(),
{
    if ss.len() > 0 {
        let head = compact_str(ss[0]);
        let tail = encode_strs(ss.drop_first());
        assert(str_fits(ss[0]));
        assert(strs_fit(ss.drop_first())) by {
            assert forall|i: int| 0 <= i < ss.drop_first().len() implies #[trigger] str_fits(
                ss.drop_first()[i],
            ) by {
                assert(str_fits(ss[i + 1]));
            }
        }
        lemma_compact_str_roundtrip(ss[0], tail + rest);
        assert(encode_strs(ss) + rest =~= head + (tail + rest));
        assert((encode_strs(ss) + rest).skip(head.len() as int) =~= tail + rest);
        lemma_strs_roundtrip(ss.drop_first(), rest);
        assert(seq![ss[0]] + ss.drop_first() =~= ss);
    }
}

#[verifier::spinoff_prover]
#[verifier::rlimit(40)]
pub proof fn lemma_tags_roundtrip(ts: Seq<(u32, Seq<u8>)>, min_tag: nat, rest: Seq<u8>)
    requires
        tags_ascending_from(ts, min_tag),
        tag_bodies_fit(ts),
    ensures
        parse_tags(ts.len(), min_tag, encode_tags(ts) + rest) == Some((ts, encode_tags(ts).len())),
    decreases ts.len(),
{
    if ts.len() > 0 {
        let t = ts[0];
        let s = encode_tags(ts) + rest;
        let p1 = uvarint(t.0 as nat);
        let p2 = uvarint(t.1.len());
        let tail = encode_tags(ts.drop_first());
        assert(t.1.len() <= u32::MAX);
        assert(tag_bodies_fit(ts.drop_first())) by {
            assert forall|i: int| 0 <= i < ts.drop_first().len() implies #[trigger] ts.drop_first()[
                i
            ].1.len() <= u32::MAX by {
                assert(ts[i + 1].1.len() <= u32::MAX);
            }
        }
        assert(s =~= p1 + (p2 + (t.1 + (tail + rest))));
        lemma_uvarint_roundtrip(t.0 as nat, p2 + (t.1 + (tail + rest)));
        assert(s.skip(p1.len() as int) =~= p2 + (t.1 + (tail + rest)));
        lemma_uvarint_roundtrip(t.1.len(), t.1 + (tail + rest));
        let n = p1.len() + p2.len() + t.1.len();
        assert(s.subrange((p1.len() + p2.len()) as int, n as int) =~= t.1);
        assert(s.skip(n as int) =~= tail + rest);
        lemma_tags_roundtrip(ts.drop_first(), t.0 as nat + 1, rest);
        assert(seq![(t.0 as nat as u32, t.1)] + ts.drop_first() =~= ts);
    }
}

#[verifier::spinoff_prover]
#[verifier::rlimit(40)]
proof fn lemma_int_field_roundtrip(k: FieldKind, v: FieldValue, rest: Seq<u8>)
    requires
        conforms(k, v),
        v is Int8 || v is Int16 || v is Int32 || v is Int64,
    ensures
        parse_field(k, encode_field(v) + rest) == Some((v, encode_field(v).len())),
{
    reveal(parse_field);
    lemma_pow256_values();
    match v {
        FieldValue::Int8(x) => lemma_int_roundtrip(x as int, 1, rest),
        FieldValue::Int16(x) => lemma_int_roundtrip(x as int, 2, rest),
        FieldValue::Int32(x) => lemma_int_roundtrip(x as int, 4, rest),
        FieldValue::Int64(x) => lemma_int_roundtrip(x as int, 8, rest),
        _ => {},
    }
}

#[verifier::spinoff_prover]
#[verifier::rlimit(40)]
proof fn lemma_str_field_roundtrip(k: FieldKind, v: FieldValue, rest: Seq<u8>)
    requires
        conforms(k, v),
        v is Str || v is NullableStr || v is Bytes || v is Uuid || v is Bool,
    ensures
        parse_field(k, encode_field(v) + rest) == Some((v, encode_field(v).len())),
{
    reveal(parse_field);
    let s = encode_field(v) + rest;
    match v {
        FieldValue::Uuid(u) => {
            assert(s.take(16) =~= u);
        },
        FieldValue::Str(x) => {
            lemma_compact_str_roundtrip(x, rest);
        },
        FieldValue::NullableStr(o) => {
            match o {
                Some(x) => {
                    lemma_compact_str_roundtrip(x, rest);
                    lemma_uvarint_roundtrip(encode_utf8(x).len() + 1, encode_utf8(x) + rest);
                    assert(s =~= uvarint(encode_utf8(x).len() + 1) + (encode_utf8(x) + rest));
                },
                None => {
                    lemma_uvarint_roundtrip(0, rest);
                },
            }
        },
        FieldValue::Bytes(b) => {
            lemma_compact_bytes_roundtrip(b, rest);
        },
        _ => {},
    }
}

#[verifier::spinoff_prover]
#[verifier::rlimit(40)]
proof fn lemma_strarray_field_roundtrip(k: FieldKind, ss: Seq<Seq<char>>, rest: Seq<u8>)
    requires
        conforms(k, FieldValue::StrArray(ss)),
    ensures
        parse_field(k, encode_field(FieldValue::StrArray(ss)) + rest) == Some(
            (FieldValue::StrArray(ss), encode_field(FieldValue::StrArray(ss)).len()),
        ),
{
    reveal(parse_field);
    let s = encode_field(FieldValue::StrArray(ss)) + rest;
    let p = uvarint(ss.len() + 1);
    lemma_uvarint_roundtrip(ss.len() + 1, encode_strs(ss) + rest);
    assert(s =~= p + (encode_strs(ss) + rest));
    assert(s.skip(p.len() as int) =~= encode_strs(ss) + rest);
    lemma_strs_roundtrip(ss, rest);
}

#[verifier::spinoff_prover]
#[verifier::rlimit(40)]
proof fn lemma_tags_field_roundtrip(k: FieldKind, ts: Seq<(u32, Seq<u8>)>, rest: Seq<u8>)
    requires
        conforms(k, FieldValue::Tags(ts)),
    ensures
        parse_field(k, encode_field(FieldValue::Tags(ts)) + rest) == Some(
            (FieldValue::Tags(ts), encode_field(FieldValue::Tags(ts)).len()),
        ),
{
    reveal(parse_field);
    let s = encode_field(FieldValue::Tags(ts)) + rest;
    let p = uvarint(ts.len());
    lemma_uvarint_roundtrip(ts.len(), encode_tags(ts) + rest);
    assert(s =~= p + (encode_tags(ts) + rest));
    assert(s.skip(p.len() as int) =~= encode_tags(ts) + rest);
    lemma_tags_roundtrip(ts, 0, rest);
}

/// A field of a well-formed value reads back as the value, whatever follows it.
#[verifier::spinoff_prover]
#[verifier::rlimit(40)]
pub proof fn lemma_field_roundtrip(k: FieldKind, v: FieldValue, rest: Seq<u8>)
    requires
        conforms(k, v),
    ensures
        parse_field(k, encode_field(v) + rest) == Some((v, encode_field(v).len())),
    decreases v,
{
    reveal(parse_field);
    if v is Int8 || v is Int16 || v is Int32 || v is Int64 {
        lemma_int_field_roundtrip(k, v, rest);
    } else if v is Str || v is NullableStr || v is Bytes || v is Uuid || v is Bool {
        lemma_str_field_roundtrip(k, v, rest);
    } else if v is StrArray {
        lemma_strarray_field_roundtrip(k, v->StrArray_0, rest);
    } else if v is Tags {
        lemma_tags_field_roundtrip(k, v->Tags_0, rest);
    } else {
        let rs = v->Structs_0;
        let ks = k->Structs_0;
        let s = encode_field(v) + rest;
        let p = uvarint(rs.len() + 1);
        lemma_uvarint_roundtrip(rs.len() + 1, encode_records(rs) + rest);
        assert(s =~= p + (encode_records(rs) + rest));
        assert(s.skip(p.len() as int) =~= encode_records(rs) + rest);
        lemma_records_roundtrip(ks, rs, rest);
    }
}

/// A well-formed record reads back as itself, whatever follows it.
pub proof fn lemma_record_roundtrip(ks: Seq<FieldKind>, vs: Seq<FieldValue>, rest: Seq<u8>)
    requires
        conforms_record(ks, vs),
    ensures
        parse_record(ks, encode_record(vs) + rest) == Some((vs, encode_record(vs).len())),
    decreases vs,
{
    reveal(parse_field);
    if vs.len() > 0 {
        let head = encode_field(vs[0]);
        let tail = encode_record(vs.drop_first());
        lemma_field_roundtrip(ks[0], vs[0], tail + rest);
        assert(encode_record(vs) + rest =~= head + (tail + rest));
        assert((encode_record(vs) + rest).skip(head.len() as int) =~= tail + rest);
        lemma_record_roundtrip(ks.drop_first(), vs.drop_first(), rest);
        assert(seq![vs[0]] + vs.drop_first() =~= vs);
    }
}

/// A run of well-formed records reads back as itself, whatever follows it.
pub proof fn lemma_records_roundtrip(ks: Seq<FieldKind>, rs: Seq<Seq<FieldValue>>, rest: Seq<u8>)
    requires
        conforms_records(ks, rs),
    ensures
        parse_records(ks, rs.len(), encode_records(rs) + rest) == Some(
            (rs, encode_records(rs).len()),
        ),
    decreases rs,
{
    if rs.len() > 0 {
        let head = encode_record(rs[0]);
        let tail = encode_records(rs.drop_first());
        lemma_record_roundtrip(ks, rs[0], tail + rest);
        assert(encode_records(rs) + rest =~= head + (tail + rest));
        assert((encode_records(rs) + rest).skip(head.len() as int) =~= tail + rest);
        lemma_records_roundtrip(ks, rs.drop_first(), rest);
        assert(seq![rs[0]] + rs.drop_first() =~= rs);
    }
}


// ---------------------------------------------------------------------------
// Lemmas: what a read gives back is well formed, and more input does not
// change it
// ---------------------------------------------------------------------------

proof fn lemma_uvarint_within_extend(s: Seq<u8>, t: Seq<u8>, budget: nat)
    ensures
        parse_uvarint_within(s, budget) matches Some((v, n)) ==> n <= s.len() && n >= 1
            && parse_uvarint_within(s + t, budget) == Some((v, n)),
    decreases budget,
{
    if budget > 0 && s.len() > 0 && s[0] >= 128 {
        assert((s + t).drop_first() =~= s.drop_first() + t);
        lemma_uvarint_within_extend(s.drop_first(), t, (budget - 1) as nat);
    }
}

pub proof fn lemma_uvarint_extend(s: Seq<u8>, t: Seq<u8>)
    ensures
        parse_uvarint(s) matches Some((v, n)) ==> 1 <= n <= s.len() && v <= u32::MAX
            && parse_uvarint(s + t) == Some((v, n)),
{
    lemma_uvarint_within_extend(s, t, 5);
}

pub proof fn lemma_compact_bytes_extend(s: Seq<u8>, t: Seq<u8>)
    ensures
        parse_compact_bytes(s) matches Some((b, n)) ==> n <= s.len() && b.len() < u32::MAX
            && parse_compact_bytes(s + t) == Some((b, n)),
{
    lemma_uvarint_extend(s, t);
    if let Some((l, n)) = parse_uvarint(s) {
        if l >= 1 && n + (l - 1) <= s.len() {
            assert((s + t).subrange(n as int, (n + l - 1) as int) =~= s.subrange(
                n as int,
                (n + l - 1) as int,
            ));
        }
    }
}

pub proof fn lemma_compact_str_extend(s: Seq<u8>, t: Seq<u8>)
    ensures
        parse_compact_str(s) matches Some((x, n)) ==> n <= s.len() && str_fits(x)
            && parse_compact_str(s + t) == Some((x, n)),
{
    broadcast use decode_utf8_encode_utf8;

    lemma_compact_bytes_extend(s, t);
}

#[verifier::spinoff_prover]
#[verifier::rlimit(40)]
proof fn lemma_strs_extend(count: nat, s: Seq<u8>, t: Seq<u8>)
    ensures
        parse_strs(count, s) matches Some((ss, n)) ==> n <= s.len() && ss.len() == count
            && strs_fit(ss) && parse_strs(count, s + t) == Some((ss, n)),
    decreases count,
{
    if count > 0 {
        lemma_compact_str_extend(s, t);
        if let Some((x, n)) = parse_compact_str(s) {
            assert((s + t).skip(n as int) =~= s.skip(n as int) + t);
            lemma_strs_extend((count - 1) as nat, s.skip(n as int), t);
            if let Some((xs, m)) = parse_strs((count - 1) as nat, s.skip(n as int)) {
                let ss = seq![x] + xs;
                assert forall|i: int| 0 <= i < ss.len() implies #[trigger] str_fits(ss[i]) by {
                    if i > 0 {
                        assert(ss[i] == xs[i - 1]);
                    }
                }
            }
        }
    }
}

#[verifier::spinoff_prover]
#[verifier::rlimit(40)]
proof fn lemma_tags_extend(count: nat, min_tag: nat, s: Seq<u8>, t: Seq<u8>)
    ensures
        parse_tags(count, min_tag, s) matches Some((ts, n)) ==> n <= s.len() && ts.len() == count
            && tags_ascending_from(ts, min_tag) && tag_bodies_fit(ts) && parse_tags(
            count,
            min_tag,
            s + t,
        ) == Some((ts, n)),
    decreases count,
{
    if count > 0 {
        lemma_uvarint_extend(s, t);
        if let Some((tag, n1)) = parse_uvarint(s) {
            assert((s + t).skip(n1 as int) =~= s.skip(n1 as int) + t);
            lemma_uvarint_extend(s.skip(n1 as int), t);
            if let Some((len, n2)) = parse_uvarint(s.skip(n1 as int)) {
                if tag >= min_tag && n1 + n2 + len <= s.len() {
                    let e = (n1 + n2 + len) as int;
                    assert((s + t).subrange((n1 + n2) as int, e) =~= s.subrange(
                        (n1 + n2) as int,
                        e,
                    ));
                    assert((s + t).skip(e) =~= s.skip(e) + t);
                    lemma_tags_extend((count - 1) as nat, tag + 1, s.skip(e), t);
                    if let Some((ts, m)) = parse_tags((count - 1) as nat, tag + 1, s.skip(e)) {
                        let all = seq![(tag as u32, s.subrange((n1 + n2) as int, e))] + ts;
                        assert(all.drop_first() =~= ts);
                        assert forall|i: int| 0 <= i < all.len() implies #[trigger] all[i].1.len()
                            <= u32::MAX by {
                            if i > 0 {
                                assert(all[i] == ts[i - 1]);
                            }
                        }
                    }
                }
            }
        }
    }
}

#[verifier::spinoff_prover]
#[verifier::rlimit(40)]
proof fn lemma_int_field_extend(k: FieldKind, s: Seq<u8>, t: Seq<u8>)
    requires
        k is Int8 || k is Int16 || k is Int32 || k is Int64 || k is Uuid || k is Bool,
    ensures
        parse_field(k, s) matches Some((v, n)) ==> n <= s.len() && conforms(k, v) && parse_field(
            k,
            s + t,
        ) == Some((v, n)),
{
    reveal(parse_field);
    lemma_pow256_values();
    let w: int = match k {
        FieldKind::Int8 => 1,
        FieldKind::Int16 => 2,
        FieldKind::Int32 => 4,
        FieldKind::Int64 => 8,
        FieldKind::Uuid => 16,
        _ => 1,
    };
    if s.len() >= w {
        assert((s + t).take(w) =~= s.take(w));
    }
}

#[verifier::spinoff_prover]
#[verifier::rlimit(40)]
proof fn lemma_str_field_extend(k: FieldKind, s: Seq<u8>, t: Seq<u8>)
    requires
        k is Str || k is NullableStr || k is Bytes,
    ensures
        parse_field(k, s) matches Some((v, n)) ==> n <= s.len() && conforms(k, v) && parse_field(
            k,
            s + t,
        ) == Some((v, n)),
{
    reveal(parse_field);
    lemma_uvarint_extend(s, t);
    lemma_compact_str_extend(s, t);
    lemma_compact_bytes_extend(s, t);
}

proof fn lemma_strarray_field_extend(s: Seq<u8>, t: Seq<u8>)
    ensures
        parse_field(FieldKind::StrArray, s) matches Some((v, n)) ==> n <= s.len() && conforms(
            FieldKind::StrArray,
            v,
        ) && parse_field(FieldKind::StrArray, s + t) == Some((v, n)),
{
    reveal(parse_field);
    lemma_uvarint_extend(s, t);
    if let Some((c, n)) = parse_uvarint(s) {
        assert((s + t).skip(n as int) =~= s.skip(n as int) + t);
        if c >= 1 {
            lemma_strs_extend((c - 1) as nat, s.skip(n as int), t);
        }
    }
}

proof fn lemma_tags_field_extend(s: Seq<u8>, t: Seq<u8>)
    ensures
        parse_field(FieldKind::Tags, s) matches Some((v, n)) ==> n <= s.len() && conforms(
            FieldKind::Tags,
            v,
        ) && parse_field(FieldKind::Tags, s + t) == Some((v, n)),
{
    reveal(parse_field);
    lemma_uvarint_extend(s, t);
    if let Some((c, n)) = parse_uvarint(s) {
        assert((s + t).skip(n as int) =~= s.skip(n as int) + t);
        lemma_tags_extend(c, 0, s.skip(n as int), t);
    }
}

/// What a read of a field gives back is well formed, never takes more bytes
/// than it was given, and does not change when more bytes follow.
pub proof fn lemma_field_extend(k: FieldKind, s: Seq<u8>, t: Seq<u8>)
    ensures
        parse_field(k, s) matches Some((v, n)) ==> n <= s.len() && conforms(k, v) && parse_field(
            k,
            s + t,
        ) == Some((v, n)),
    decreases k, 0nat,
{
    reveal(parse_field);
    if k is Structs {
        let ks = k->Structs_0;
        lemma_uvarint_extend(s, t);
        if let Some((c, n)) = parse_uvarint(s) {
            assert((s + t).skip(n as int) =~= s.skip(n as int) + t);
            if c >= 1 {
                lemma_records_extend(ks, (c - 1) as nat, s.skip(n as int), t);
            }
        }
    } else if k is StrArray {
        lemma_strarray_field_extend(s, t);
    } else if k is Tags {
        lemma_tags_field_extend(s, t);
    } else if k is Str || k is NullableStr || k is Bytes {
        lemma_str_field_extend(k, s, t);
    } else {
        lemma_int_field_extend(k, s, t);
    }
}

pub proof fn lemma_record_extend(ks: Seq<FieldKind>, s: Seq<u8>, t: Seq<u8>)
    ensures
        parse_record(ks, s) matches Some((vs, n)) ==> n <= s.len() && conforms_record(ks, vs)
            && parse_record(ks, s + t) == Some((vs, n)),
    decreases ks, 0nat,
{
    reveal(parse_field);
    if ks.len() > 0 {
        lemma_field_extend(ks[0], s, t);
        if let Some((v, n)) = parse_field(ks[0], s) {
            assert((s + t).skip(n as int) =~= s.skip(n as int) + t);
            lemma_record_extend(ks.drop_first(), s.skip(n as int), t);
            if let Some((vs, m)) = parse_record(ks.drop_first(), s.skip(n as int)) {
                assert((seq![v] + vs).drop_first() =~= vs);
            }
        }
    }
}

pub proof fn lemma_records_extend(ks: Seq<FieldKind>, count: nat, s: Seq<u8>, t: Seq<u8>)
    ensures
        parse_records(ks, count, s) matches Some((rs, n)) ==> n <= s.len() && rs.len() == count
            && conforms_records(ks, rs) && parse_records(ks, count, s + t) == Some((rs, n)),
    decreases ks, count,
{
    if count > 0 {
        lemma_record_extend(ks, s, t);
        if let Some((r, n)) = parse_record(ks, s) {
            assert((s + t).skip(n as int) =~= s.skip(n as int) + t);
            lemma_records_extend(ks, (count - 1) as nat, s.skip(n as int), t);
            if let Some((rs, m)) = parse_records(ks, (count - 1) as nat, s.skip(n as int)) {
                assert((seq![r] + rs).drop_first() =~= rs);
            }
        }
    }
}


// ---------------------------------------------------------------------------
// Lemmas: the runs of strings, tags, fields and records split anywhere
// ---------------------------------------------------------------------------

pub proof fn lemma_encode_strs_split(ss: Seq<Seq<char>>, i: int)
    requires
        0 <= i <= ss.len(),
    ensures
        encode_strs(ss) == encode_strs(ss.take(i)) + encode_strs(ss.skip(i)),
    decreases i,
{
    if i == 0 {
        assert(ss.skip(0) =~= ss);
        assert(encode_strs(ss.take(0)) =~= Seq::<u8>::empty());
    } else {
        lemma_encode_strs_split(ss.drop_first(), i - 1);
        assert(ss.drop_first().skip(i - 1) =~= ss.skip(i));
        assert(ss.take(i).drop_first() =~= ss.drop_first().take(i - 1));
        assert(encode_strs(ss) =~= encode_strs(ss.take(i)) + encode_strs(ss.skip(i)));
    }
}

pub proof fn lemma_encode_strs_take(ss: Seq<Seq<char>>, i: int)
    requires
        0 <= i < ss.len(),
    ensures
        encode_strs(ss.take(i + 1)) == encode_strs(ss.take(i)) + compact_str(ss[i]),
{
    let t = ss.take(i + 1);
    lemma_encode_strs_split(t, i);
    assert(t.take(i) =~= ss.take(i));
    assert(t.skip(i) =~= seq![ss[i]]);
    assert(encode_strs(seq![ss[i]]) =~= compact_str(ss[i])) by {
        assert(seq![ss[i]].drop_first() =~= Seq::<Seq<char>>::empty());
        assert(encode_strs(seq![ss[i]].drop_first()) =~= Seq::<u8>::empty());
        assert(seq![ss[i]][0] == ss[i]);
    }
}

pub proof fn lemma_encode_tags_split(ts: Seq<(u32, Seq<u8>)>, i: int)
    requires
        0 <= i <= ts.len(),
    ensures
        encode_tags(ts) == encode_tags(ts.take(i)) + encode_tags(ts.skip(i)),
    decreases i,
{
    if i == 0 {
        assert(ts.skip(0) =~= ts);
        assert(encode_tags(ts.take(0)) =~= Seq::<u8>::empty());
    } else {
        lemma_encode_tags_split(ts.drop_first(), i - 1);
        assert(ts.drop_first().skip(i - 1) =~= ts.skip(i));
        assert(ts.take(i).drop_first() =~= ts.drop_first().take(i - 1));
        assert(encode_tags(ts) =~= encode_tags(ts.take(i)) + encode_tags(ts.skip(i)));
    }
}

pub proof fn lemma_encode_tags_take(ts: Seq<(u32, Seq<u8>)>, i: int)
    requires
        0 <= i < ts.len(),
    ensures
        encode_tags(ts.take(i + 1)) == encode_tags(ts.take(i)) + encode_tag(ts[i]),
{
    let t = ts.take(i + 1);
    lemma_encode_tags_split(t, i);
    assert(t.take(i) =~= ts.take(i));
    assert(t.skip(i) =~= seq![ts[i]]);
    assert(encode_tags(seq![ts[i]]) =~= encode_tag(ts[i])) by {
        assert(seq![ts[i]].drop_first() =~= Seq::<(u32, Seq<u8>)>::empty());
        assert(encode_tags(seq![ts[i]].drop_first()) =~= Seq::<u8>::empty());
        assert(seq![ts[i]][0] == ts[i]);
    }
}

pub proof fn lemma_encode_records_split(rs: Seq<Seq<FieldValue>>, i: int)
    requires
        0 <= i <= rs.len(),
    ensures
        encode_records(rs) == encode_records(rs.take(i)) + encode_records(rs.skip(i)),
    decreases i,
{
    if i == 0 {
        assert(rs.skip(0) =~= rs);
        assert(encode_records(rs.take(0)) =~= Seq::<u8>::empty());
    } else {
        lemma_encode_records_split(rs.drop_first(), i - 1);
        assert(rs.drop_first().skip(i - 1) =~= rs.skip(i));
        assert(rs.take(i).drop_first() =~= rs.drop_first().take(i - 1));
        assert(encode_records(rs) =~= encode_records(rs.take(i)) + encode_records(rs.skip(i)));
    }
}

pub proof fn lemma_encode_records_take(rs: Seq<Seq<FieldValue>>, i: int)
    requires
        0 <= i < rs.len(),
    ensures
        encode_records(rs.take(i + 1)) == encode_records(rs.take(i)) + encode_record(rs[i]),
{
    let t = rs.take(i + 1);
    lemma_encode_records_split(t, i);
    assert(t.take(i) =~= rs.take(i));
    assert(t.skip(i) =~= seq![rs[i]]);
    assert(encode_records(seq![rs[i]]) =~= encode_record(rs[i])) by {
        assert(seq![rs[i]].drop_first() =~= Seq::<Seq<FieldValue>>::empty());
        assert(encode_records(seq![rs[i]].drop_first()) =~= Seq::<u8>::empty());
        assert(seq![rs[i]][0] == rs[i]);
    }
}


/// A run of records is well formed exactly when each record is.
pub proof fn lemma_conforms_records_index(ks: Seq<FieldKind>, rs: Seq<Seq<FieldValue>>)
    ensures
        conforms_records(ks, rs) <==> forall|i: int|
            0 <= i < rs.len() ==> #[trigger] conforms_record(ks, rs[i]),
    decreases rs.len(),
{
    if rs.len() > 0 {
        let df = rs.drop_first();
        lemma_conforms_records_index(ks, df);
        let all = forall|i: int| 0 <= i < rs.len() ==> #[trigger] conforms_record(ks, rs[i]);
        let rest = forall|i: int| 0 <= i < df.len() ==> #[trigger] conforms_record(ks, df[i]);
        if all {
            assert forall|i: int| 0 <= i < df.len() implies #[trigger] conforms_record(ks, df[i]) by {
                assert(df[i] == rs[i + 1]);
                assert(conforms_record(ks, rs[i + 1]));
            }
            assert(conforms_record(ks, rs[0]));
            assert(conforms_records(ks, rs));
        }
        if conforms_records(ks, rs) {
            assert(rest);
            assert forall|i: int| 0 <= i < rs.len() implies #[trigger] conforms_record(ks, rs[i]) by {
                if i > 0 {
                    assert(df[i - 1] == rs[i]);
                    assert(conforms_record(ks, df[i - 1]));
                }
            }
        }
    }
}


/// A record is well formed exactly when each of its fields is.
pub proof fn lemma_conforms_record_index(ks: Seq<FieldKind>, vs: Seq<FieldValue>)
    ensures
        conforms_record(ks, vs) <==> (ks.len() == vs.len() && forall|i: int|
            0 <= i < vs.len() ==> #[trigger] conforms(ks[i], vs[i])),
    decreases vs.len(),
{
    if vs.len() > 0 {
        lemma_conforms_record_index(ks.drop_first(), vs.drop_first());
        if ks.len() == vs.len() && forall|i: int|
            0 <= i < vs.len() ==> #[trigger] conforms(ks[i], vs[i]) {
            assert forall|i: int| 0 <= i < vs.drop_first().len() implies #[trigger] conforms(
                ks.drop_first()[i],
                vs.drop_first()[i],
            ) by {
                assert(conforms(ks[i + 1], vs[i + 1]));
            }
            assert(conforms(ks[0], vs[0]));
        }
        if conforms_record(ks, vs) {
            assert forall|i: int| 0 <= i < vs.len() implies #[trigger] conforms(ks[i], vs[i]) by {
                if i > 0 {
                    assert(conforms(ks.drop_first()[i - 1], vs.drop_first()[i - 1]));
                }
            }
        }
    } else {
        assert(vs.len() == 0);
    }
}

/// A record's bytes are its first `i` fields, then the rest.
pub proof fn lemma_encode_record_split(vs: Seq<FieldValue>, i: int)
    requires
        0 <= i <= vs.len(),
    ensures
        encode_record(vs) == encode_record(vs.take(i)) + encode_record(vs.skip(i)),
    decreases i,
{
    if i == 0 {
        assert(vs.skip(0) =~= vs);
        assert(encode_record(vs.take(0)) =~= Seq::<u8>::empty());
    } else {
        lemma_encode_record_split(vs.drop_first(), i - 1);
        assert(vs.drop_first().skip(i - 1) =~= vs.skip(i));
        assert(vs.take(i).drop_first() =~= vs.drop_first().take(i - 1));
        assert(encode_record(vs) =~= encode_record(vs.take(i)) + encode_record(vs.skip(i)));
    }
}


/// The widths of the fixed-width fields.
pub proof fn lemma_fixed_field_len(v: FieldValue)
    ensures
        v is Bool ==> encode_field(v).len() == 1,
        v is Int8 ==> encode_field(v).len() == 1,
        v is Int16 ==> encode_field(v).len() == 2,
        v is Int32 ==> encode_field(v).len() == 4,
        v is Int64 ==> encode_field(v).len() == 8,
        v is Uuid ==> encode_field(v).len() == v->Uuid_0.len(),
{
    match v {
        FieldValue::Int8(x) => lemma_be_bytes(to_unsigned(x as int, 1), 1),
        FieldValue::Int16(x) => lemma_be_bytes(to_unsigned(x as int, 2), 2),
        FieldValue::Int32(x) => lemma_be_bytes(to_unsigned(x as int, 4), 4),
        FieldValue::Int64(x) => lemma_be_bytes(to_unsigned(x as int, 8), 8),
        _ => {},
    }
}


/// A record reads field by field. When the first `i` fields of `ks` read as
/// `vs` in `n` bytes, a failed read of field `i` after them fails the whole
/// record, and a read of field `i` extends the first `i` fields by one.
#[verifier::spinoff_prover]
#[verifier::rlimit(40)]
pub proof fn lemma_record_step(ks: Seq<FieldKind>, s: Seq<u8>, i: int, vs: Seq<FieldValue>, n: nat)
    requires
        0 <= i < ks.len(),
        parse_record(ks.take(i), s) == Some((vs, n)),
    ensures
        n <= s.len(),
        parse_field(ks[i], s.skip(n as int)) is None ==> parse_record(ks, s) is None,
        parse_field(ks[i], s.skip(n as int)) matches Some((v, m)) ==> parse_record(
            ks.take(i + 1),
            s,
        ) == Some((vs.push(v), n + m)),
    decreases i,
{
    if i == 0 {
        assert(vs.len() == 0);
        assert(s.skip(0) =~= s);
        assert(ks.take(0).len() == 0);
        assert(n == 0);
        let t = ks.take(1);
        assert(t[0] == ks[0]);
        assert(t.drop_first() =~= Seq::<FieldKind>::empty());
        if let Some((v, m)) = parse_field(ks[0], s) {
            assert(parse_record(t.drop_first(), s.skip(m as int)) == Some((Seq::<FieldValue>::empty(), 0nat)));
            assert(seq![v] + Seq::<FieldValue>::empty() =~= vs.push(v));
        }
    } else {
        let k0 = ks[0];
        let t = ks.take(i);
        assert(t[0] == k0);
        assert(t.drop_first() =~= ks.drop_first().take(i - 1));
        let (v0, n0) = parse_field(k0, s).unwrap();
        let s1 = s.skip(n0 as int);
        let (vs1, n1) = parse_record(ks.drop_first().take(i - 1), s1).unwrap();
        assert(vs =~= seq![v0] + vs1);
        lemma_field_len(k0, s);
        lemma_record_step(ks.drop_first(), s1, i - 1, vs1, n1);
        assert(s1.skip(n1 as int) =~= s.skip(n as int));
        assert(ks.drop_first()[i - 1] == ks[i]);
        let t2 = ks.take(i + 1);
        assert(t2[0] == k0);
        assert(t2.drop_first() =~= ks.drop_first().take(i));
        if let Some((v, m)) = parse_field(ks[i], s.skip(n as int)) {
            assert(parse_record(ks.drop_first().take(i), s1) == Some((vs1.push(v), n1 + m)));
            assert(seq![v0] + vs1.push(v) =~= vs.push(v));
        }
    }
}

/// A read of a field never takes more bytes than it was given.
pub proof fn lemma_field_len(k: FieldKind, s: Seq<u8>)
    ensures
        parse_field(k, s) matches Some((v, n)) ==> n <= s.len(),
{
    lemma_field_extend(k, s, Seq::empty());
}


/// A record's bytes grow by a field's bytes when the field joins its end.
pub proof fn lemma_encode_record_push(vs: Seq<FieldValue>, v: FieldValue)
    ensures
        encode_record(vs.push(v)) == encode_record(vs) + encode_field(v),
    decreases vs.len(),
{
    if vs.len() == 0 {
        assert(vs.push(v).drop_first() =~= Seq::<FieldValue>::empty());
        assert(vs.push(v)[0] == v);
        assert(encode_record(Seq::<FieldValue>::empty()) =~= Seq::<u8>::empty());
        assert(encode_record(vs) =~= Seq::<u8>::empty());
        assert(encode_record(vs.push(v)) =~= encode_field(v) + Seq::<u8>::empty());
    } else {
        lemma_encode_record_push(vs.drop_first(), v);
        assert(vs.push(v).drop_first() =~= vs.drop_first().push(v));
        assert(encode_record(vs.push(v)) =~= encode_record(vs) + encode_field(v));
    }
}


/// Bytes read as a big-endian number and written back in as many bytes are
/// the same bytes.
pub proof fn lemma_be_value_bytes(s: Seq<u8>)
    ensures
        be_bytes(be_value(s), s.len()) == s,
    decreases s.len(),
{
    if s.len() > 0 {
        let hi = s.drop_last();
        lemma_be_value_bytes(hi);
        let v = be_value(s);
        assert(v == be_value(hi) * 256 + (s.last() as nat));
        assert(v / 256 == be_value(hi) && v % 256 == s.last() as nat) by (nonlinear_arith)
            requires
                v == be_value(hi) * 256 + (s.last() as nat),
                s.last() < 256,
        ;
        assert(be_bytes(v, s.len()) =~= hi.push(s.last()));
        assert(hi.push(s.last()) =~= s);
    }
}


/// A value that a read accepts can be written.
pub proof fn lemma_conforms_writable(k: FieldKind, v: FieldValue)
    requires
        conforms(k, v),
    ensures
        writable(k, v),
    decreases v, 0nat,
{
    if let FieldValue::Structs(rs) = v {
        lemma_conforms_writable_records(k->Structs_0, rs);
    }
}

/// A record that a read accepts can be written.
pub proof fn lemma_conforms_writable_record(ks: Seq<FieldKind>, vs: Seq<FieldValue>)
    requires
        conforms_record(ks, vs),
    ensures
        writable_record(ks, vs),
    decreases vs, 0nat,
{
    if vs.len() > 0 {
        lemma_conforms_writable(ks[0], vs[0]);
        lemma_conforms_writable_record(ks.drop_first(), vs.drop_first());
    }
}

/// Records that a read accepts can be written.
pub proof fn lemma_conforms_writable_records(ks: Seq<FieldKind>, rs: Seq<Seq<FieldValue>>)
    requires
        conforms_records(ks, rs),
    ensures
        writable_records(ks, rs),
    decreases rs, 0nat,
{
    if rs.len() > 0 {
        lemma_conforms_writable_record(ks, rs[0]);
        lemma_conforms_writable_records(ks, rs.drop_first());
    }
}

pub proof fn lemma_writable_records_index(ks: Seq<FieldKind>, rs: Seq<Seq<FieldValue>>)
    ensures
        writable_records(ks, rs) <==> forall|i: int|
            0 <= i < rs.len() ==> #[trigger] writable_record(ks, rs[i]),
    decreases rs.len(),
{
    if rs.len() > 0 {
        let df = rs.drop_first();
        lemma_writable_records_index(ks, df);
        let all = forall|i: int| 0 <= i < rs.len() ==> #[trigger] writable_record(ks, rs[i]);
        let rest = forall|i: int| 0 <= i < df.len() ==> #[trigger] writable_record(ks, df[i]);
        if all {
            assert forall|i: int| 0 <= i < df.len() implies #[trigger] writable_record(ks, df[i]) by {
                assert(df[i] == rs[i + 1]);
                assert(writable_record(ks, rs[i + 1]));
            }
            assert(writable_record(ks, rs[0]));
            assert(writable_records(ks, rs));
        }
        if writable_records(ks, rs) {
            assert(rest);
            assert forall|i: int| 0 <= i < rs.len() implies #[trigger] writable_record(ks, rs[i]) by {
                if i > 0 {
                    assert(df[i - 1] == rs[i]);
                    assert(writable_record(ks, df[i - 1]));
                }
            }
        }
    }
}

pub proof fn lemma_writable_record_index(ks: Seq<FieldKind>, vs: Seq<FieldValue>)
    ensures
        writable_record(ks, vs) <==> (ks.len() == vs.len() && forall|i: int|
            0 <= i < vs.len() ==> #[trigger] writable(ks[i], vs[i])),
    decreases vs.len(),
{
    if vs.len() > 0 {
        lemma_writable_record_index(ks.drop_first(), vs.drop_first());
        if ks.len() == vs.len() && forall|i: int|
            0 <= i < vs.len() ==> #[trigger] writable(ks[i], vs[i]) {
            assert forall|i: int| 0 <= i < vs.drop_first().len() implies #[trigger] writable(
                ks.drop_first()[i],
                vs.drop_first()[i],
            ) by {
                assert(writable(ks[i + 1], vs[i + 1]));
            }
            assert(writable(ks[0], vs[0]));
        }
        if writable_record(ks, vs) {
            assert forall|i: int| 0 <= i < vs.len() implies #[trigger] writable(ks[i], vs[i]) by {
                if i > 0 {
                    assert(writable(ks.drop_first()[i - 1], vs.drop_first()[i - 1]));
                }
            }
        }
    } else {
        assert(vs.len() == 0);
    }
}

/// `pow256(w)` is positive.
proof fn lemma_pow256_positive(w: nat)
    ensures
        pow256(w) > 0,
    decreases w,
{
    if w > 0 {
        lemma_pow256_positive((w - 1) as nat);
    }
}

/// Fixed-width integers go most significant byte first: byte `i` of the
/// `w`-byte form of `n` is the base-256 digit of `n` of weight
/// `256^(w - 1 - i)`.
pub proof fn lemma_be_bytes_most_significant_first(n: nat, w: nat, i: int)
    requires
        0 <= i < w,
    ensures
        be_bytes(n, w).len() == w,
        be_bytes(n, w)[i] == (n / pow256((w - 1 - i) as nat)) % 256,
    decreases w,
{
    lemma_be_bytes(n, w);
    lemma_be_bytes(n / 256, (w - 1) as nat);
    let low = be_bytes(n / 256, (w - 1) as nat);
    assert(be_bytes(n, w) == low.push((n % 256) as u8));
    if i == w - 1 {
        assert(pow256(0) == 1);
        assert(be_bytes(n, w)[i] == (n % 256) as u8);
        assert((w - 1 - i) as nat == 0nat);
        assert(n / 1 == n) by (nonlinear_arith);
        assert(be_bytes(n, w)[i] == (n / pow256((w - 1 - i) as nat)) % 256);
    } else {
        lemma_be_bytes_most_significant_first(n / 256, (w - 1) as nat, i);
        assert(be_bytes(n, w)[i] == low[i]);
        let p = pow256((w - 2 - i) as nat);
        lemma_pow256_positive((w - 2 - i) as nat);
        assert(((w - 1) as nat - 1 - i) as nat == (w - 2 - i) as nat);
        assert(low[i] == ((n / 256) / p) % 256);
        vstd::arithmetic::div_mod::lemma_div_denominator(n as int, 256, p as int);
        assert(pow256((w - 1 - i) as nat) == 256 * p);
        assert(be_bytes(n, w)[i] == (n / pow256((w - 1 - i) as nat)) % 256);
    }
}

} // verus!
