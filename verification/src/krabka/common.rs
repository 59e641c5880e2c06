//! The codec contract that every krabka-private message meets, and the helpers
//! that give the compact-array framing.

use vstd::prelude::*;

use crate::error::ProtocolError;
use crate::primitives::{get_uvarint, put_uvarint, uvarint_len};
use crate::wire::{
    conforms_record, encode_field, encode_record, encode_records, lemma_conforms_writable_record,
    lemma_encode_records_split, lemma_encode_records_take, lemma_fixed_field_len,
    lemma_record_extend, lemma_record_roundtrip, lemma_writable_record_index,
    lemma_writable_records_index, parse_field, parse_record, parse_records, parse_uvarint, uvarint,
    writable, writable_record, writable_records, FieldKind, FieldValue,
};

verus! {

/// Encoded width of a `bool` field.
pub const BOOL_LEN: usize = 1;

/// Encoded width of an `i8` field.
pub const I8_LEN: usize = 1;

/// Encoded width of an `i16` field.
pub const I16_LEN: usize = 2;

/// Encoded width of an `i32` field.
pub const I32_LEN: usize = 4;

/// Encoded width of an `i64` field.
pub const I64_LEN: usize = 8;

/// Encoded width of a UUID field.
pub const UUID_LEN: usize = 16;

/// A record with a codec: a message or a struct nested inside one.
///
/// `kinds` is the shape of the record and `fields` its values. A write puts
/// down `encode_record(fields)`, and a read gives back what `parse_record`
/// makes of the bytes. A nested struct speaks every version, a top-level
/// message only the versions it declares.
pub trait Wire: Sized {
    /// The shape of the record on the wire.
    spec fn kinds() -> Seq<FieldKind>;

    /// The values of the record, field by field.
    spec fn fields(&self) -> Seq<FieldValue>;

    /// Whether the record speaks `version`.
    spec fn supports(version: i16) -> bool;

    /// The api key that an unsupported version is reported under.
    spec fn api_key() -> i16;

    /// Appends the record to `buf`.
    fn encode(&self, buf: &mut Vec<u8>, version: i16) -> (res: Result<(), ProtocolError>)
        requires
            Self::supports(version) ==> writable_record(Self::kinds(), self.fields()),
        ensures
            Self::supports(version) ==> res is Ok && final(buf)@ == old(buf)@ + encode_record(
                self.fields(),
            ),
            !Self::supports(version) ==> res == Err::<(), ProtocolError>(
                ProtocolError::UnsupportedVersion { api_key: Self::api_key(), version },
            ) && final(buf)@ == old(buf)@,
    ;

    /// The byte count that [`Wire::encode`] writes.
    fn encoded_len(&self, version: i16) -> (n: usize)
        requires
            writable_record(Self::kinds(), self.fields()),
            encode_record(self.fields()).len() <= usize::MAX,
        ensures
            n == encode_record(self.fields()).len(),
    ;

    /// Reads the record that starts at `pos`, and returns it with the position
    /// after it.
    fn decode(buf: &[u8], pos: usize, version: i16) -> (res: Result<(Self, usize), ProtocolError>)
        requires
            pos <= buf@.len(),
        ensures
            !Self::supports(version) ==> res == Err::<(Self, usize), ProtocolError>(
                ProtocolError::UnsupportedVersion { api_key: Self::api_key(), version },
            ),
            Self::supports(version) ==> match parse_record(Self::kinds(), buf@.skip(pos as int)) {
                Some((vs, n)) => res matches Ok((v, p)) && v.fields() == vs && p == pos + n,
                None => res == Err::<(Self, usize), ProtocolError>(ProtocolError::Malformed),
            },
    ;
}

/// The field values of each record of `items`.
pub open spec fn records_of<T: Wire>(items: Seq<T>) -> Seq<Seq<FieldValue>> {
    items.map_values(|x: T| x.fields())
}

/// `items` can go on the wire as a compact array of nested records.
pub open spec fn array_writable<T: Wire>(items: Seq<T>) -> bool {
    items.len() < u32::MAX && writable_records(T::kinds(), records_of(items))
}

/// Rejects a version outside the range that a message type supports.
pub fn check_version(api_key: i16, version: i16, min: i16, max: i16) -> (res: Result<
    (),
    ProtocolError,
>)
    ensures
        res == if min <= version <= max {
            Ok::<(), ProtocolError>(())
        } else {
            Err(ProtocolError::UnsupportedVersion { api_key, version })
        },
{
    if min <= version && version <= max {
        Ok(())
    } else {
        Err(ProtocolError::UnsupportedVersion { api_key, version })
    }
}

/// Writes a compact array of nested records, and each record after it.
pub fn encode_array<T: Wire>(buf: &mut Vec<u8>, items: &[T], version: i16) -> (res: Result<
    (),
    ProtocolError,
>)
    requires
        T::supports(version),
        array_writable(items@),
    ensures
        res is Ok,
        final(buf)@ == old(buf)@ + encode_field(FieldValue::Structs(records_of(items@))),
{
    let ghost rs = records_of(items@);
    proof {
        lemma_writable_records_index(T::kinds(), rs);
    }
    put_uvarint(buf, (items.len() + 1) as u32);
    let ghost start = buf@;
    let mut i: usize = 0;
    while i < items.len()
        invariant
            i <= items@.len(),
            rs == records_of(items@),
            T::supports(version),
            forall|j: int| 0 <= j < rs.len() ==> #[trigger] writable_record(T::kinds(), rs[j]),
            buf@ == start + encode_records(rs.take(i as int)),
        decreases items@.len() - i,
    {
        proof {
            lemma_encode_records_take(rs, i as int);
            assert(writable_record(T::kinds(), rs[i as int]));
        }
        let _ = items[i].encode(buf, version);
        i = i + 1;
    }
    assert(rs.take(items@.len() as int) =~= rs);
    assert(buf@ =~= old(buf)@ + encode_field(FieldValue::Structs(rs)));
    Ok(())
}

/// Byte count that [`encode_array`] writes.
pub fn array_len<T: Wire>(items: &[T], version: i16) -> (n: usize)
    requires
        array_writable(items@),
        encode_field(FieldValue::Structs(records_of(items@))).len() <= usize::MAX,
    ensures
        n == encode_field(FieldValue::Structs(records_of(items@))).len(),
{
    let ghost rs = records_of(items@);
    proof {
        lemma_writable_records_index(T::kinds(), rs);
    }
    let mut total = uvarint_len((items.len() + 1) as u32);
    let mut i: usize = 0;
    while i < items.len()
        invariant
            i <= items@.len(),
            rs == records_of(items@),
            forall|j: int| 0 <= j < rs.len() ==> #[trigger] writable_record(T::kinds(), rs[j]),
            total == uvarint((items@.len() + 1) as nat).len() + encode_records(
                rs.take(i as int),
            ).len(),
            uvarint((items@.len() + 1) as nat).len() + encode_records(rs).len() <= usize::MAX,
        decreases items@.len() - i,
    {
        proof {
            lemma_encode_records_take(rs, i as int);
            lemma_encode_records_split(rs, i + 1);
            assert(writable_record(T::kinds(), rs[i as int]));
        }
        total = total + items[i].encoded_len(version);
        i = i + 1;
    }
    assert(rs.take(items@.len() as int) =~= rs);
    total
}

/// Reads a compact array of nested records.
pub fn decode_array<T: Wire>(buf: &[u8], pos: usize, version: i16) -> (res: Result<
    (Vec<T>, usize),
    ProtocolError,
>)
    requires
        pos <= buf@.len(),
        T::supports(version),
    ensures
        res matches Ok((_, p)) ==> p <= buf@.len(),
        match parse_field(FieldKind::Structs(T::kinds()), buf@.skip(pos as int)) {
            Some((v, n)) => res matches Ok((x, p)) && v == FieldValue::Structs(records_of(x@)) && p
                == pos + n,
            None => res == Err::<(Vec<T>, usize), ProtocolError>(ProtocolError::Malformed),
        },
{
    proof {
        reveal(parse_field);
    }
    let (c, start) = get_uvarint(buf, pos)?;
    if c < 1 {
        return Err(ProtocolError::Malformed);
    }
    let count = c - 1;
    let ghost s0 = buf@.skip(start as int);
    assert(buf@.skip(pos as int).skip((start - pos) as int) =~= s0);
    let mut items: Vec<T> = Vec::new();
    let mut p = start;
    let mut i: u32 = 0;
    while i < count
        invariant
            start <= p <= buf@.len(),
            i <= count,
            T::supports(version),
            s0 == buf@.skip(start as int),
            pos < start,
            buf@.skip(pos as int).skip((start - pos) as int) == s0,
            parse_uvarint(buf@.skip(pos as int)) == Some(((count + 1) as nat, (start - pos) as nat)),
            parse_records(T::kinds(), count as nat, s0) == match parse_records(
                T::kinds(),
                (count - i) as nat,
                buf@.skip(p as int),
            ) {
                Some((rs, m)) => Some((records_of(items@) + rs, ((p - start) + m) as nat)),
                None => None::<(Seq<Seq<FieldValue>>, nat)>,
            },
        decreases count - i,
    {
        proof {
            reveal(parse_field);
        }
        let ghost before = records_of(items@);
        let ghost sp = buf@.skip(p as int);
        let (x, next) = match T::decode(buf, p, version) {
            Ok(r) => r,
            Err(e) => {
                assert(parse_records(T::kinds(), (count - i) as nat, sp) is None);
                return Err(e);
            },
        };
        proof {
            lemma_record_extend(T::kinds(), sp, Seq::empty());
            assert(sp + Seq::<u8>::empty() =~= sp);
        }
        assert(sp.skip((next - p) as int) =~= buf@.skip(next as int));
        let ghost xf = x.fields();
        items.push(x);
        assert(records_of(items@) =~= before.push(xf));
        assert forall|rs: Seq<Seq<FieldValue>>| true implies before + (seq![xf] + rs)
            =~= records_of(items@) + rs by {}
        p = next;
        i = i + 1;
    }
    assert(records_of(items@) + Seq::<Seq<FieldValue>>::empty() =~= records_of(items@));
    Ok((items, p))
}


/// Each field of a writable record is writable, and a fixed-width field takes
/// its width.
pub proof fn lemma_record_fields(ks: Seq<FieldKind>, vs: Seq<FieldValue>)
    requires
        writable_record(ks, vs),
    ensures
        ks.len() == vs.len(),
        forall|i: int| 0 <= i < vs.len() ==> #[trigger] writable(ks[i], vs[i]),
        forall|i: int|
            0 <= i < vs.len() ==> {
                &&& vs[i] is Bool ==> encode_field(vs[i]).len() == 1
                &&& vs[i] is Int8 ==> encode_field(vs[i]).len() == 1
                &&& vs[i] is Int16 ==> encode_field(vs[i]).len() == 2
                &&& vs[i] is Int32 ==> encode_field(vs[i]).len() == 4
                &&& vs[i] is Int64 ==> encode_field(vs[i]).len() == 8
                &&& vs[i] is Uuid ==> encode_field(vs[i]).len() == 16
            },
{
    lemma_writable_record_index(ks, vs);
    assert forall|i: int| 0 <= i < vs.len() implies {
        &&& vs[i] is Bool ==> encode_field(vs[i]).len() == 1
        &&& vs[i] is Int8 ==> encode_field(vs[i]).len() == 1
        &&& vs[i] is Int16 ==> encode_field(vs[i]).len() == 2
        &&& vs[i] is Int32 ==> encode_field(vs[i]).len() == 4
        &&& vs[i] is Int64 ==> encode_field(vs[i]).len() == 8
        &&& vs[i] is Uuid ==> encode_field(vs[i]).len() == 16
    } by {
        lemma_fixed_field_len(vs[i]);
        assert(writable(ks[i], vs[i]));
    }
}

/// A written record reads back as itself: the read gives back every field and
/// takes exactly the bytes that the write put down, whatever follows them.
pub proof fn lemma_wire_roundtrip<T: Wire>(x: T, rest: Seq<u8>)
    requires
        conforms_record(T::kinds(), x.fields()),
    ensures
        parse_record(T::kinds(), encode_record(x.fields()) + rest) == Some(
            (x.fields(), encode_record(x.fields()).len()),
        ),
{
    lemma_record_roundtrip(T::kinds(), x.fields(), rest);
}

/// A read of any strict prefix of a written record fails: no prefix holds a
/// whole record.
pub proof fn lemma_wire_truncated<T: Wire>(x: T, end: int)
    requires
        conforms_record(T::kinds(), x.fields()),
        0 <= end < encode_record(x.fields()).len(),
    ensures
        parse_record(T::kinds(), encode_record(x.fields()).take(end)) is None,
{
    let e = encode_record(x.fields());
    let p = e.take(end);
    let rest = e.skip(end);
    assert(p + rest =~= e);
    lemma_record_roundtrip(T::kinds(), x.fields(), Seq::empty());
    assert(e + Seq::<u8>::empty() =~= e);
    lemma_record_extend(T::kinds(), p, rest);
}

/// Whatever a read accepts can be written again: the fields that it gives back
/// are well formed and writable, and it takes no more bytes than it was given.
pub proof fn lemma_wire_decoded_conforms<T: Wire>(s: Seq<u8>)
    ensures
        parse_record(T::kinds(), s) matches Some((vs, n)) ==> n <= s.len() && conforms_record(
            T::kinds(),
            vs,
        ) && writable_record(T::kinds(), vs),
{
    lemma_record_extend(T::kinds(), s, Seq::empty());
    if let Some((vs, n)) = parse_record(T::kinds(), s) {
        lemma_conforms_writable_record(T::kinds(), vs);
    }
}

} // verus!
