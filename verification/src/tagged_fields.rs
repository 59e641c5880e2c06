//! The tagged-fields trailer of a flexible message, and the tags that this
//! build does not know.

use vstd::prelude::*;
use vstd::slice::{slice_subrange, slice_to_vec};

use crate::error::ProtocolError;
use crate::primitives::{get_uvarint, put_slice, put_uvarint, uvarint_len};
use crate::wire::{
    encode_field, encode_tag, encode_tags, lemma_encode_tags_split, lemma_encode_tags_take,
    parse_field, parse_tags, parse_uvarint, tag_bodies_fit, tags_ascending_from, uvarint, FieldKind,
    FieldValue,
};

verus! {

/// One tagged field that this build does not know, kept verbatim.
#[derive(Debug, Clone, PartialEq, Eq)]
pub struct UnknownTaggedField {
    /// The tag number.
    pub tag: u32,
    /// The payload, exactly as it was read.
    pub bytes: Vec<u8>,
}

/// Every tagged field of a message that this build does not know, in the
/// ascending tag order in which a decode found them.
#[derive(Debug, Clone, PartialEq, Eq)]
pub struct UnknownTaggedFields(pub Vec<UnknownTaggedField>);

impl View for UnknownTaggedFields {
    type V = Seq<(u32, Seq<u8>)>;

    open spec fn view(&self) -> Seq<(u32, Seq<u8>)> {
        self.0@.map_values(|f: UnknownTaggedField| (f.tag, f.bytes@))
    }
}

impl Default for UnknownTaggedFields {
    /// No unknown tagged field.
    fn default() -> (r: Self)
        ensures
            r@ == Seq::<(u32, Seq<u8>)>::empty(),
    {
        let r = UnknownTaggedFields(Vec::new());
        assert(r@ =~= Seq::<(u32, Seq<u8>)>::empty());
        r
    }
}

impl UnknownTaggedFields {
    /// The trailer can go on the wire: the tags ascend and every length fits
    /// its varint.
    pub open spec fn well_formed(&self) -> bool {
        self.fits() && tags_ascending_from(self@, 0)
    }

    /// The trailer can be written: its count and every length fit their
    /// varints. A writer puts the tags down in the order they come.
    pub open spec fn fits(&self) -> bool {
        self@.len() <= u32::MAX && tag_bodies_fit(self@)
    }
}

/// Writes the tagged-fields trailer. A krabka-private message declares no known
/// tag, so the trailer holds only the tags that this build did not recognize.
pub fn write_unknown_tagged_fields(buf: &mut Vec<u8>, unknown: &UnknownTaggedFields)
    requires
        unknown.fits(),
    ensures
        final(buf)@ == old(buf)@ + encode_field(FieldValue::Tags(unknown@)),
{
    let ghost view = unknown@;
    let fields = &unknown.0;
    put_uvarint(buf, fields.len() as u32);
    let ghost start = buf@;
    let mut i: usize = 0;
    while i < fields.len()
        invariant
            i <= fields@.len(),
            view == unknown@,
            fields == &unknown.0,
            tag_bodies_fit(view),
            buf@ == start + encode_tags(view.take(i as int)),
        decreases fields@.len() - i,
    {
        proof {
            lemma_encode_tags_take(view, i as int);
            assert(view[i as int].1.len() <= u32::MAX);
        }
        let f = &fields[i];
        put_uvarint(buf, f.tag);
        put_uvarint(buf, f.bytes.len() as u32);
        put_slice(buf, f.bytes.as_slice());
        assert(buf@ =~= start + encode_tags(view.take(i as int)) + encode_tag(view[i as int]));
        i = i + 1;
    }
    assert(view.take(fields@.len() as int) =~= view);
    assert(buf@ =~= old(buf)@ + encode_field(FieldValue::Tags(view)));
}

/// Byte count that [`write_unknown_tagged_fields`] writes.
pub fn unknown_tagged_fields_len(unknown: &UnknownTaggedFields) -> (n: usize)
    requires
        unknown.fits(),
        encode_field(FieldValue::Tags(unknown@)).len() <= usize::MAX,
    ensures
        n == encode_field(FieldValue::Tags(unknown@)).len(),
{
    let ghost view = unknown@;
    let fields = &unknown.0;
    let mut total = uvarint_len(fields.len() as u32);
    let mut i: usize = 0;
    while i < fields.len()
        invariant
            i <= fields@.len(),
            view == unknown@,
            fields == &unknown.0,
            tag_bodies_fit(view),
            total == uvarint(view.len()).len() + encode_tags(view.take(i as int)).len(),
            uvarint(view.len()).len() + encode_tags(view).len() <= usize::MAX,
        decreases fields@.len() - i,
    {
        proof {
            lemma_encode_tags_take(view, i as int);
            lemma_encode_tags_split(view, i + 1);
            assert(view[i as int].1.len() <= u32::MAX);
        }
        let f = &fields[i];
        total = total + uvarint_len(f.tag) + uvarint_len(f.bytes.len() as u32) + f.bytes.len();
        i = i + 1;
    }
    assert(view.take(fields@.len() as int) =~= view);
    total
}

/// Reads the tagged-fields trailer at `pos` and keeps every tag verbatim.
#[verifier::rlimit(40)]
pub fn read_unknown_tagged_fields(buf: &[u8], pos: usize) -> (res: Result<
    (UnknownTaggedFields, usize),
    ProtocolError,
>)
    requires
        pos <= buf@.len(),
    ensures
        res matches Ok((_, p)) ==> p <= buf@.len(),
        match parse_field(FieldKind::Tags, buf@.skip(pos as int)) {
            Some((v, n)) => res matches Ok((x, p)) && v == FieldValue::Tags(x@) && p == pos + n,
            None => res == Err::<(UnknownTaggedFields, usize), ProtocolError>(
                ProtocolError::Malformed,
            ),
        },
{
    proof {
        reveal(parse_field);
    }
    let (count, start) = get_uvarint(buf, pos)?;
    let ghost s0 = buf@.skip(start as int);
    assert(buf@.skip(pos as int).skip((start - pos) as int) =~= s0);
    let mut items: Vec<UnknownTaggedField> = Vec::new();
    let mut p = start;
    let mut min_tag: u64 = 0;
    let mut i: u32 = 0;
    while i < count
        invariant
            start <= p <= buf@.len(),
            i <= count,
            min_tag <= u32::MAX + 1,
            s0 == buf@.skip(start as int),
            pos < start,
            buf@.skip(pos as int).skip((start - pos) as int) == s0,
            parse_uvarint(buf@.skip(pos as int)) == Some((count as nat, (start - pos) as nat)),
            parse_tags(count as nat, 0, s0) == match parse_tags(
                (count - i) as nat,
                min_tag as nat,
                buf@.skip(p as int),
            ) {
                Some((ts, m)) => Some(
                    (UnknownTaggedFields(items)@ + ts, ((p - start) + m) as nat),
                ),
                None => None::<(Seq<(u32, Seq<u8>)>, nat)>,
            },
        decreases count - i,
    {
        proof {
            reveal(parse_field);
        }
        let ghost before = UnknownTaggedFields(items)@;
        let ghost sp = buf@.skip(p as int);
        let (tag, p1) = match get_uvarint(buf, p) {
            Ok(r) => r,
            Err(e) => {
                assert(parse_tags((count - i) as nat, min_tag as nat, sp) is None);
                return Err(e);
            },
        };
        assert(sp.skip((p1 - p) as int) =~= buf@.skip(p1 as int));
        let (len, p2) = match get_uvarint(buf, p1) {
            Ok(r) => r,
            Err(e) => {
                assert(parse_tags((count - i) as nat, min_tag as nat, sp) is None);
                return Err(e);
            },
        };
        if (tag as u64) < min_tag || buf.len() - p2 < len as usize {
            assert(parse_tags((count - i) as nat, min_tag as nat, sp) is None);
            return Err(ProtocolError::Malformed);
        }
        let end = p2 + len as usize;
        let body = slice_to_vec(slice_subrange(buf, p2, end));
        assert(sp.subrange((p2 - p) as int, (end - p) as int) =~= body@);
        assert(sp.skip((end - p) as int) =~= buf@.skip(end as int));
        items.push(UnknownTaggedField { tag, bytes: body });
        assert(UnknownTaggedFields(items)@ =~= before.push((tag, body@)));
        assert forall|ts: Seq<(u32, Seq<u8>)>| true implies before + (seq![(tag, body@)] + ts)
            =~= UnknownTaggedFields(items)@ + ts by {}
        p = end;
        min_tag = tag as u64 + 1;
        i = i + 1;
    }
    assert(UnknownTaggedFields(items)@ + Seq::<(u32, Seq<u8>)>::empty() =~= UnknownTaggedFields(
        items,
    )@);
    Ok((UnknownTaggedFields(items), p))
}

} // verus!
