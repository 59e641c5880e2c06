//! Carriage of a stamp on Kafka record headers.

use vstd::prelude::*;

use crate::hlc::stamp::{stamp_of, Hlc};
use crate::text::str_eq;

verus! {

/// The Kafka record header key that carries a hybrid logical clock stamp.
///
/// The key is lower case, and a reader matches it byte for byte. Kafka header
/// keys are case-sensitive, and this key belongs to Krabka, so there is no
/// second spelling to accept.
pub const HLC_HEADER: &'static str = "krabka.hlc";

/// The value of the last header whose key is [`HLC_HEADER`], if any.
pub open spec fn last_stamp_value(headers: Seq<(Seq<char>, Seq<u8>)>) -> Option<Seq<u8>>
    decreases headers.len(),
{
    if headers.len() == 0 {
        None
    } else if headers.last().0 == HLC_HEADER@ {
        Some(headers.last().1)
    } else {
        last_stamp_value(headers.drop_last())
    }
}

/// What a reader makes of a record's headers: the stamp of the last
/// [`HLC_HEADER`] value, or `None` when there is none or it is not 16 bytes.
pub open spec fn extracted_stamp(headers: Seq<(Seq<char>, Seq<u8>)>) -> Option<Hlc> {
    match last_stamp_value(headers) {
        Some(v) => if v.len() == 16 {
            Some(stamp_of(v))
        } else {
            None
        },
        None => None,
    }
}

/// The keys and values of `headers`, as the model sees them.
pub open spec fn header_views(headers: Seq<(&str, &[u8])>) -> Seq<(Seq<char>, Seq<u8>)> {
    headers.map_values(|h: (&str, &[u8])| (h.0@, h.1@))
}

/// The stamp on a record, or `None` when the record carries none.
///
/// Each header is a key plus a raw byte value, so this function works with any
/// producer or consumer header type. The caller converts its own header into a
/// `(key, value)` pair at the edge.
///
/// This function returns `None` for an absent header, for a value of the wrong
/// length, and for a value it cannot read. It reports no error, because a
/// consumer that cannot read the producer's stamp must still be able to apply
/// the record. Use [`Hlc::decode`] where the caller wants the reason.
///
/// A record can carry the same header key more than once, and Kafka's own
/// `Headers.lastHeader` reads the last one. This function does the same.
pub fn extract_from_headers(headers: &[(&str, &[u8])]) -> (r: Option<Hlc>)
    ensures
        r == extracted_stamp(header_views(headers@)),
{
    let ghost hv = header_views(headers@);
    let mut i: usize = headers.len();
    assert(hv.take(i as int) =~= hv);
    while i > 0
        invariant
            i <= headers@.len(),
            hv == header_views(headers@),
            last_stamp_value(hv) == last_stamp_value(hv.take(i as int)),
        decreases i,
    {
        let (key, value) = headers[i - 1];
        assert(hv.take(i as int).drop_last() =~= hv.take(i - 1));
        assert(hv.take(i as int).last() == (key@, value@));
        assert(headers@[i - 1] == (key, value));
        if str_eq(key, HLC_HEADER) {
            return match Hlc::decode(value) {
                Ok(h) => Some(h),
                Err(_) => None,
            };
        }
        i = i - 1;
    }
    assert(hv.take(0) =~= Seq::<(Seq<char>, Seq<u8>)>::empty());
    None
}

} // verus!
