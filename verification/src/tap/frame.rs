//! Kafka wire framing, and request and response correlation. This module has
//! no schema knowledge.

use std::collections::HashMap;

use vstd::prelude::*;

use crate::ids::{ApiKey, ApiVersion};
use crate::wire::{be_value, to_signed};

verus! {

/// The fixed prefix of every request header.
#[derive(Debug, PartialEq, Eq, Clone, Copy, Structural)]
pub struct RequestPrefix {
    pub api_key: ApiKey,
    pub api_version: ApiVersion,
    pub correlation_id: i32,
}

/// The signed big-endian integer that the `w` bytes of `s` from `at` hold.
pub open spec fn be_int(s: Seq<u8>, at: int, w: nat) -> int {
    to_signed(be_value(s.subrange(at, at + w)), w)
}

/// The request prefix at the front of `body`, or `None` when `body` is
/// shorter than eight bytes.
pub open spec fn request_prefix_of(body: Seq<u8>) -> Option<RequestPrefix> {
    if body.len() < 8 {
        None
    } else {
        Some(
            RequestPrefix {
                api_key: ApiKey(be_int(body, 0, 2) as i16),
                api_version: ApiVersion(be_int(body, 2, 2) as i16),
                correlation_id: be_int(body, 4, 4) as i32,
            },
        )
    }
}

/// The correlation id at the front of `body`, or `None` when `body` is
/// shorter than four bytes.
pub open spec fn correlation_id_of(body: Seq<u8>) -> Option<i32> {
    if body.len() < 4 {
        None
    } else {
        Some(be_int(body, 0, 4) as i32)
    }
}

fn be_i16(b0: u8, b1: u8) -> (r: i16)
    ensures
        r == to_signed(be_value(seq![b0, b1]), 2),
{
    let u: u32 = b0 as u32 * 256 + b1 as u32;
    proof {
        assert(seq![b0, b1].drop_last() =~= seq![b0]);
        assert(seq![b0].drop_last() =~= Seq::<u8>::empty());
        reveal_with_fuel(crate::wire::pow256, 3);
        reveal_with_fuel(crate::wire::be_value, 3);
    }
    if u < 32768 {
        u as i16
    } else {
        (u as i32 - 65536) as i16
    }
}

fn be_i32(b0: u8, b1: u8, b2: u8, b3: u8) -> (r: i32)
    ensures
        r == to_signed(be_value(seq![b0, b1, b2, b3]), 4),
{
    let u: u64 = ((b0 as u64 * 256 + b1 as u64) * 256 + b2 as u64) * 256 + b3 as u64;
    proof {
        assert(seq![b0, b1, b2, b3].drop_last() =~= seq![b0, b1, b2]);
        assert(seq![b0, b1, b2].drop_last() =~= seq![b0, b1]);
        assert(seq![b0, b1].drop_last() =~= seq![b0]);
        assert(seq![b0].drop_last() =~= Seq::<u8>::empty());
        reveal_with_fuel(crate::wire::pow256, 5);
        reveal_with_fuel(crate::wire::be_value, 5);
    }
    if u < 2147483648 {
        u as i32
    } else {
        (u as i64 - 4294967296) as i32
    }
}

/// Parse the fixed request-header prefix that every request type has:
/// `api_key: i16, api_version: i16, correlation_id: i32`.
pub fn parse_request_prefix(body: &[u8]) -> (r: Option<RequestPrefix>)
    ensures
        r == request_prefix_of(body@),
{
    if body.len() < 8 {
        return None;
    }
    assert(body@.subrange(0, 2) =~= seq![body@[0], body@[1]]);
    assert(body@.subrange(2, 4) =~= seq![body@[2], body@[3]]);
    assert(body@.subrange(4, 8) =~= seq![body@[4], body@[5], body@[6], body@[7]]);
    Some(
        RequestPrefix {
            api_key: ApiKey(be_i16(body[0], body[1])),
            api_version: ApiVersion(be_i16(body[2], body[3])),
            correlation_id: be_i32(body[4], body[5], body[6], body[7]),
        },
    )
}

/// Every response body starts with `correlation_id: i32`, before any tagged
/// header. This is true for flexible and non-flexible responses alike.
pub fn read_correlation_id(body: &[u8]) -> (r: Option<i32>)
    ensures
        r == correlation_id_of(body@),
{
    if body.len() < 4 {
        return None;
    }
    assert(body@.subrange(0, 4) =~= seq![body@[0], body@[1], body@[2], body@[3]]);
    Some(be_i32(body[0], body[1], body[2], body[3]))
}

/// Per-connection map from a correlation id to the api key and version of the
/// request that carried it. The relay uses the map to classify the responses.
pub struct Pending {
    map: HashMap<i32, (ApiKey, ApiVersion)>,
}

impl View for Pending {
    type V = Map<i32, (ApiKey, ApiVersion)>;

    closed spec fn view(&self) -> Map<i32, (ApiKey, ApiVersion)> {
        self.map@
    }
}

impl Default for Pending {
    /// No request in flight.
    fn default() -> (p: Self)
        ensures
            p@ == Map::<i32, (ApiKey, ApiVersion)>::empty(),
    {
        Pending { map: HashMap::new() }
    }
}

impl Pending {
    /// Notes that the request `correlation_id` is in flight, with its api key
    /// and version. A later request with the same id replaces it.
    pub fn record(&mut self, correlation_id: i32, api_key: ApiKey, api_version: ApiVersion)
        ensures
            final(self)@ == old(self)@.insert(correlation_id, (api_key, api_version)),
    {
        self.map.insert(correlation_id, (api_key, api_version));
    }

    /// The api key and version of the request `correlation_id`, which is then
    /// no longer in flight, or `None` when no such request is.
    pub fn take(&mut self, correlation_id: i32) -> (r: Option<(ApiKey, ApiVersion)>)
        ensures
            final(self)@ == old(self)@.remove(correlation_id),
            r == old(self)@.get(correlation_id),
    {
        let r = self.map.remove(&correlation_id);
        assert(self.map@ =~= old(self)@.remove(correlation_id));
        r
    }
}

/// One captured frame, emitted by the relay to the recorder.
#[derive(Debug, Clone, PartialEq, Eq)]
pub struct CapturedFrame {
    pub api_key: ApiKey,
    pub version: ApiVersion,
    pub is_request: bool,
    /// Full frame body, that is the header and the message, without the
    /// 4-byte length prefix.
    pub body: Vec<u8>,
}

/// A response is correlated to the request that a record of it named, and the
/// record is gone after the take: each request answers one response.
pub proof fn lemma_record_then_take(
    m: Map<i32, (ApiKey, ApiVersion)>,
    correlation_id: i32,
    api_key: ApiKey,
    api_version: ApiVersion,
)
    ensures
        m.insert(correlation_id, (api_key, api_version)).get(correlation_id) == Some(
            (api_key, api_version),
        ),
        !m.insert(correlation_id, (api_key, api_version)).remove(correlation_id).contains_key(
            correlation_id,
        ),
{
}

/// The big-endian integer that `int_bytes` wrote at `at` reads back.
proof fn lemma_be_int_reads(s: Seq<u8>, at: int, v: int, w: nat)
    requires
        w == 2 || w == 4,
        -(crate::wire::pow256(w) / 2) <= v < crate::wire::pow256(w) / 2,
        0 <= at,
        at + w <= s.len(),
        s.subrange(at, at + w) == crate::wire::int_bytes(v, w),
    ensures
        be_int(s, at, w) == v,
{
    let b = crate::wire::int_bytes(v, w);
    crate::wire::lemma_int_roundtrip(v, w, Seq::empty());
    assert((b + Seq::<u8>::empty()).take(w as int) =~= b);
}

/// A request body opens with its api key, then its api version, then its
/// correlation id, each big-endian; a response body opens with its
/// correlation id.
pub proof fn lemma_request_prefix_layout(k: i16, v: i16, c: i32, rest: Seq<u8>)
    ensures
        request_prefix_of(
            crate::wire::int_bytes(k as int, 2) + crate::wire::int_bytes(v as int, 2)
                + crate::wire::int_bytes(c as int, 4) + rest,
        ) == Some(
            RequestPrefix { api_key: ApiKey(k), api_version: ApiVersion(v), correlation_id: c },
        ),
        correlation_id_of(crate::wire::int_bytes(c as int, 4) + rest) == Some(c),
{
    crate::wire::lemma_pow256_values();
    let a = crate::wire::int_bytes(k as int, 2);
    let b = crate::wire::int_bytes(v as int, 2);
    let d = crate::wire::int_bytes(c as int, 4);
    crate::wire::lemma_int_roundtrip(k as int, 2, Seq::empty());
    crate::wire::lemma_int_roundtrip(v as int, 2, Seq::empty());
    crate::wire::lemma_int_roundtrip(c as int, 4, Seq::empty());
    let body = a + b + d + rest;
    assert(body.subrange(0, 2) =~= a);
    assert(body.subrange(2, 4) =~= b);
    assert(body.subrange(4, 8) =~= d);
    lemma_be_int_reads(body, 0, k as int, 2);
    lemma_be_int_reads(body, 2, v as int, 2);
    lemma_be_int_reads(body, 4, c as int, 4);
    let r = d + rest;
    assert(r.subrange(0, 4) =~= d);
    lemma_be_int_reads(r, 0, c as int, 4);
}

} // verus!
