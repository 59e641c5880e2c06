//! The decisions of the relay, one frame at a time.
//!
//! The relay reads a 4-byte big-endian length, then a body of that length, and
//! forwards both. [`frame_length`] decides whether a length starts a frame or
//! ends the relay. [`before_forward`] records a request before the bytes go
//! on, so that its response can be correlated, and [`after_forward`] says what
//! the recorder receives after the bytes went on.

use vstd::prelude::*;

use crate::primitives::lemma_be_value_bound;
use crate::wire::lemma_pow256_values;
use crate::tap::frame::{
    be_int, correlation_id_of, parse_request_prefix, read_correlation_id, request_prefix_of,
    CapturedFrame, Pending, RequestPrefix,
};

verus! {

/// The body length that a frame's 4-byte length prefix announces, or `None`
/// when it is negative, which ends the relay. A zero length is a legal empty
/// frame.
pub fn frame_length(len_buf: [u8; 4]) -> (r: Option<usize>)
    ensures
        be_int(len_buf@, 0, 4) < 0 ==> r is None,
        be_int(len_buf@, 0, 4) >= 0 ==> r == Some(be_int(len_buf@, 0, 4) as usize),
{
    assert(len_buf@.subrange(0, 4) =~= len_buf@);
    proof {
        lemma_be_value_bound(len_buf@);
        lemma_pow256_values();
    }
    let n = match read_correlation_id(len_buf.as_slice()) {
        Some(n) => n,
        None => return None,
    };
    if n < 0 {
        None
    } else {
        Some(n as usize)
    }
}

/// What the relay does with a frame before it forwards it: a request's
/// header prefix is parsed, and the request is noted as in flight.
pub fn before_forward(pending: &mut Pending, is_request: bool, body: &[u8]) -> (r: Option<
    RequestPrefix,
>)
    ensures
        is_request ==> r == request_prefix_of(body@),
        !is_request ==> r is None,
        final(pending)@ == match r {
            Some(p) => old(pending)@.insert(p.correlation_id, (p.api_key, p.api_version)),
            None => old(pending)@,
        },
{
    if !is_request {
        return None;
    }
    let prefix = parse_request_prefix(body);
    if let Some(p) = prefix {
        pending.record(p.correlation_id, p.api_key, p.api_version);
    }
    prefix
}

/// What the recorder receives for a frame after the relay forwarded it.
///
/// A request whose prefix was parsed is recorded with that prefix's api key
/// and version. Any other frame is a response: it is recorded with the key
/// and version of the request that its correlation id names, and that request
/// is then no longer in flight. A response that names no request in flight is
/// not recorded.
pub fn after_forward(
    pending: &mut Pending,
    request_prefix: Option<RequestPrefix>,
    body: Vec<u8>,
) -> (r: Option<CapturedFrame>)
    ensures
        request_prefix matches Some(p) ==> {
            &&& r matches Some(f) && f.api_key == p.api_key && f.version == p.api_version
                && f.is_request && f.body@ == body@
            &&& final(pending)@ == old(pending)@
        },
        request_prefix is None ==> match correlation_id_of(body@) {
            Some(c) => {
                &&& final(pending)@ == old(pending)@.remove(c)
                &&& match old(pending)@.get(c) {
                    Some((k, v)) => r matches Some(f) && f.api_key == k && f.version == v
                        && !f.is_request && f.body@ == body@,
                    None => r is None,
                }
            },
            None => r is None && final(pending)@ == old(pending)@,
        },
{
    match request_prefix {
        Some(p) => Some(
            CapturedFrame { api_key: p.api_key, version: p.api_version, is_request: true, body },
        ),
        None => {
            let corr = match read_correlation_id(body.as_slice()) {
                Some(c) => c,
                None => return None,
            };
            match pending.take(corr) {
                Some((api_key, version)) => Some(
                    CapturedFrame { api_key, version, is_request: false, body },
                ),
                None => None,
            }
        },
    }
}

} // verus!
