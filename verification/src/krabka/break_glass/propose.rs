//! `ProposeBreakGlass`, api key 1017.
//!
//! The request asks the controller to open a break-glass proposal. The
//! controller gives the proposal an id and an expiry, and it holds the proposal
//! in the metadata log until an operator consumes it, an operator withdraws it,
//! or it expires.
//!
//! A proposal names one action and one target. It carries no approval yet, so
//! the proposer sends an [`ApproveBreakGlass`](super::approve) request from a
//! second principal before the action can run.

use vstd::prelude::*;

use crate::error::ProtocolError;
use crate::krabka::common::{
    check_version, lemma_record_fields, Wire, I16_LEN, I32_LEN, I64_LEN, I8_LEN, UUID_LEN,
};
use crate::primitives::{
    compact_nullable_string_len, compact_string_len, get_compact_nullable_string,
    get_compact_string, get_i16, get_i32, get_i64, get_i8, get_uuid, opt_view,
    put_compact_nullable_string, put_compact_string, put_i16, put_i32, put_i64, put_i8, put_uuid,
    Uuid,
};
use crate::tagged_fields::{
    read_unknown_tagged_fields, unknown_tagged_fields_len, write_unknown_tagged_fields,
    UnknownTaggedFields,
};
use crate::wire::{
    writable, encode_record, lemma_encode_record_push, lemma_record_step, FieldKind, FieldValue,
};

verus! {

broadcast use vstd::seq_lib::lemma_seq_skip_of_skip;

/// Api key of `ProposeBreakGlass`.
pub const API_KEY: i16 = 1017;

/// Lowest version of `ProposeBreakGlass` that this build speaks.
pub const MIN_VERSION: i16 = 0;

/// Highest version of `ProposeBreakGlass` that this build speaks.
pub const MAX_VERSION: i16 = 0;

/// First version with flexible framing from KIP-482.
pub const FLEXIBLE_MIN: i16 = 0;

/// Reports whether `version` uses flexible framing from KIP-482.
///
/// The request header takes the same framing as the request body, so a caller
/// that writes the header needs this answer.
pub fn is_flexible(version: i16) -> (r: bool)
    ensures
        r == (version >= FLEXIBLE_MIN),
{
    version >= FLEXIBLE_MIN
}

/// Opens a break-glass proposal.
#[derive(Debug, Clone, PartialEq, Eq, Default)]
pub struct ProposeBreakGlassRequest {
    /// The privileged action to gate. The value is the wire value of the
    /// broker's break-glass action, as [`super`] describes.
    pub action: i8,
    /// What the action applies to. The shape of the text follows the action: a
    /// topic name, a partition, a broker id, or a freeze scope.
    pub target: String,
    /// Text that says why the operator needs the action.
    pub reason: String,
    /// Lifetime of the proposal, in milliseconds. `0` asks for the lifetime
    /// that the broker holds in its configuration. The broker caps a longer
    /// value at that configured lifetime.
    pub ttl_ms: i64,
    /// Tagged fields that this build does not know.
    pub unknown_tagged_fields: UnknownTaggedFields,
}

impl Wire for ProposeBreakGlassRequest {
    open spec fn kinds() -> Seq<FieldKind> {
        seq![FieldKind::Int8, FieldKind::Str, FieldKind::Str, FieldKind::Int64, FieldKind::Tags]
    }

    open spec fn fields(&self) -> Seq<FieldValue> {
        seq![FieldValue::Int8(self.action), FieldValue::Str(self.target@), FieldValue::Str(self.reason@), FieldValue::Int64(self.ttl_ms), FieldValue::Tags(self.unknown_tagged_fields@)]
    }

    open spec fn supports(version: i16) -> bool {
        MIN_VERSION <= version <= MAX_VERSION
    }

    open spec fn api_key() -> i16 {
        API_KEY
    }

    fn encode(&self, buf: &mut Vec<u8>, version: i16) -> (res: Result<(), ProtocolError>) {
        check_version(API_KEY, version, MIN_VERSION, MAX_VERSION)?;
        proof {
            lemma_record_fields(Self::kinds(), self.fields());
            assert(writable(Self::kinds()[1], self.fields()[1]));
            assert(writable(Self::kinds()[2], self.fields()[2]));
            assert(writable(Self::kinds()[4], self.fields()[4]));
        }
        let ghost vs0 = Seq::<FieldValue>::empty();
        put_i8(buf, self.action);
        proof {
            lemma_encode_record_push(vs0, FieldValue::Int8(self.action));
        }
        let ghost vs1 = vs0.push(FieldValue::Int8(self.action));
        assert(buf@ =~= old(buf)@ + encode_record(vs1));
        put_compact_string(buf, self.target.as_str());
        proof {
            lemma_encode_record_push(vs1, FieldValue::Str(self.target@));
        }
        let ghost vs2 = vs1.push(FieldValue::Str(self.target@));
        assert(buf@ =~= old(buf)@ + encode_record(vs2));
        put_compact_string(buf, self.reason.as_str());
        proof {
            lemma_encode_record_push(vs2, FieldValue::Str(self.reason@));
        }
        let ghost vs3 = vs2.push(FieldValue::Str(self.reason@));
        assert(buf@ =~= old(buf)@ + encode_record(vs3));
        put_i64(buf, self.ttl_ms);
        proof {
            lemma_encode_record_push(vs3, FieldValue::Int64(self.ttl_ms));
        }
        let ghost vs4 = vs3.push(FieldValue::Int64(self.ttl_ms));
        assert(buf@ =~= old(buf)@ + encode_record(vs4));
        write_unknown_tagged_fields(buf, &self.unknown_tagged_fields);
        proof {
            lemma_encode_record_push(vs4, FieldValue::Tags(self.unknown_tagged_fields@));
        }
        let ghost vs5 = vs4.push(FieldValue::Tags(self.unknown_tagged_fields@));
        assert(buf@ =~= old(buf)@ + encode_record(vs5));
        assert(vs5 =~= self.fields());
        Ok(())
    }

    fn encoded_len(&self, version: i16) -> (n: usize) {
        proof {
            lemma_record_fields(Self::kinds(), self.fields());
            assert(writable(Self::kinds()[1], self.fields()[1]));
            assert(writable(Self::kinds()[2], self.fields()[2]));
            assert(writable(Self::kinds()[4], self.fields()[4]));
            let vs0 = Seq::<FieldValue>::empty();
            lemma_encode_record_push(vs0, FieldValue::Int8(self.action));
            let vs1 = vs0.push(FieldValue::Int8(self.action));
            lemma_encode_record_push(vs1, FieldValue::Str(self.target@));
            let vs2 = vs1.push(FieldValue::Str(self.target@));
            lemma_encode_record_push(vs2, FieldValue::Str(self.reason@));
            let vs3 = vs2.push(FieldValue::Str(self.reason@));
            lemma_encode_record_push(vs3, FieldValue::Int64(self.ttl_ms));
            let vs4 = vs3.push(FieldValue::Int64(self.ttl_ms));
            lemma_encode_record_push(vs4, FieldValue::Tags(self.unknown_tagged_fields@));
            let vs5 = vs4.push(FieldValue::Tags(self.unknown_tagged_fields@));
            assert(vs5 =~= self.fields());
        }
        I8_LEN
            + compact_string_len(self.target.as_str())
            + compact_string_len(self.reason.as_str())
            + I64_LEN
            + unknown_tagged_fields_len(&self.unknown_tagged_fields)
    }

    fn decode(buf: &[u8], pos: usize, version: i16) -> (res: Result<(Self, usize), ProtocolError>) {
        check_version(API_KEY, version, MIN_VERSION, MAX_VERSION)?;
        let ghost ks = Self::kinds();
        let ghost s = buf@.skip(pos as int);
        proof {
            lemma_record_step(ks, s, 0, Seq::<FieldValue>::empty(), 0);
        }
        let (action, p1) = get_i8(buf, pos)?;
        let ghost vs1 = seq![FieldValue::Int8(action)];
        proof {
            lemma_record_step(ks, s, 1, vs1, (p1 - pos) as nat);
        }
        let (target, p2) = get_compact_string(buf, p1)?;
        let ghost vs2 = vs1.push(FieldValue::Str(target@));
        proof {
            lemma_record_step(ks, s, 2, vs2, (p2 - pos) as nat);
        }
        let (reason, p3) = get_compact_string(buf, p2)?;
        let ghost vs3 = vs2.push(FieldValue::Str(reason@));
        proof {
            lemma_record_step(ks, s, 3, vs3, (p3 - pos) as nat);
        }
        let (ttl_ms, p4) = get_i64(buf, p3)?;
        let ghost vs4 = vs3.push(FieldValue::Int64(ttl_ms));
        proof {
            lemma_record_step(ks, s, 4, vs4, (p4 - pos) as nat);
        }
        let (unknown_tagged_fields, p5) = read_unknown_tagged_fields(buf, p4)?;
        let ghost vs5 = vs4.push(FieldValue::Tags(unknown_tagged_fields@));
        let v = Self { action, target, reason, ttl_ms, unknown_tagged_fields };
        assert(ks.take(5) =~= ks);
        assert(v.fields() =~= vs5);
        Ok((v, p5))
    }
}

/// Outcome of a [`ProposeBreakGlassRequest`].
#[derive(Debug, Clone, PartialEq, Eq, Default)]
pub struct ProposeBreakGlassResponse {
    /// Milliseconds that the broker held the request back for a quota.
    pub throttle_time_ms: i32,
    /// Kafka error code. `0` means the controller opened the proposal.
    pub error_code: i16,
    /// Text that explains a non-zero `error_code`. `None` when the broker has
    /// nothing to add to the code.
    pub error_message: Option<String>,
    /// Id of the new proposal. An approver names it, and so does the audit
    /// event of the action that consumes it. It is nil for a non-zero
    /// `error_code`.
    pub proposal_id: Uuid,
    /// Milliseconds since the Unix epoch, at the moment the proposal expires.
    /// It is `0` for a non-zero `error_code`.
    pub expires_at_ms: i64,
    /// Tagged fields that this build does not know.
    pub unknown_tagged_fields: UnknownTaggedFields,
}

impl Wire for ProposeBreakGlassResponse {
    open spec fn kinds() -> Seq<FieldKind> {
        seq![FieldKind::Int32, FieldKind::Int16, FieldKind::NullableStr, FieldKind::Uuid, FieldKind::Int64, FieldKind::Tags]
    }

    open spec fn fields(&self) -> Seq<FieldValue> {
        seq![FieldValue::Int32(self.throttle_time_ms), FieldValue::Int16(self.error_code), FieldValue::NullableStr(opt_view(self.error_message)), FieldValue::Uuid(self.proposal_id@), FieldValue::Int64(self.expires_at_ms), FieldValue::Tags(self.unknown_tagged_fields@)]
    }

    open spec fn supports(version: i16) -> bool {
        MIN_VERSION <= version <= MAX_VERSION
    }

    open spec fn api_key() -> i16 {
        API_KEY
    }

    fn encode(&self, buf: &mut Vec<u8>, version: i16) -> (res: Result<(), ProtocolError>) {
        check_version(API_KEY, version, MIN_VERSION, MAX_VERSION)?;
        proof {
            lemma_record_fields(Self::kinds(), self.fields());
            assert(writable(Self::kinds()[2], self.fields()[2]));
            assert(writable(Self::kinds()[5], self.fields()[5]));
        }
        let ghost vs0 = Seq::<FieldValue>::empty();
        put_i32(buf, self.throttle_time_ms);
        proof {
            lemma_encode_record_push(vs0, FieldValue::Int32(self.throttle_time_ms));
        }
        let ghost vs1 = vs0.push(FieldValue::Int32(self.throttle_time_ms));
        assert(buf@ =~= old(buf)@ + encode_record(vs1));
        put_i16(buf, self.error_code);
        proof {
            lemma_encode_record_push(vs1, FieldValue::Int16(self.error_code));
        }
        let ghost vs2 = vs1.push(FieldValue::Int16(self.error_code));
        assert(buf@ =~= old(buf)@ + encode_record(vs2));
        put_compact_nullable_string(buf, &self.error_message);
        proof {
            lemma_encode_record_push(vs2, FieldValue::NullableStr(opt_view(self.error_message)));
        }
        let ghost vs3 = vs2.push(FieldValue::NullableStr(opt_view(self.error_message)));
        assert(buf@ =~= old(buf)@ + encode_record(vs3));
        put_uuid(buf, &self.proposal_id);
        proof {
            lemma_encode_record_push(vs3, FieldValue::Uuid(self.proposal_id@));
        }
        let ghost vs4 = vs3.push(FieldValue::Uuid(self.proposal_id@));
        assert(buf@ =~= old(buf)@ + encode_record(vs4));
        put_i64(buf, self.expires_at_ms);
        proof {
            lemma_encode_record_push(vs4, FieldValue::Int64(self.expires_at_ms));
        }
        let ghost vs5 = vs4.push(FieldValue::Int64(self.expires_at_ms));
        assert(buf@ =~= old(buf)@ + encode_record(vs5));
        write_unknown_tagged_fields(buf, &self.unknown_tagged_fields);
        proof {
            lemma_encode_record_push(vs5, FieldValue::Tags(self.unknown_tagged_fields@));
        }
        let ghost vs6 = vs5.push(FieldValue::Tags(self.unknown_tagged_fields@));
        assert(buf@ =~= old(buf)@ + encode_record(vs6));
        assert(vs6 =~= self.fields());
        Ok(())
    }

    fn encoded_len(&self, version: i16) -> (n: usize) {
        proof {
            lemma_record_fields(Self::kinds(), self.fields());
            assert(writable(Self::kinds()[2], self.fields()[2]));
            assert(writable(Self::kinds()[5], self.fields()[5]));
            let vs0 = Seq::<FieldValue>::empty();
            lemma_encode_record_push(vs0, FieldValue::Int32(self.throttle_time_ms));
            let vs1 = vs0.push(FieldValue::Int32(self.throttle_time_ms));
            lemma_encode_record_push(vs1, FieldValue::Int16(self.error_code));
            let vs2 = vs1.push(FieldValue::Int16(self.error_code));
            lemma_encode_record_push(vs2, FieldValue::NullableStr(opt_view(self.error_message)));
            let vs3 = vs2.push(FieldValue::NullableStr(opt_view(self.error_message)));
            lemma_encode_record_push(vs3, FieldValue::Uuid(self.proposal_id@));
            let vs4 = vs3.push(FieldValue::Uuid(self.proposal_id@));
            lemma_encode_record_push(vs4, FieldValue::Int64(self.expires_at_ms));
            let vs5 = vs4.push(FieldValue::Int64(self.expires_at_ms));
            lemma_encode_record_push(vs5, FieldValue::Tags(self.unknown_tagged_fields@));
            let vs6 = vs5.push(FieldValue::Tags(self.unknown_tagged_fields@));
            assert(vs6 =~= self.fields());
        }
        I32_LEN
            + I16_LEN
            + compact_nullable_string_len(&self.error_message)
            + UUID_LEN
            + I64_LEN
            + unknown_tagged_fields_len(&self.unknown_tagged_fields)
    }

    fn decode(buf: &[u8], pos: usize, version: i16) -> (res: Result<(Self, usize), ProtocolError>) {
        check_version(API_KEY, version, MIN_VERSION, MAX_VERSION)?;
        let ghost ks = Self::kinds();
        let ghost s = buf@.skip(pos as int);
        proof {
            lemma_record_step(ks, s, 0, Seq::<FieldValue>::empty(), 0);
        }
        let (throttle_time_ms, p1) = get_i32(buf, pos)?;
        let ghost vs1 = seq![FieldValue::Int32(throttle_time_ms)];
        proof {
            lemma_record_step(ks, s, 1, vs1, (p1 - pos) as nat);
        }
        let (error_code, p2) = get_i16(buf, p1)?;
        let ghost vs2 = vs1.push(FieldValue::Int16(error_code));
        proof {
            lemma_record_step(ks, s, 2, vs2, (p2 - pos) as nat);
        }
        let (error_message, p3) = get_compact_nullable_string(buf, p2)?;
        let ghost vs3 = vs2.push(FieldValue::NullableStr(opt_view(error_message)));
        proof {
            lemma_record_step(ks, s, 3, vs3, (p3 - pos) as nat);
        }
        let (proposal_id, p4) = get_uuid(buf, p3)?;
        let ghost vs4 = vs3.push(FieldValue::Uuid(proposal_id@));
        proof {
            lemma_record_step(ks, s, 4, vs4, (p4 - pos) as nat);
        }
        let (expires_at_ms, p5) = get_i64(buf, p4)?;
        let ghost vs5 = vs4.push(FieldValue::Int64(expires_at_ms));
        proof {
            lemma_record_step(ks, s, 5, vs5, (p5 - pos) as nat);
        }
        let (unknown_tagged_fields, p6) = read_unknown_tagged_fields(buf, p5)?;
        let ghost vs6 = vs5.push(FieldValue::Tags(unknown_tagged_fields@));
        let v = Self { throttle_time_ms, error_code, error_message, proposal_id, expires_at_ms, unknown_tagged_fields };
        assert(ks.take(6) =~= ks);
        assert(v.fields() =~= vs6);
        Ok((v, p6))
    }
}

/// The bytes of every [`ProposeBreakGlassRequest`] hold its fields in the order of the schema:
/// `action`, `target`, `reason`, `ttl_ms`, `unknown_tagged_fields`.
pub proof fn lemma_propose_break_glass_request_layout(x: ProposeBreakGlassRequest)
    ensures
        encode_record(x.fields()) == crate::wire::int_bytes(x.action as int, 1)
            + crate::wire::compact_str(x.target@)
            + crate::wire::compact_str(x.reason@)
            + crate::wire::int_bytes(x.ttl_ms as int, 8)
            + crate::wire::encode_field(FieldValue::Tags(x.unknown_tagged_fields@)),
{
    let vs0 = Seq::<FieldValue>::empty();
    assert(encode_record(vs0) =~= Seq::<u8>::empty());
    crate::wire::lemma_encode_record_push(vs0, FieldValue::Int8(x.action));
    let vs1 = vs0.push(FieldValue::Int8(x.action));
    crate::wire::lemma_encode_record_push(vs1, FieldValue::Str(x.target@));
    let vs2 = vs1.push(FieldValue::Str(x.target@));
    crate::wire::lemma_encode_record_push(vs2, FieldValue::Str(x.reason@));
    let vs3 = vs2.push(FieldValue::Str(x.reason@));
    crate::wire::lemma_encode_record_push(vs3, FieldValue::Int64(x.ttl_ms));
    let vs4 = vs3.push(FieldValue::Int64(x.ttl_ms));
    crate::wire::lemma_encode_record_push(vs4, FieldValue::Tags(x.unknown_tagged_fields@));
    let vs5 = vs4.push(FieldValue::Tags(x.unknown_tagged_fields@));
    assert(vs5 =~= x.fields());
    assert(Seq::<u8>::empty() + crate::wire::encode_field(FieldValue::Int8(x.action)) =~= crate::wire::encode_field(FieldValue::Int8(x.action)));
}

/// The bytes of every [`ProposeBreakGlassResponse`] hold its fields in the order of the schema:
/// `throttle_time_ms`, `error_code`, `error_message`, `proposal_id`, `expires_at_ms`, `unknown_tagged_fields`.
pub proof fn lemma_propose_break_glass_response_layout(x: ProposeBreakGlassResponse)
    ensures
        encode_record(x.fields()) == crate::wire::int_bytes(x.throttle_time_ms as int, 4)
            + crate::wire::int_bytes(x.error_code as int, 2)
            + crate::wire::encode_field(FieldValue::NullableStr(opt_view(x.error_message)))
            + x.proposal_id@
            + crate::wire::int_bytes(x.expires_at_ms as int, 8)
            + crate::wire::encode_field(FieldValue::Tags(x.unknown_tagged_fields@)),
{
    let vs0 = Seq::<FieldValue>::empty();
    assert(encode_record(vs0) =~= Seq::<u8>::empty());
    crate::wire::lemma_encode_record_push(vs0, FieldValue::Int32(x.throttle_time_ms));
    let vs1 = vs0.push(FieldValue::Int32(x.throttle_time_ms));
    crate::wire::lemma_encode_record_push(vs1, FieldValue::Int16(x.error_code));
    let vs2 = vs1.push(FieldValue::Int16(x.error_code));
    crate::wire::lemma_encode_record_push(vs2, FieldValue::NullableStr(opt_view(x.error_message)));
    let vs3 = vs2.push(FieldValue::NullableStr(opt_view(x.error_message)));
    crate::wire::lemma_encode_record_push(vs3, FieldValue::Uuid(x.proposal_id@));
    let vs4 = vs3.push(FieldValue::Uuid(x.proposal_id@));
    crate::wire::lemma_encode_record_push(vs4, FieldValue::Int64(x.expires_at_ms));
    let vs5 = vs4.push(FieldValue::Int64(x.expires_at_ms));
    crate::wire::lemma_encode_record_push(vs5, FieldValue::Tags(x.unknown_tagged_fields@));
    let vs6 = vs5.push(FieldValue::Tags(x.unknown_tagged_fields@));
    assert(vs6 =~= x.fields());
    assert(Seq::<u8>::empty() + crate::wire::encode_field(FieldValue::Int32(x.throttle_time_ms)) =~= crate::wire::encode_field(FieldValue::Int32(x.throttle_time_ms)));
}

} // verus!
