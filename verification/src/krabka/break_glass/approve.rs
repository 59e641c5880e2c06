//! `ApproveBreakGlass`, api key 1018.
//!
//! One request adds an approval to a break-glass proposal, or it withdraws the
//! proposal. `withdraw` picks between the two, which follows
//! [`AlterableBarrierGroup`](crate::krabka::barrier::AlterableBarrierGroup) and
//! its `delete` flag. One api key then serves both directions of the same
//! standing authorization, and the krabka-private range keeps a key free.
//!
//! The broker checks the approver against the authenticated principal of the
//! connection. It refuses the proposer, a principal that is not in the approver
//! set, and a principal that already approved this proposal.
//!
//! # Signature
//!
//! `key_id` and `signature` carry a detached Ed25519 signature that the
//! operator makes on their own machine. The private key never reaches a broker.
//! Both fields are empty for an unsigned approval. The broker demands a
//! signature for the actions that its configuration names.

use vstd::prelude::*;

use crate::error::ProtocolError;
use crate::krabka::common::{
    check_version, lemma_record_fields, Wire, BOOL_LEN, I16_LEN, I32_LEN, UUID_LEN,
};
use crate::primitives::{
    compact_bytes_len, compact_nullable_string_len, compact_string_len, get_bool, get_compact_bytes,
    get_compact_nullable_string, get_compact_string, get_i16, get_i32, get_uuid, opt_view, put_bool,
    put_compact_bytes, put_compact_nullable_string, put_compact_string, put_i16, put_i32, put_uuid,
    Uuid,
};
use crate::tagged_fields::{
    read_unknown_tagged_fields, unknown_tagged_fields_len, write_unknown_tagged_fields,
    UnknownTaggedFields,
};
use crate::wire::{
    writable, encode_record, lemma_encode_record_push, lemma_record_step, FieldKind, FieldValue,
};

verus! {

broadcast use vstd::seq_lib::lemma_seq_skip_of_skip;

/// Api key of `ApproveBreakGlass`.
pub const API_KEY: i16 = 1018;

/// Lowest version of `ApproveBreakGlass` that this build speaks.
pub const MIN_VERSION: i16 = 0;

/// Highest version of `ApproveBreakGlass` that this build speaks.
pub const MAX_VERSION: i16 = 0;

/// First version with flexible framing from KIP-482.
pub const FLEXIBLE_MIN: i16 = 0;

/// Reports whether `version` uses flexible framing from KIP-482.
///
/// The request header takes the same framing as the request body, so a caller
/// that writes the header needs this answer.
pub fn is_flexible(version: i16) -> (r: bool)
    ensures
        r == (version >= FLEXIBLE_MIN),
{
    version >= FLEXIBLE_MIN
}

/// Adds an approval to a break-glass proposal, or withdraws the proposal.
#[derive(Debug, Clone, PartialEq, Eq, Default)]
pub struct ApproveBreakGlassRequest {
    /// The proposal to approve or to withdraw.
    pub proposal_id: Uuid,
    /// The operator key that made `signature`. It is empty for an unsigned
    /// approval.
    pub key_id: String,
    /// Detached Ed25519 signature over the canonical bytes of the proposal. It
    /// is empty for an unsigned approval.
    pub signature: Vec<u8>,
    /// `true` withdraws the proposal instead of approving it. The broker then
    /// ignores `key_id` and `signature`.
    pub withdraw: bool,
    /// Tagged fields that this build does not know.
    pub unknown_tagged_fields: UnknownTaggedFields,
}

impl Wire for ApproveBreakGlassRequest {
    open spec fn kinds() -> Seq<FieldKind> {
        seq![FieldKind::Uuid, FieldKind::Str, FieldKind::Bytes, FieldKind::Bool, FieldKind::Tags]
    }

    open spec fn fields(&self) -> Seq<FieldValue> {
        seq![FieldValue::Uuid(self.proposal_id@), FieldValue::Str(self.key_id@), FieldValue::Bytes(self.signature@), FieldValue::Bool(self.withdraw), FieldValue::Tags(self.unknown_tagged_fields@)]
    }

    open spec fn supports(version: i16) -> bool {
        MIN_VERSION <= version <= MAX_VERSION
    }

    open spec fn api_key() -> i16 {
        API_KEY
    }

    fn encode(&self, buf: &mut Vec<u8>, version: i16) -> (res: Result<(), ProtocolError>) {
        check_version(API_KEY, version, MIN_VERSION, MAX_VERSION)?;
        proof {
            lemma_record_fields(Self::kinds(), self.fields());
            assert(writable(Self::kinds()[1], self.fields()[1]));
            assert(writable(Self::kinds()[2], self.fields()[2]));
            assert(writable(Self::kinds()[4], self.fields()[4]));
        }
        let ghost vs0 = Seq::<FieldValue>::empty();
        put_uuid(buf, &self.proposal_id);
        proof {
            lemma_encode_record_push(vs0, FieldValue::Uuid(self.proposal_id@));
        }
        let ghost vs1 = vs0.push(FieldValue::Uuid(self.proposal_id@));
        assert(buf@ =~= old(buf)@ + encode_record(vs1));
        put_compact_string(buf, self.key_id.as_str());
        proof {
            lemma_encode_record_push(vs1, FieldValue::Str(self.key_id@));
        }
        let ghost vs2 = vs1.push(FieldValue::Str(self.key_id@));
        assert(buf@ =~= old(buf)@ + encode_record(vs2));
        put_compact_bytes(buf, self.signature.as_slice());
        proof {
            lemma_encode_record_push(vs2, FieldValue::Bytes(self.signature@));
        }
        let ghost vs3 = vs2.push(FieldValue::Bytes(self.signature@));
        assert(buf@ =~= old(buf)@ + encode_record(vs3));
        put_bool(buf, self.withdraw);
        proof {
            lemma_encode_record_push(vs3, FieldValue::Bool(self.withdraw));
        }
        let ghost vs4 = vs3.push(FieldValue::Bool(self.withdraw));
        assert(buf@ =~= old(buf)@ + encode_record(vs4));
        write_unknown_tagged_fields(buf, &self.unknown_tagged_fields);
        proof {
            lemma_encode_record_push(vs4, FieldValue::Tags(self.unknown_tagged_fields@));
        }
        let ghost vs5 = vs4.push(FieldValue::Tags(self.unknown_tagged_fields@));
        assert(buf@ =~= old(buf)@ + encode_record(vs5));
        assert(vs5 =~= self.fields());
        Ok(())
    }

    fn encoded_len(&self, version: i16) -> (n: usize) {
        proof {
            lemma_record_fields(Self::kinds(), self.fields());
            assert(writable(Self::kinds()[1], self.fields()[1]));
            assert(writable(Self::kinds()[2], self.fields()[2]));
            assert(writable(Self::kinds()[4], self.fields()[4]));
            let vs0 = Seq::<FieldValue>::empty();
            lemma_encode_record_push(vs0, FieldValue::Uuid(self.proposal_id@));
            let vs1 = vs0.push(FieldValue::Uuid(self.proposal_id@));
            lemma_encode_record_push(vs1, FieldValue::Str(self.key_id@));
            let vs2 = vs1.push(FieldValue::Str(self.key_id@));
            lemma_encode_record_push(vs2, FieldValue::Bytes(self.signature@));
            let vs3 = vs2.push(FieldValue::Bytes(self.signature@));
            lemma_encode_record_push(vs3, FieldValue::Bool(self.withdraw));
            let vs4 = vs3.push(FieldValue::Bool(self.withdraw));
            lemma_encode_record_push(vs4, FieldValue::Tags(self.unknown_tagged_fields@));
            let vs5 = vs4.push(FieldValue::Tags(self.unknown_tagged_fields@));
            assert(vs5 =~= self.fields());
        }
        UUID_LEN
            + compact_string_len(self.key_id.as_str())
            + compact_bytes_len(self.signature.as_slice())
            + BOOL_LEN
            + unknown_tagged_fields_len(&self.unknown_tagged_fields)
    }

    fn decode(buf: &[u8], pos: usize, version: i16) -> (res: Result<(Self, usize), ProtocolError>) {
        check_version(API_KEY, version, MIN_VERSION, MAX_VERSION)?;
        let ghost ks = Self::kinds();
        let ghost s = buf@.skip(pos as int);
        proof {
            lemma_record_step(ks, s, 0, Seq::<FieldValue>::empty(), 0);
        }
        let (proposal_id, p1) = get_uuid(buf, pos)?;
        let ghost vs1 = seq![FieldValue::Uuid(proposal_id@)];
        proof {
            lemma_record_step(ks, s, 1, vs1, (p1 - pos) as nat);
        }
        let (key_id, p2) = get_compact_string(buf, p1)?;
        let ghost vs2 = vs1.push(FieldValue::Str(key_id@));
        proof {
            lemma_record_step(ks, s, 2, vs2, (p2 - pos) as nat);
        }
        let (signature, p3) = get_compact_bytes(buf, p2)?;
        let ghost vs3 = vs2.push(FieldValue::Bytes(signature@));
        proof {
            lemma_record_step(ks, s, 3, vs3, (p3 - pos) as nat);
        }
        let (withdraw, p4) = get_bool(buf, p3)?;
        let ghost vs4 = vs3.push(FieldValue::Bool(withdraw));
        proof {
            lemma_record_step(ks, s, 4, vs4, (p4 - pos) as nat);
        }
        let (unknown_tagged_fields, p5) = read_unknown_tagged_fields(buf, p4)?;
        let ghost vs5 = vs4.push(FieldValue::Tags(unknown_tagged_fields@));
        let v = Self { proposal_id, key_id, signature, withdraw, unknown_tagged_fields };
        assert(ks.take(5) =~= ks);
        assert(v.fields() =~= vs5);
        Ok((v, p5))
    }
}

/// Outcome of an [`ApproveBreakGlassRequest`].
#[derive(Debug, Clone, PartialEq, Eq, Default)]
pub struct ApproveBreakGlassResponse {
    /// Milliseconds that the broker held the request back for a quota.
    pub throttle_time_ms: i32,
    /// Kafka error code. `0` means the controller recorded the approval, or
    /// withdrew the proposal.
    pub error_code: i16,
    /// Text that explains a non-zero `error_code`. `None` when the broker has
    /// nothing to add to the code.
    pub error_message: Option<String>,
    /// Number of distinct principals that have approved the proposal after this
    /// request. A caller compares it with `approvals_required` to see whether
    /// the proposal can now authorize its action.
    pub approvals_held: i32,
    /// Number of distinct principals that the proposal needs. The broker holds
    /// this value in its configuration, and the minimum is two.
    pub approvals_required: i32,
    /// Tagged fields that this build does not know.
    pub unknown_tagged_fields: UnknownTaggedFields,
}

impl Wire for ApproveBreakGlassResponse {
    open spec fn kinds() -> Seq<FieldKind> {
        seq![FieldKind::Int32, FieldKind::Int16, FieldKind::NullableStr, FieldKind::Int32, FieldKind::Int32, FieldKind::Tags]
    }

    open spec fn fields(&self) -> Seq<FieldValue> {
        seq![FieldValue::Int32(self.throttle_time_ms), FieldValue::Int16(self.error_code), FieldValue::NullableStr(opt_view(self.error_message)), FieldValue::Int32(self.approvals_held), FieldValue::Int32(self.approvals_required), FieldValue::Tags(self.unknown_tagged_fields@)]
    }

    open spec fn supports(version: i16) -> bool {
        MIN_VERSION <= version <= MAX_VERSION
    }

    open spec fn api_key() -> i16 {
        API_KEY
    }

    fn encode(&self, buf: &mut Vec<u8>, version: i16) -> (res: Result<(), ProtocolError>) {
        check_version(API_KEY, version, MIN_VERSION, MAX_VERSION)?;
        proof {
            lemma_record_fields(Self::kinds(), self.fields());
            assert(writable(Self::kinds()[2], self.fields()[2]));
            assert(writable(Self::kinds()[5], self.fields()[5]));
        }
        let ghost vs0 = Seq::<FieldValue>::empty();
        put_i32(buf, self.throttle_time_ms);
        proof {
            lemma_encode_record_push(vs0, FieldValue::Int32(self.throttle_time_ms));
        }
        let ghost vs1 = vs0.push(FieldValue::Int32(self.throttle_time_ms));
        assert(buf@ =~= old(buf)@ + encode_record(vs1));
        put_i16(buf, self.error_code);
        proof {
            lemma_encode_record_push(vs1, FieldValue::Int16(self.error_code));
        }
        let ghost vs2 = vs1.push(FieldValue::Int16(self.error_code));
        assert(buf@ =~= old(buf)@ + encode_record(vs2));
        put_compact_nullable_string(buf, &self.error_message);
        proof {
            lemma_encode_record_push(vs2, FieldValue::NullableStr(opt_view(self.error_message)));
        }
        let ghost vs3 = vs2.push(FieldValue::NullableStr(opt_view(self.error_message)));
        assert(buf@ =~= old(buf)@ + encode_record(vs3));
        put_i32(buf, self.approvals_held);
        proof {
            lemma_encode_record_push(vs3, FieldValue::Int32(self.approvals_held));
        }
        let ghost vs4 = vs3.push(FieldValue::Int32(self.approvals_held));
        assert(buf@ =~= old(buf)@ + encode_record(vs4));
        put_i32(buf, self.approvals_required);
        proof {
            lemma_encode_record_push(vs4, FieldValue::Int32(self.approvals_required));
        }
        let ghost vs5 = vs4.push(FieldValue::Int32(self.approvals_required));
        assert(buf@ =~= old(buf)@ + encode_record(vs5));
        write_unknown_tagged_fields(buf, &self.unknown_tagged_fields);
        proof {
            lemma_encode_record_push(vs5, FieldValue::Tags(self.unknown_tagged_fields@));
        }
        let ghost vs6 = vs5.push(FieldValue::Tags(self.unknown_tagged_fields@));
        assert(buf@ =~= old(buf)@ + encode_record(vs6));
        assert(vs6 =~= self.fields());
        Ok(())
    }

    fn encoded_len(&self, version: i16) -> (n: usize) {
        proof {
            lemma_record_fields(Self::kinds(), self.fields());
            assert(writable(Self::kinds()[2], self.fields()[2]));
            assert(writable(Self::kinds()[5], self.fields()[5]));
            let vs0 = Seq::<FieldValue>::empty();
            lemma_encode_record_push(vs0, FieldValue::Int32(self.throttle_time_ms));
            let vs1 = vs0.push(FieldValue::Int32(self.throttle_time_ms));
            lemma_encode_record_push(vs1, FieldValue::Int16(self.error_code));
            let vs2 = vs1.push(FieldValue::Int16(self.error_code));
            lemma_encode_record_push(vs2, FieldValue::NullableStr(opt_view(self.error_message)));
            let vs3 = vs2.push(FieldValue::NullableStr(opt_view(self.error_message)));
            lemma_encode_record_push(vs3, FieldValue::Int32(self.approvals_held));
            let vs4 = vs3.push(FieldValue::Int32(self.approvals_held));
            lemma_encode_record_push(vs4, FieldValue::Int32(self.approvals_required));
            let vs5 = vs4.push(FieldValue::Int32(self.approvals_required));
            lemma_encode_record_push(vs5, FieldValue::Tags(self.unknown_tagged_fields@));
            let vs6 = vs5.push(FieldValue::Tags(self.unknown_tagged_fields@));
            assert(vs6 =~= self.fields());
        }
        I32_LEN
            + I16_LEN
            + compact_nullable_string_len(&self.error_message)
            + I32_LEN
            + I32_LEN
            + unknown_tagged_fields_len(&self.unknown_tagged_fields)
    }

    fn decode(buf: &[u8], pos: usize, version: i16) -> (res: Result<(Self, usize), ProtocolError>) {
        check_version(API_KEY, version, MIN_VERSION, MAX_VERSION)?;
        let ghost ks = Self::kinds();
        let ghost s = buf@.skip(pos as int);
        proof {
            lemma_record_step(ks, s, 0, Seq::<FieldValue>::empty(), 0);
        }
        let (throttle_time_ms, p1) = get_i32(buf, pos)?;
        let ghost vs1 = seq![FieldValue::Int32(throttle_time_ms)];
        proof {
            lemma_record_step(ks, s, 1, vs1, (p1 - pos) as nat);
        }
        let (error_code, p2) = get_i16(buf, p1)?;
        let ghost vs2 = vs1.push(FieldValue::Int16(error_code));
        proof {
            lemma_record_step(ks, s, 2, vs2, (p2 - pos) as nat);
        }
        let (error_message, p3) = get_compact_nullable_string(buf, p2)?;
        let ghost vs3 = vs2.push(FieldValue::NullableStr(opt_view(error_message)));
        proof {
            lemma_record_step(ks, s, 3, vs3, (p3 - pos) as nat);
        }
        let (approvals_held, p4) = get_i32(buf, p3)?;
        let ghost vs4 = vs3.push(FieldValue::Int32(approvals_held));
        proof {
            lemma_record_step(ks, s, 4, vs4, (p4 - pos) as nat);
        }
        let (approvals_required, p5) = get_i32(buf, p4)?;
        let ghost vs5 = vs4.push(FieldValue::Int32(approvals_required));
        proof {
            lemma_record_step(ks, s, 5, vs5, (p5 - pos) as nat);
        }
        let (unknown_tagged_fields, p6) = read_unknown_tagged_fields(buf, p5)?;
        let ghost vs6 = vs5.push(FieldValue::Tags(unknown_tagged_fields@));
        let v = Self { throttle_time_ms, error_code, error_message, approvals_held, approvals_required, unknown_tagged_fields };
        assert(ks.take(6) =~= ks);
        assert(v.fields() =~= vs6);
        Ok((v, p6))
    }
}

/// The bytes of every [`ApproveBreakGlassRequest`] hold its fields in the order of the schema:
/// `proposal_id`, `key_id`, `signature`, `withdraw`, `unknown_tagged_fields`.
pub proof fn lemma_approve_break_glass_request_layout(x: ApproveBreakGlassRequest)
    ensures
        encode_record(x.fields()) == x.proposal_id@
            + crate::wire::compact_str(x.key_id@)
            + crate::wire::encode_field(FieldValue::Bytes(x.signature@))
            + seq![if x.withdraw { 1u8 } else { 0u8 }]
            + crate::wire::encode_field(FieldValue::Tags(x.unknown_tagged_fields@)),
{
    let vs0 = Seq::<FieldValue>::empty();
    assert(encode_record(vs0) =~= Seq::<u8>::empty());
    crate::wire::lemma_encode_record_push(vs0, FieldValue::Uuid(x.proposal_id@));
    let vs1 = vs0.push(FieldValue::Uuid(x.proposal_id@));
    crate::wire::lemma_encode_record_push(vs1, FieldValue::Str(x.key_id@));
    let vs2 = vs1.push(FieldValue::Str(x.key_id@));
    crate::wire::lemma_encode_record_push(vs2, FieldValue::Bytes(x.signature@));
    let vs3 = vs2.push(FieldValue::Bytes(x.signature@));
    crate::wire::lemma_encode_record_push(vs3, FieldValue::Bool(x.withdraw));
    let vs4 = vs3.push(FieldValue::Bool(x.withdraw));
    crate::wire::lemma_encode_record_push(vs4, FieldValue::Tags(x.unknown_tagged_fields@));
    let vs5 = vs4.push(FieldValue::Tags(x.unknown_tagged_fields@));
    assert(vs5 =~= x.fields());
    assert(Seq::<u8>::empty() + crate::wire::encode_field(FieldValue::Uuid(x.proposal_id@)) =~= crate::wire::encode_field(FieldValue::Uuid(x.proposal_id@)));
}

/// The bytes of every [`ApproveBreakGlassResponse`] hold its fields in the order of the schema:
/// `throttle_time_ms`, `error_code`, `error_message`, `approvals_held`, `approvals_required`, `unknown_tagged_fields`.
pub proof fn lemma_approve_break_glass_response_layout(x: ApproveBreakGlassResponse)
    ensures
        encode_record(x.fields()) == crate::wire::int_bytes(x.throttle_time_ms as int, 4)
            + crate::wire::int_bytes(x.error_code as int, 2)
            + crate::wire::encode_field(FieldValue::NullableStr(opt_view(x.error_message)))
            + crate::wire::int_bytes(x.approvals_held as int, 4)
            + crate::wire::int_bytes(x.approvals_required as int, 4)
            + crate::wire::encode_field(FieldValue::Tags(x.unknown_tagged_fields@)),
{
    let vs0 = Seq::<FieldValue>::empty();
    assert(encode_record(vs0) =~= Seq::<u8>::empty());
    crate::wire::lemma_encode_record_push(vs0, FieldValue::Int32(x.throttle_time_ms));
    let vs1 = vs0.push(FieldValue::Int32(x.throttle_time_ms));
    crate::wire::lemma_encode_record_push(vs1, FieldValue::Int16(x.error_code));
    let vs2 = vs1.push(FieldValue::Int16(x.error_code));
    crate::wire::lemma_encode_record_push(vs2, FieldValue::NullableStr(opt_view(x.error_message)));
    let vs3 = vs2.push(FieldValue::NullableStr(opt_view(x.error_message)));
    crate::wire::lemma_encode_record_push(vs3, FieldValue::Int32(x.approvals_held));
    let vs4 = vs3.push(FieldValue::Int32(x.approvals_held));
    crate::wire::lemma_encode_record_push(vs4, FieldValue::Int32(x.approvals_required));
    let vs5 = vs4.push(FieldValue::Int32(x.approvals_required));
    crate::wire::lemma_encode_record_push(vs5, FieldValue::Tags(x.unknown_tagged_fields@));
    let vs6 = vs5.push(FieldValue::Tags(x.unknown_tagged_fields@));
    assert(vs6 =~= x.fields());
    assert(Seq::<u8>::empty() + crate::wire::encode_field(FieldValue::Int32(x.throttle_time_ms)) =~= crate::wire::encode_field(FieldValue::Int32(x.throttle_time_ms)));
}

} // verus!
