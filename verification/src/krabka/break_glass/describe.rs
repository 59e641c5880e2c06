//! `DescribeBreakGlass`, api key 1019.
//!
//! The request reads break-glass proposals. A nil `proposal_id` asks for every
//! proposal that the controller holds, and `pending_only` drops the proposals
//! that an action consumed, that an operator withdrew, or that expired.
//!
//! Each approval carries the `key_id` and the `signature` that the approver
//! sent. The response gives them back on purpose, so an operator tool
//! re-verifies each approval against the operator public keys on its own
//! machine.

use vstd::prelude::*;

use crate::error::ProtocolError;
use crate::krabka::common::{
    array_len, check_version, decode_array, encode_array, lemma_record_fields, records_of, Wire,
    BOOL_LEN, I16_LEN, I32_LEN, I64_LEN, I8_LEN, UUID_LEN,
};
use crate::primitives::{
    compact_bytes_len, compact_nullable_string_len, compact_string_len, get_bool, get_compact_bytes,
    get_compact_nullable_string, get_compact_string, get_i16, get_i32, get_i64, get_i8, get_uuid,
    opt_view, put_bool, put_compact_bytes, put_compact_nullable_string, put_compact_string, put_i16,
    put_i32, put_i64, put_i8, put_uuid, Uuid,
};
use crate::tagged_fields::{
    read_unknown_tagged_fields, unknown_tagged_fields_len, write_unknown_tagged_fields,
    UnknownTaggedFields,
};
use crate::wire::{
    writable, encode_record, lemma_encode_record_push, lemma_record_step, FieldKind, FieldValue,
};

verus! {

broadcast use vstd::seq_lib::lemma_seq_skip_of_skip;

/// Api key of `DescribeBreakGlass`.
pub const API_KEY: i16 = 1019;

/// Lowest version of `DescribeBreakGlass` that this build speaks.
pub const MIN_VERSION: i16 = 0;

/// Highest version of `DescribeBreakGlass` that this build speaks.
pub const MAX_VERSION: i16 = 0;

/// First version with flexible framing from KIP-482.
pub const FLEXIBLE_MIN: i16 = 0;

/// Reports whether `version` uses flexible framing from KIP-482.
///
/// The request header takes the same framing as the request body, so a caller
/// that writes the header needs this answer.
pub fn is_flexible(version: i16) -> (r: bool)
    ensures
        r == (version >= FLEXIBLE_MIN),
{
    version >= FLEXIBLE_MIN
}

/// Reads break-glass proposals.
#[derive(Debug, Clone, PartialEq, Eq, Default)]
pub struct DescribeBreakGlassRequest {
    /// `true` returns only the proposals that can still authorize an action.
    pub pending_only: bool,
    /// The proposal to read. A nil id asks for every proposal.
    pub proposal_id: Uuid,
    /// Tagged fields that this build does not know.
    pub unknown_tagged_fields: UnknownTaggedFields,
}

impl Wire for DescribeBreakGlassRequest {
    open spec fn kinds() -> Seq<FieldKind> {
        seq![FieldKind::Bool, FieldKind::Uuid, FieldKind::Tags]
    }

    open spec fn fields(&self) -> Seq<FieldValue> {
        seq![FieldValue::Bool(self.pending_only), FieldValue::Uuid(self.proposal_id@), FieldValue::Tags(self.unknown_tagged_fields@)]
    }

    open spec fn supports(version: i16) -> bool {
        MIN_VERSION <= version <= MAX_VERSION
    }

    open spec fn api_key() -> i16 {
        API_KEY
    }

    fn encode(&self, buf: &mut Vec<u8>, version: i16) -> (res: Result<(), ProtocolError>) {
        check_version(API_KEY, version, MIN_VERSION, MAX_VERSION)?;
        proof {
            lemma_record_fields(Self::kinds(), self.fields());
            assert(writable(Self::kinds()[2], self.fields()[2]));
        }
        let ghost vs0 = Seq::<FieldValue>::empty();
        put_bool(buf, self.pending_only);
        proof {
            lemma_encode_record_push(vs0, FieldValue::Bool(self.pending_only));
        }
        let ghost vs1 = vs0.push(FieldValue::Bool(self.pending_only));
        assert(buf@ =~= old(buf)@ + encode_record(vs1));
        put_uuid(buf, &self.proposal_id);
        proof {
            lemma_encode_record_push(vs1, FieldValue::Uuid(self.proposal_id@));
        }
        let ghost vs2 = vs1.push(FieldValue::Uuid(self.proposal_id@));
        assert(buf@ =~= old(buf)@ + encode_record(vs2));
        write_unknown_tagged_fields(buf, &self.unknown_tagged_fields);
        proof {
            lemma_encode_record_push(vs2, FieldValue::Tags(self.unknown_tagged_fields@));
        }
        let ghost vs3 = vs2.push(FieldValue::Tags(self.unknown_tagged_fields@));
        assert(buf@ =~= old(buf)@ + encode_record(vs3));
        assert(vs3 =~= self.fields());
        Ok(())
    }

    fn encoded_len(&self, version: i16) -> (n: usize) {
        proof {
            lemma_record_fields(Self::kinds(), self.fields());
            assert(writable(Self::kinds()[2], self.fields()[2]));
            let vs0 = Seq::<FieldValue>::empty();
            lemma_encode_record_push(vs0, FieldValue::Bool(self.pending_only));
            let vs1 = vs0.push(FieldValue::Bool(self.pending_only));
            lemma_encode_record_push(vs1, FieldValue::Uuid(self.proposal_id@));
            let vs2 = vs1.push(FieldValue::Uuid(self.proposal_id@));
            lemma_encode_record_push(vs2, FieldValue::Tags(self.unknown_tagged_fields@));
            let vs3 = vs2.push(FieldValue::Tags(self.unknown_tagged_fields@));
            assert(vs3 =~= self.fields());
        }
        BOOL_LEN
            + UUID_LEN
            + unknown_tagged_fields_len(&self.unknown_tagged_fields)
    }

    fn decode(buf: &[u8], pos: usize, version: i16) -> (res: Result<(Self, usize), ProtocolError>) {
        check_version(API_KEY, version, MIN_VERSION, MAX_VERSION)?;
        let ghost ks = Self::kinds();
        let ghost s = buf@.skip(pos as int);
        proof {
            lemma_record_step(ks, s, 0, Seq::<FieldValue>::empty(), 0);
        }
        let (pending_only, p1) = get_bool(buf, pos)?;
        let ghost vs1 = seq![FieldValue::Bool(pending_only)];
        proof {
            lemma_record_step(ks, s, 1, vs1, (p1 - pos) as nat);
        }
        let (proposal_id, p2) = get_uuid(buf, p1)?;
        let ghost vs2 = vs1.push(FieldValue::Uuid(proposal_id@));
        proof {
            lemma_record_step(ks, s, 2, vs2, (p2 - pos) as nat);
        }
        let (unknown_tagged_fields, p3) = read_unknown_tagged_fields(buf, p2)?;
        let ghost vs3 = vs2.push(FieldValue::Tags(unknown_tagged_fields@));
        let v = Self { pending_only, proposal_id, unknown_tagged_fields };
        assert(ks.take(3) =~= ks);
        assert(v.fields() =~= vs3);
        Ok((v, p3))
    }
}

/// One approval of a break-glass proposal.
#[derive(Debug, Clone, PartialEq, Eq, Default)]
pub struct BreakGlassApproval {
    /// The principal that the broker authenticated when it took the approval.
    /// Every approval of one proposal names a different principal.
    pub principal: String,
    /// Milliseconds since the Unix epoch, at the moment the controller recorded
    /// the approval.
    pub approved_at_ms: i64,
    /// The operator key that made `signature`. It is empty for an unsigned
    /// approval.
    pub key_id: String,
    /// Detached Ed25519 signature over the canonical bytes of the proposal. It
    /// is empty for an unsigned approval.
    pub signature: Vec<u8>,
    /// Tagged fields that this build does not know.
    pub unknown_tagged_fields: UnknownTaggedFields,
}

impl Wire for BreakGlassApproval {
    open spec fn kinds() -> Seq<FieldKind> {
        seq![FieldKind::Str, FieldKind::Int64, FieldKind::Str, FieldKind::Bytes, FieldKind::Tags]
    }

    open spec fn fields(&self) -> Seq<FieldValue> {
        seq![FieldValue::Str(self.principal@), FieldValue::Int64(self.approved_at_ms), FieldValue::Str(self.key_id@), FieldValue::Bytes(self.signature@), FieldValue::Tags(self.unknown_tagged_fields@)]
    }

    open spec fn supports(version: i16) -> bool {
        true
    }

    open spec fn api_key() -> i16 {
        0
    }

    fn encode(&self, buf: &mut Vec<u8>, version: i16) -> (res: Result<(), ProtocolError>) {
        proof {
            lemma_record_fields(Self::kinds(), self.fields());
            assert(writable(Self::kinds()[0], self.fields()[0]));
            assert(writable(Self::kinds()[2], self.fields()[2]));
            assert(writable(Self::kinds()[3], self.fields()[3]));
            assert(writable(Self::kinds()[4], self.fields()[4]));
        }
        let ghost vs0 = Seq::<FieldValue>::empty();
        put_compact_string(buf, self.principal.as_str());
        proof {
            lemma_encode_record_push(vs0, FieldValue::Str(self.principal@));
        }
        let ghost vs1 = vs0.push(FieldValue::Str(self.principal@));
        assert(buf@ =~= old(buf)@ + encode_record(vs1));
        put_i64(buf, self.approved_at_ms);
        proof {
            lemma_encode_record_push(vs1, FieldValue::Int64(self.approved_at_ms));
        }
        let ghost vs2 = vs1.push(FieldValue::Int64(self.approved_at_ms));
        assert(buf@ =~= old(buf)@ + encode_record(vs2));
        put_compact_string(buf, self.key_id.as_str());
        proof {
            lemma_encode_record_push(vs2, FieldValue::Str(self.key_id@));
        }
        let ghost vs3 = vs2.push(FieldValue::Str(self.key_id@));
        assert(buf@ =~= old(buf)@ + encode_record(vs3));
        put_compact_bytes(buf, self.signature.as_slice());
        proof {
            lemma_encode_record_push(vs3, FieldValue::Bytes(self.signature@));
        }
        let ghost vs4 = vs3.push(FieldValue::Bytes(self.signature@));
        assert(buf@ =~= old(buf)@ + encode_record(vs4));
        write_unknown_tagged_fields(buf, &self.unknown_tagged_fields);
        proof {
            lemma_encode_record_push(vs4, FieldValue::Tags(self.unknown_tagged_fields@));
        }
        let ghost vs5 = vs4.push(FieldValue::Tags(self.unknown_tagged_fields@));
        assert(buf@ =~= old(buf)@ + encode_record(vs5));
        assert(vs5 =~= self.fields());
        Ok(())
    }

    fn encoded_len(&self, version: i16) -> (n: usize) {
        proof {
            lemma_record_fields(Self::kinds(), self.fields());
            assert(writable(Self::kinds()[0], self.fields()[0]));
            assert(writable(Self::kinds()[2], self.fields()[2]));
            assert(writable(Self::kinds()[3], self.fields()[3]));
            assert(writable(Self::kinds()[4], self.fields()[4]));
            let vs0 = Seq::<FieldValue>::empty();
            lemma_encode_record_push(vs0, FieldValue::Str(self.principal@));
            let vs1 = vs0.push(FieldValue::Str(self.principal@));
            lemma_encode_record_push(vs1, FieldValue::Int64(self.approved_at_ms));
            let vs2 = vs1.push(FieldValue::Int64(self.approved_at_ms));
            lemma_encode_record_push(vs2, FieldValue::Str(self.key_id@));
            let vs3 = vs2.push(FieldValue::Str(self.key_id@));
            lemma_encode_record_push(vs3, FieldValue::Bytes(self.signature@));
            let vs4 = vs3.push(FieldValue::Bytes(self.signature@));
            lemma_encode_record_push(vs4, FieldValue::Tags(self.unknown_tagged_fields@));
            let vs5 = vs4.push(FieldValue::Tags(self.unknown_tagged_fields@));
            assert(vs5 =~= self.fields());
        }
        compact_string_len(self.principal.as_str())
            + I64_LEN
            + compact_string_len(self.key_id.as_str())
            + compact_bytes_len(self.signature.as_slice())
            + unknown_tagged_fields_len(&self.unknown_tagged_fields)
    }

    fn decode(buf: &[u8], pos: usize, version: i16) -> (res: Result<(Self, usize), ProtocolError>) {
        let ghost ks = Self::kinds();
        let ghost s = buf@.skip(pos as int);
        proof {
            lemma_record_step(ks, s, 0, Seq::<FieldValue>::empty(), 0);
        }
        let (principal, p1) = get_compact_string(buf, pos)?;
        let ghost vs1 = seq![FieldValue::Str(principal@)];
        proof {
            lemma_record_step(ks, s, 1, vs1, (p1 - pos) as nat);
        }
        let (approved_at_ms, p2) = get_i64(buf, p1)?;
        let ghost vs2 = vs1.push(FieldValue::Int64(approved_at_ms));
        proof {
            lemma_record_step(ks, s, 2, vs2, (p2 - pos) as nat);
        }
        let (key_id, p3) = get_compact_string(buf, p2)?;
        let ghost vs3 = vs2.push(FieldValue::Str(key_id@));
        proof {
            lemma_record_step(ks, s, 3, vs3, (p3 - pos) as nat);
        }
        let (signature, p4) = get_compact_bytes(buf, p3)?;
        let ghost vs4 = vs3.push(FieldValue::Bytes(signature@));
        proof {
            lemma_record_step(ks, s, 4, vs4, (p4 - pos) as nat);
        }
        let (unknown_tagged_fields, p5) = read_unknown_tagged_fields(buf, p4)?;
        let ghost vs5 = vs4.push(FieldValue::Tags(unknown_tagged_fields@));
        let v = Self { principal, approved_at_ms, key_id, signature, unknown_tagged_fields };
        assert(ks.take(5) =~= ks);
        assert(v.fields() =~= vs5);
        Ok((v, p5))
    }
}

/// One break-glass proposal, and the approvals that it holds.
#[derive(Debug, Clone, PartialEq, Eq, Default)]
pub struct DescribedBreakGlassProposal {
    /// Id of the proposal.
    pub proposal_id: Uuid,
    /// The privileged action to gate. The value is the wire value of the
    /// broker's break-glass action, as [`super`] describes.
    pub action: i8,
    /// What the action applies to.
    pub target: String,
    /// The principal that opened the proposal. It cannot approve the proposal.
    pub proposer: String,
    /// Text that says why the operator needs the action.
    pub reason: String,
    /// Milliseconds since the Unix epoch, at the moment the controller opened
    /// the proposal.
    pub created_at_ms: i64,
    /// Milliseconds since the Unix epoch, at the moment the proposal expires.
    pub expires_at_ms: i64,
    /// Milliseconds since the Unix epoch, at the moment an action consumed the
    /// proposal. `0` means that no action consumed it. A proposal authorizes
    /// one action only.
    pub consumed_at_ms: i64,
    /// `true` means that an operator withdrew the proposal.
    pub withdrawn: bool,
    /// One entry for each approval, in the order that the controller recorded
    /// them.
    pub approvals: Vec<BreakGlassApproval>,
    /// Tagged fields that this build does not know.
    pub unknown_tagged_fields: UnknownTaggedFields,
}

impl Wire for DescribedBreakGlassProposal {
    open spec fn kinds() -> Seq<FieldKind> {
        seq![FieldKind::Uuid, FieldKind::Int8, FieldKind::Str, FieldKind::Str, FieldKind::Str, FieldKind::Int64, FieldKind::Int64, FieldKind::Int64, FieldKind::Bool, FieldKind::Structs(BreakGlassApproval::kinds()), FieldKind::Tags]
    }

    open spec fn fields(&self) -> Seq<FieldValue> {
        seq![FieldValue::Uuid(self.proposal_id@), FieldValue::Int8(self.action), FieldValue::Str(self.target@), FieldValue::Str(self.proposer@), FieldValue::Str(self.reason@), FieldValue::Int64(self.created_at_ms), FieldValue::Int64(self.expires_at_ms), FieldValue::Int64(self.consumed_at_ms), FieldValue::Bool(self.withdrawn), FieldValue::Structs(records_of(self.approvals@)), FieldValue::Tags(self.unknown_tagged_fields@)]
    }

    open spec fn supports(version: i16) -> bool {
        true
    }

    open spec fn api_key() -> i16 {
        0
    }

    fn encode(&self, buf: &mut Vec<u8>, version: i16) -> (res: Result<(), ProtocolError>) {
        proof {
            lemma_record_fields(Self::kinds(), self.fields());
            assert(writable(Self::kinds()[2], self.fields()[2]));
            assert(writable(Self::kinds()[3], self.fields()[3]));
            assert(writable(Self::kinds()[4], self.fields()[4]));
            assert(writable(Self::kinds()[9], self.fields()[9]));
            assert(writable(Self::kinds()[10], self.fields()[10]));
        }
        let ghost vs0 = Seq::<FieldValue>::empty();
        put_uuid(buf, &self.proposal_id);
        proof {
            lemma_encode_record_push(vs0, FieldValue::Uuid(self.proposal_id@));
        }
        let ghost vs1 = vs0.push(FieldValue::Uuid(self.proposal_id@));
        assert(buf@ =~= old(buf)@ + encode_record(vs1));
        put_i8(buf, self.action);
        proof {
            lemma_encode_record_push(vs1, FieldValue::Int8(self.action));
        }
        let ghost vs2 = vs1.push(FieldValue::Int8(self.action));
        assert(buf@ =~= old(buf)@ + encode_record(vs2));
        put_compact_string(buf, self.target.as_str());
        proof {
            lemma_encode_record_push(vs2, FieldValue::Str(self.target@));
        }
        let ghost vs3 = vs2.push(FieldValue::Str(self.target@));
        assert(buf@ =~= old(buf)@ + encode_record(vs3));
        put_compact_string(buf, self.proposer.as_str());
        proof {
            lemma_encode_record_push(vs3, FieldValue::Str(self.proposer@));
        }
        let ghost vs4 = vs3.push(FieldValue::Str(self.proposer@));
        assert(buf@ =~= old(buf)@ + encode_record(vs4));
        put_compact_string(buf, self.reason.as_str());
        proof {
            lemma_encode_record_push(vs4, FieldValue::Str(self.reason@));
        }
        let ghost vs5 = vs4.push(FieldValue::Str(self.reason@));
        assert(buf@ =~= old(buf)@ + encode_record(vs5));
        put_i64(buf, self.created_at_ms);
        proof {
            lemma_encode_record_push(vs5, FieldValue::Int64(self.created_at_ms));
        }
        let ghost vs6 = vs5.push(FieldValue::Int64(self.created_at_ms));
        assert(buf@ =~= old(buf)@ + encode_record(vs6));
        put_i64(buf, self.expires_at_ms);
        proof {
            lemma_encode_record_push(vs6, FieldValue::Int64(self.expires_at_ms));
        }
        let ghost vs7 = vs6.push(FieldValue::Int64(self.expires_at_ms));
        assert(buf@ =~= old(buf)@ + encode_record(vs7));
        put_i64(buf, self.consumed_at_ms);
        proof {
            lemma_encode_record_push(vs7, FieldValue::Int64(self.consumed_at_ms));
        }
        let ghost vs8 = vs7.push(FieldValue::Int64(self.consumed_at_ms));
        assert(buf@ =~= old(buf)@ + encode_record(vs8));
        put_bool(buf, self.withdrawn);
        proof {
            lemma_encode_record_push(vs8, FieldValue::Bool(self.withdrawn));
        }
        let ghost vs9 = vs8.push(FieldValue::Bool(self.withdrawn));
        assert(buf@ =~= old(buf)@ + encode_record(vs9));
        encode_array(buf, self.approvals.as_slice(), version)?;
        proof {
            lemma_encode_record_push(vs9, FieldValue::Structs(records_of(self.approvals@)));
        }
        let ghost vs10 = vs9.push(FieldValue::Structs(records_of(self.approvals@)));
        assert(buf@ =~= old(buf)@ + encode_record(vs10));
        write_unknown_tagged_fields(buf, &self.unknown_tagged_fields);
        proof {
            lemma_encode_record_push(vs10, FieldValue::Tags(self.unknown_tagged_fields@));
        }
        let ghost vs11 = vs10.push(FieldValue::Tags(self.unknown_tagged_fields@));
        assert(buf@ =~= old(buf)@ + encode_record(vs11));
        assert(vs11 =~= self.fields());
        Ok(())
    }

    fn encoded_len(&self, version: i16) -> (n: usize) {
        proof {
            lemma_record_fields(Self::kinds(), self.fields());
            assert(writable(Self::kinds()[2], self.fields()[2]));
            assert(writable(Self::kinds()[3], self.fields()[3]));
            assert(writable(Self::kinds()[4], self.fields()[4]));
            assert(writable(Self::kinds()[9], self.fields()[9]));
            assert(writable(Self::kinds()[10], self.fields()[10]));
            let vs0 = Seq::<FieldValue>::empty();
            lemma_encode_record_push(vs0, FieldValue::Uuid(self.proposal_id@));
            let vs1 = vs0.push(FieldValue::Uuid(self.proposal_id@));
            lemma_encode_record_push(vs1, FieldValue::Int8(self.action));
            let vs2 = vs1.push(FieldValue::Int8(self.action));
            lemma_encode_record_push(vs2, FieldValue::Str(self.target@));
            let vs3 = vs2.push(FieldValue::Str(self.target@));
            lemma_encode_record_push(vs3, FieldValue::Str(self.proposer@));
            let vs4 = vs3.push(FieldValue::Str(self.proposer@));
            lemma_encode_record_push(vs4, FieldValue::Str(self.reason@));
            let vs5 = vs4.push(FieldValue::Str(self.reason@));
            lemma_encode_record_push(vs5, FieldValue::Int64(self.created_at_ms));
            let vs6 = vs5.push(FieldValue::Int64(self.created_at_ms));
            lemma_encode_record_push(vs6, FieldValue::Int64(self.expires_at_ms));
            let vs7 = vs6.push(FieldValue::Int64(self.expires_at_ms));
            lemma_encode_record_push(vs7, FieldValue::Int64(self.consumed_at_ms));
            let vs8 = vs7.push(FieldValue::Int64(self.consumed_at_ms));
            lemma_encode_record_push(vs8, FieldValue::Bool(self.withdrawn));
            let vs9 = vs8.push(FieldValue::Bool(self.withdrawn));
            lemma_encode_record_push(vs9, FieldValue::Structs(records_of(self.approvals@)));
            let vs10 = vs9.push(FieldValue::Structs(records_of(self.approvals@)));
            lemma_encode_record_push(vs10, FieldValue::Tags(self.unknown_tagged_fields@));
            let vs11 = vs10.push(FieldValue::Tags(self.unknown_tagged_fields@));
            assert(vs11 =~= self.fields());
        }
        UUID_LEN
            + I8_LEN
            + compact_string_len(self.target.as_str())
            + compact_string_len(self.proposer.as_str())
            + compact_string_len(self.reason.as_str())
            + I64_LEN
            + I64_LEN
            + I64_LEN
            + BOOL_LEN
            + array_len(self.approvals.as_slice(), version)
            + unknown_tagged_fields_len(&self.unknown_tagged_fields)
    }

    #[verifier::rlimit(40)]
    fn decode(buf: &[u8], pos: usize, version: i16) -> (res: Result<(Self, usize), ProtocolError>) {
        let ghost ks = Self::kinds();
        let ghost s = buf@.skip(pos as int);
        proof {
            lemma_record_step(ks, s, 0, Seq::<FieldValue>::empty(), 0);
        }
        let (proposal_id, p1) = get_uuid(buf, pos)?;
        let ghost vs1 = seq![FieldValue::Uuid(proposal_id@)];
        proof {
            lemma_record_step(ks, s, 1, vs1, (p1 - pos) as nat);
        }
        let (action, p2) = get_i8(buf, p1)?;
        let ghost vs2 = vs1.push(FieldValue::Int8(action));
        proof {
            lemma_record_step(ks, s, 2, vs2, (p2 - pos) as nat);
        }
        let (target, p3) = get_compact_string(buf, p2)?;
        let ghost vs3 = vs2.push(FieldValue::Str(target@));
        proof {
            lemma_record_step(ks, s, 3, vs3, (p3 - pos) as nat);
        }
        let (proposer, p4) = get_compact_string(buf, p3)?;
        let ghost vs4 = vs3.push(FieldValue::Str(proposer@));
        proof {
            lemma_record_step(ks, s, 4, vs4, (p4 - pos) as nat);
        }
        let (reason, p5) = get_compact_string(buf, p4)?;
        let ghost vs5 = vs4.push(FieldValue::Str(reason@));
        proof {
            lemma_record_step(ks, s, 5, vs5, (p5 - pos) as nat);
        }
        let (created_at_ms, p6) = get_i64(buf, p5)?;
        let ghost vs6 = vs5.push(FieldValue::Int64(created_at_ms));
        proof {
            lemma_record_step(ks, s, 6, vs6, (p6 - pos) as nat);
        }
        let (expires_at_ms, p7) = get_i64(buf, p6)?;
        let ghost vs7 = vs6.push(FieldValue::Int64(expires_at_ms));
        proof {
            lemma_record_step(ks, s, 7, vs7, (p7 - pos) as nat);
        }
        let (consumed_at_ms, p8) = get_i64(buf, p7)?;
        let ghost vs8 = vs7.push(FieldValue::Int64(consumed_at_ms));
        proof {
            lemma_record_step(ks, s, 8, vs8, (p8 - pos) as nat);
        }
        let (withdrawn, p9) = get_bool(buf, p8)?;
        let ghost vs9 = vs8.push(FieldValue::Bool(withdrawn));
        proof {
            lemma_record_step(ks, s, 9, vs9, (p9 - pos) as nat);
        }
        let (approvals, p10) = decode_array::<BreakGlassApproval>(buf, p9, version)?;
        let ghost vs10 = vs9.push(FieldValue::Structs(records_of(approvals@)));
        proof {
            lemma_record_step(ks, s, 10, vs10, (p10 - pos) as nat);
        }
        let (unknown_tagged_fields, p11) = read_unknown_tagged_fields(buf, p10)?;
        let ghost vs11 = vs10.push(FieldValue::Tags(unknown_tagged_fields@));
        let v = Self { proposal_id, action, target, proposer, reason, created_at_ms, expires_at_ms, consumed_at_ms, withdrawn, approvals, unknown_tagged_fields };
        assert(ks.take(11) =~= ks);
        assert(v.fields() =~= vs11);
        Ok((v, p11))
    }
}

/// The proposals that a [`DescribeBreakGlassRequest`] asked for.
#[derive(Debug, Clone, PartialEq, Eq, Default)]
pub struct DescribeBreakGlassResponse {
    /// Milliseconds that the broker held the request back for a quota.
    pub throttle_time_ms: i32,
    /// Kafka error code. `0` means `proposals` holds the answer.
    pub error_code: i16,
    /// Text that explains a non-zero `error_code`. `None` when the broker has
    /// nothing to add to the code.
    pub error_message: Option<String>,
    /// One entry for each proposal that the request matched.
    pub proposals: Vec<DescribedBreakGlassProposal>,
    /// Tagged fields that this build does not know.
    pub unknown_tagged_fields: UnknownTaggedFields,
}

impl Wire for DescribeBreakGlassResponse {
    open spec fn kinds() -> Seq<FieldKind> {
        seq![FieldKind::Int32, FieldKind::Int16, FieldKind::NullableStr, FieldKind::Structs(DescribedBreakGlassProposal::kinds()), FieldKind::Tags]
    }

    open spec fn fields(&self) -> Seq<FieldValue> {
        seq![FieldValue::Int32(self.throttle_time_ms), FieldValue::Int16(self.error_code), FieldValue::NullableStr(opt_view(self.error_message)), FieldValue::Structs(records_of(self.proposals@)), FieldValue::Tags(self.unknown_tagged_fields@)]
    }

    open spec fn supports(version: i16) -> bool {
        MIN_VERSION <= version <= MAX_VERSION
    }

    open spec fn api_key() -> i16 {
        API_KEY
    }

    fn encode(&self, buf: &mut Vec<u8>, version: i16) -> (res: Result<(), ProtocolError>) {
        check_version(API_KEY, version, MIN_VERSION, MAX_VERSION)?;
        proof {
            lemma_record_fields(Self::kinds(), self.fields());
            assert(writable(Self::kinds()[2], self.fields()[2]));
            assert(writable(Self::kinds()[3], self.fields()[3]));
            assert(writable(Self::kinds()[4], self.fields()[4]));
        }
        let ghost vs0 = Seq::<FieldValue>::empty();
        put_i32(buf, self.throttle_time_ms);
        proof {
            lemma_encode_record_push(vs0, FieldValue::Int32(self.throttle_time_ms));
        }
        let ghost vs1 = vs0.push(FieldValue::Int32(self.throttle_time_ms));
        assert(buf@ =~= old(buf)@ + encode_record(vs1));
        put_i16(buf, self.error_code);
        proof {
            lemma_encode_record_push(vs1, FieldValue::Int16(self.error_code));
        }
        let ghost vs2 = vs1.push(FieldValue::Int16(self.error_code));
        assert(buf@ =~= old(buf)@ + encode_record(vs2));
        put_compact_nullable_string(buf, &self.error_message);
        proof {
            lemma_encode_record_push(vs2, FieldValue::NullableStr(opt_view(self.error_message)));
        }
        let ghost vs3 = vs2.push(FieldValue::NullableStr(opt_view(self.error_message)));
        assert(buf@ =~= old(buf)@ + encode_record(vs3));
        encode_array(buf, self.proposals.as_slice(), version)?;
        proof {
            lemma_encode_record_push(vs3, FieldValue::Structs(records_of(self.proposals@)));
        }
        let ghost vs4 = vs3.push(FieldValue::Structs(records_of(self.proposals@)));
        assert(buf@ =~= old(buf)@ + encode_record(vs4));
        write_unknown_tagged_fields(buf, &self.unknown_tagged_fields);
        proof {
            lemma_encode_record_push(vs4, FieldValue::Tags(self.unknown_tagged_fields@));
        }
        let ghost vs5 = vs4.push(FieldValue::Tags(self.unknown_tagged_fields@));
        assert(buf@ =~= old(buf)@ + encode_record(vs5));
        assert(vs5 =~= self.fields());
        Ok(())
    }

    fn encoded_len(&self, version: i16) -> (n: usize) {
        proof {
            lemma_record_fields(Self::kinds(), self.fields());
            assert(writable(Self::kinds()[2], self.fields()[2]));
            assert(writable(Self::kinds()[3], self.fields()[3]));
            assert(writable(Self::kinds()[4], self.fields()[4]));
            let vs0 = Seq::<FieldValue>::empty();
            lemma_encode_record_push(vs0, FieldValue::Int32(self.throttle_time_ms));
            let vs1 = vs0.push(FieldValue::Int32(self.throttle_time_ms));
            lemma_encode_record_push(vs1, FieldValue::Int16(self.error_code));
            let vs2 = vs1.push(FieldValue::Int16(self.error_code));
            lemma_encode_record_push(vs2, FieldValue::NullableStr(opt_view(self.error_message)));
            let vs3 = vs2.push(FieldValue::NullableStr(opt_view(self.error_message)));
            lemma_encode_record_push(vs3, FieldValue::Structs(records_of(self.proposals@)));
            let vs4 = vs3.push(FieldValue::Structs(records_of(self.proposals@)));
            lemma_encode_record_push(vs4, FieldValue::Tags(self.unknown_tagged_fields@));
            let vs5 = vs4.push(FieldValue::Tags(self.unknown_tagged_fields@));
            assert(vs5 =~= self.fields());
        }
        I32_LEN
            + I16_LEN
            + compact_nullable_string_len(&self.error_message)
            + array_len(self.proposals.as_slice(), version)
            + unknown_tagged_fields_len(&self.unknown_tagged_fields)
    }

    fn decode(buf: &[u8], pos: usize, version: i16) -> (res: Result<(Self, usize), ProtocolError>) {
        check_version(API_KEY, version, MIN_VERSION, MAX_VERSION)?;
        let ghost ks = Self::kinds();
        let ghost s = buf@.skip(pos as int);
        proof {
            lemma_record_step(ks, s, 0, Seq::<FieldValue>::empty(), 0);
        }
        let (throttle_time_ms, p1) = get_i32(buf, pos)?;
        let ghost vs1 = seq![FieldValue::Int32(throttle_time_ms)];
        proof {
            lemma_record_step(ks, s, 1, vs1, (p1 - pos) as nat);
        }
        let (error_code, p2) = get_i16(buf, p1)?;
        let ghost vs2 = vs1.push(FieldValue::Int16(error_code));
        proof {
            lemma_record_step(ks, s, 2, vs2, (p2 - pos) as nat);
        }
        let (error_message, p3) = get_compact_nullable_string(buf, p2)?;
        let ghost vs3 = vs2.push(FieldValue::NullableStr(opt_view(error_message)));
        proof {
            lemma_record_step(ks, s, 3, vs3, (p3 - pos) as nat);
        }
        let (proposals, p4) = decode_array::<DescribedBreakGlassProposal>(buf, p3, version)?;
        let ghost vs4 = vs3.push(FieldValue::Structs(records_of(proposals@)));
        proof {
            lemma_record_step(ks, s, 4, vs4, (p4 - pos) as nat);
        }
        let (unknown_tagged_fields, p5) = read_unknown_tagged_fields(buf, p4)?;
        let ghost vs5 = vs4.push(FieldValue::Tags(unknown_tagged_fields@));
        let v = Self { throttle_time_ms, error_code, error_message, proposals, unknown_tagged_fields };
        assert(ks.take(5) =~= ks);
        assert(v.fields() =~= vs5);
        Ok((v, p5))
    }
}

/// The bytes of every [`DescribeBreakGlassRequest`] hold its fields in the order of the schema:
/// `pending_only`, `proposal_id`, `unknown_tagged_fields`.
pub proof fn lemma_describe_break_glass_request_layout(x: DescribeBreakGlassRequest)
    ensures
        encode_record(x.fields()) == seq![if x.pending_only { 1u8 } else { 0u8 }]
            + x.proposal_id@
            + crate::wire::encode_field(FieldValue::Tags(x.unknown_tagged_fields@)),
{
    let vs0 = Seq::<FieldValue>::empty();
    assert(encode_record(vs0) =~= Seq::<u8>::empty());
    crate::wire::lemma_encode_record_push(vs0, FieldValue::Bool(x.pending_only));
    let vs1 = vs0.push(FieldValue::Bool(x.pending_only));
    crate::wire::lemma_encode_record_push(vs1, FieldValue::Uuid(x.proposal_id@));
    let vs2 = vs1.push(FieldValue::Uuid(x.proposal_id@));
    crate::wire::lemma_encode_record_push(vs2, FieldValue::Tags(x.unknown_tagged_fields@));
    let vs3 = vs2.push(FieldValue::Tags(x.unknown_tagged_fields@));
    assert(vs3 =~= x.fields());
    assert(Seq::<u8>::empty() + crate::wire::encode_field(FieldValue::Bool(x.pending_only)) =~= crate::wire::encode_field(FieldValue::Bool(x.pending_only)));
}

/// The bytes of every [`BreakGlassApproval`] hold its fields in the order of the schema:
/// `principal`, `approved_at_ms`, `key_id`, `signature`, `unknown_tagged_fields`.
pub proof fn lemma_break_glass_approval_layout(x: BreakGlassApproval)
    ensures
        encode_record(x.fields()) == crate::wire::compact_str(x.principal@)
            + crate::wire::int_bytes(x.approved_at_ms as int, 8)
            + crate::wire::compact_str(x.key_id@)
            + crate::wire::encode_field(FieldValue::Bytes(x.signature@))
            + crate::wire::encode_field(FieldValue::Tags(x.unknown_tagged_fields@)),
{
    let vs0 = Seq::<FieldValue>::empty();
    assert(encode_record(vs0) =~= Seq::<u8>::empty());
    crate::wire::lemma_encode_record_push(vs0, FieldValue::Str(x.principal@));
    let vs1 = vs0.push(FieldValue::Str(x.principal@));
    crate::wire::lemma_encode_record_push(vs1, FieldValue::Int64(x.approved_at_ms));
    let vs2 = vs1.push(FieldValue::Int64(x.approved_at_ms));
    crate::wire::lemma_encode_record_push(vs2, FieldValue::Str(x.key_id@));
    let vs3 = vs2.push(FieldValue::Str(x.key_id@));
    crate::wire::lemma_encode_record_push(vs3, FieldValue::Bytes(x.signature@));
    let vs4 = vs3.push(FieldValue::Bytes(x.signature@));
    crate::wire::lemma_encode_record_push(vs4, FieldValue::Tags(x.unknown_tagged_fields@));
    let vs5 = vs4.push(FieldValue::Tags(x.unknown_tagged_fields@));
    assert(vs5 =~= x.fields());
    assert(Seq::<u8>::empty() + crate::wire::encode_field(FieldValue::Str(x.principal@)) =~= crate::wire::encode_field(FieldValue::Str(x.principal@)));
}

/// The bytes of every [`DescribedBreakGlassProposal`] hold its fields in the order of the schema:
/// `proposal_id`, `action`, `target`, `proposer`, `reason`, `created_at_ms`, `expires_at_ms`, `consumed_at_ms`, `withdrawn`, `approvals`, `unknown_tagged_fields`.
pub proof fn lemma_described_break_glass_proposal_layout(x: DescribedBreakGlassProposal)
    ensures
        encode_record(x.fields()) == x.proposal_id@
            + crate::wire::int_bytes(x.action as int, 1)
            + crate::wire::compact_str(x.target@)
            + crate::wire::compact_str(x.proposer@)
            + crate::wire::compact_str(x.reason@)
            + crate::wire::int_bytes(x.created_at_ms as int, 8)
            + crate::wire::int_bytes(x.expires_at_ms as int, 8)
            + crate::wire::int_bytes(x.consumed_at_ms as int, 8)
            + seq![if x.withdrawn { 1u8 } else { 0u8 }]
            + crate::wire::encode_field(FieldValue::Structs(records_of(x.approvals@)))
            + crate::wire::encode_field(FieldValue::Tags(x.unknown_tagged_fields@)),
{
    let vs0 = Seq::<FieldValue>::empty();
    assert(encode_record(vs0) =~= Seq::<u8>::empty());
    crate::wire::lemma_encode_record_push(vs0, FieldValue::Uuid(x.proposal_id@));
    let vs1 = vs0.push(FieldValue::Uuid(x.proposal_id@));
    crate::wire::lemma_encode_record_push(vs1, FieldValue::Int8(x.action));
    let vs2 = vs1.push(FieldValue::Int8(x.action));
    crate::wire::lemma_encode_record_push(vs2, FieldValue::Str(x.target@));
    let vs3 = vs2.push(FieldValue::Str(x.target@));
    crate::wire::lemma_encode_record_push(vs3, FieldValue::Str(x.proposer@));
    let vs4 = vs3.push(FieldValue::Str(x.proposer@));
    crate::wire::lemma_encode_record_push(vs4, FieldValue::Str(x.reason@));
    let vs5 = vs4.push(FieldValue::Str(x.reason@));
    crate::wire::lemma_encode_record_push(vs5, FieldValue::Int64(x.created_at_ms));
    let vs6 = vs5.push(FieldValue::Int64(x.created_at_ms));
    crate::wire::lemma_encode_record_push(vs6, FieldValue::Int64(x.expires_at_ms));
    let vs7 = vs6.push(FieldValue::Int64(x.expires_at_ms));
    crate::wire::lemma_encode_record_push(vs7, FieldValue::Int64(x.consumed_at_ms));
    let vs8 = vs7.push(FieldValue::Int64(x.consumed_at_ms));
    crate::wire::lemma_encode_record_push(vs8, FieldValue::Bool(x.withdrawn));
    let vs9 = vs8.push(FieldValue::Bool(x.withdrawn));
    crate::wire::lemma_encode_record_push(vs9, FieldValue::Structs(records_of(x.approvals@)));
    let vs10 = vs9.push(FieldValue::Structs(records_of(x.approvals@)));
    crate::wire::lemma_encode_record_push(vs10, FieldValue::Tags(x.unknown_tagged_fields@));
    let vs11 = vs10.push(FieldValue::Tags(x.unknown_tagged_fields@));
    assert(vs11 =~= x.fields());
    assert(Seq::<u8>::empty() + crate::wire::encode_field(FieldValue::Uuid(x.proposal_id@)) =~= crate::wire::encode_field(FieldValue::Uuid(x.proposal_id@)));
}

/// The bytes of every [`DescribeBreakGlassResponse`] hold its fields in the order of the schema:
/// `throttle_time_ms`, `error_code`, `error_message`, `proposals`, `unknown_tagged_fields`.
pub proof fn lemma_describe_break_glass_response_layout(x: DescribeBreakGlassResponse)
    ensures
        encode_record(x.fields()) == crate::wire::int_bytes(x.throttle_time_ms as int, 4)
            + crate::wire::int_bytes(x.error_code as int, 2)
            + crate::wire::encode_field(FieldValue::NullableStr(opt_view(x.error_message)))
            + crate::wire::encode_field(FieldValue::Structs(records_of(x.proposals@)))
            + crate::wire::encode_field(FieldValue::Tags(x.unknown_tagged_fields@)),
{
    let vs0 = Seq::<FieldValue>::empty();
    assert(encode_record(vs0) =~= Seq::<u8>::empty());
    crate::wire::lemma_encode_record_push(vs0, FieldValue::Int32(x.throttle_time_ms));
    let vs1 = vs0.push(FieldValue::Int32(x.throttle_time_ms));
    crate::wire::lemma_encode_record_push(vs1, FieldValue::Int16(x.error_code));
    let vs2 = vs1.push(FieldValue::Int16(x.error_code));
    crate::wire::lemma_encode_record_push(vs2, FieldValue::NullableStr(opt_view(x.error_message)));
    let vs3 = vs2.push(FieldValue::NullableStr(opt_view(x.error_message)));
    crate::wire::lemma_encode_record_push(vs3, FieldValue::Structs(records_of(x.proposals@)));
    let vs4 = vs3.push(FieldValue::Structs(records_of(x.proposals@)));
    crate::wire::lemma_encode_record_push(vs4, FieldValue::Tags(x.unknown_tagged_fields@));
    let vs5 = vs4.push(FieldValue::Tags(x.unknown_tagged_fields@));
    assert(vs5 =~= x.fields());
    assert(Seq::<u8>::empty() + crate::wire::encode_field(FieldValue::Int32(x.throttle_time_ms)) =~= crate::wire::encode_field(FieldValue::Int32(x.throttle_time_ms)));
}

} // verus!
