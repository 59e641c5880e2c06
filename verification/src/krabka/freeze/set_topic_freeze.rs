//! `SetTopicFreeze`, api key 1015.
//!
//! One request sets a write freeze on a scope, or it removes one. A scope is a
//! literal topic name or a topic-name prefix. The controller writes the outcome
//! to the metadata log, so the freeze holds after a restart.
//!
//! A freeze refuses every produce to a topic that the scope covers. A thaw
//! gives the topic back to its producers. The two directions are not
//! symmetrical. A freeze is the safe direction and one command sets it. A thaw
//! is the dangerous direction, so it names the break-glass proposal that
//! approved it in `proposal_id`.
//!
//! # Signature
//!
//! `key_id` and `signature` carry a detached Ed25519 signature that the
//! operator makes on their own machine. The private key never reaches a broker.
//! Both fields are empty for an unsigned request. The broker decides whether it
//! accepts an unsigned request, and it always refuses an unsigned thaw.

use vstd::prelude::*;

use crate::error::ProtocolError;
use crate::krabka::common::{
    check_version, lemma_record_fields, Wire, BOOL_LEN, I16_LEN, I32_LEN, I64_LEN, I8_LEN, UUID_LEN,
};
use crate::krabka::freeze::PATTERN_TYPE_LITERAL;
use crate::primitives::{
    compact_bytes_len, compact_nullable_string_len, compact_string_len, get_bool, get_compact_bytes,
    get_compact_nullable_string, get_compact_string, get_i16, get_i32, get_i64, get_i8, get_uuid,
    opt_view, put_bool, put_compact_bytes, put_compact_nullable_string, put_compact_string, put_i16,
    put_i32, put_i64, put_i8, put_uuid, Uuid,
};
use crate::tagged_fields::{
    read_unknown_tagged_fields, unknown_tagged_fields_len, write_unknown_tagged_fields,
    UnknownTaggedFields,
};
use crate::wire::{
    writable, encode_record, lemma_encode_record_push, lemma_record_step, FieldKind, FieldValue,
};

verus! {

broadcast use vstd::seq_lib::lemma_seq_skip_of_skip;

/// Api key of `SetTopicFreeze`.
pub const API_KEY: i16 = 1015;

/// Lowest version of `SetTopicFreeze` that this build speaks.
pub const MIN_VERSION: i16 = 0;

/// Highest version of `SetTopicFreeze` that this build speaks.
pub const MAX_VERSION: i16 = 0;

/// First version with flexible framing from KIP-482.
pub const FLEXIBLE_MIN: i16 = 0;

/// Reports whether `version` uses flexible framing from KIP-482.
///
/// The request header takes the same framing as the request body, so a caller
/// that writes the header needs this answer.
pub fn is_flexible(version: i16) -> (r: bool)
    ensures
        r == (version >= FLEXIBLE_MIN),
{
    version >= FLEXIBLE_MIN
}

/// Sets a write freeze on one scope, or removes one.
#[derive(Debug, Clone, PartialEq, Eq)]
pub struct SetTopicFreezeRequest {
    /// A literal topic name, or a topic-name prefix. `pattern_type` says which.
    pub scope: String,
    /// [`PATTERN_TYPE_LITERAL`] or
    /// [`PATTERN_TYPE_PREFIXED`](super::PATTERN_TYPE_PREFIXED).
    pub pattern_type: i8,
    /// `true` sets the freeze. `false` removes it, and that is the thaw.
    pub frozen: bool,
    /// Text that says why the operator set or removed the freeze. The broker
    /// keeps it in the metadata log and in the audit event.
    pub reason: String,
    /// The break-glass proposal that approved a thaw. It is nil for a freeze,
    /// because a freeze needs no approval.
    pub proposal_id: Uuid,
    /// Milliseconds since the Unix epoch, at the moment the operator signed the
    /// request. The broker refuses a value outside its skew window, and it
    /// refuses a value that is not newer than the entry that this one replaces.
    pub set_at_ms: i64,
    /// The operator key that made `signature`. It is empty for an unsigned
    /// request.
    pub key_id: String,
    /// Detached Ed25519 signature over the canonical bytes of the freeze. It is
    /// empty for an unsigned request.
    pub signature: Vec<u8>,
    /// Tagged fields that this build does not know.
    pub unknown_tagged_fields: UnknownTaggedFields,
}

impl Wire for SetTopicFreezeRequest {
    open spec fn kinds() -> Seq<FieldKind> {
        seq![FieldKind::Str, FieldKind::Int8, FieldKind::Bool, FieldKind::Str, FieldKind::Uuid, FieldKind::Int64, FieldKind::Str, FieldKind::Bytes, FieldKind::Tags]
    }

    open spec fn fields(&self) -> Seq<FieldValue> {
        seq![FieldValue::Str(self.scope@), FieldValue::Int8(self.pattern_type), FieldValue::Bool(self.frozen), FieldValue::Str(self.reason@), FieldValue::Uuid(self.proposal_id@), FieldValue::Int64(self.set_at_ms), FieldValue::Str(self.key_id@), FieldValue::Bytes(self.signature@), FieldValue::Tags(self.unknown_tagged_fields@)]
    }

    open spec fn supports(version: i16) -> bool {
        MIN_VERSION <= version <= MAX_VERSION
    }

    open spec fn api_key() -> i16 {
        API_KEY
    }

    fn encode(&self, buf: &mut Vec<u8>, version: i16) -> (res: Result<(), ProtocolError>) {
        check_version(API_KEY, version, MIN_VERSION, MAX_VERSION)?;
        proof {
            lemma_record_fields(Self::kinds(), self.fields());
            assert(writable(Self::kinds()[0], self.fields()[0]));
            assert(writable(Self::kinds()[3], self.fields()[3]));
            assert(writable(Self::kinds()[6], self.fields()[6]));
            assert(writable(Self::kinds()[7], self.fields()[7]));
            assert(writable(Self::kinds()[8], self.fields()[8]));
        }
        let ghost vs0 = Seq::<FieldValue>::empty();
        put_compact_string(buf, self.scope.as_str());
        proof {
            lemma_encode_record_push(vs0, FieldValue::Str(self.scope@));
        }
        let ghost vs1 = vs0.push(FieldValue::Str(self.scope@));
        assert(buf@ =~= old(buf)@ + encode_record(vs1));
        put_i8(buf, self.pattern_type);
        proof {
            lemma_encode_record_push(vs1, FieldValue::Int8(self.pattern_type));
        }
        let ghost vs2 = vs1.push(FieldValue::Int8(self.pattern_type));
        assert(buf@ =~= old(buf)@ + encode_record(vs2));
        put_bool(buf, self.frozen);
        proof {
            lemma_encode_record_push(vs2, FieldValue::Bool(self.frozen));
        }
        let ghost vs3 = vs2.push(FieldValue::Bool(self.frozen));
        assert(buf@ =~= old(buf)@ + encode_record(vs3));
        put_compact_string(buf, self.reason.as_str());
        proof {
            lemma_encode_record_push(vs3, FieldValue::Str(self.reason@));
        }
        let ghost vs4 = vs3.push(FieldValue::Str(self.reason@));
        assert(buf@ =~= old(buf)@ + encode_record(vs4));
        put_uuid(buf, &self.proposal_id);
        proof {
            lemma_encode_record_push(vs4, FieldValue::Uuid(self.proposal_id@));
        }
        let ghost vs5 = vs4.push(FieldValue::Uuid(self.proposal_id@));
        assert(buf@ =~= old(buf)@ + encode_record(vs5));
        put_i64(buf, self.set_at_ms);
        proof {
            lemma_encode_record_push(vs5, FieldValue::Int64(self.set_at_ms));
        }
        let ghost vs6 = vs5.push(FieldValue::Int64(self.set_at_ms));
        assert(buf@ =~= old(buf)@ + encode_record(vs6));
        put_compact_string(buf, self.key_id.as_str());
        proof {
            lemma_encode_record_push(vs6, FieldValue::Str(self.key_id@));
        }
        let ghost vs7 = vs6.push(FieldValue::Str(self.key_id@));
        assert(buf@ =~= old(buf)@ + encode_record(vs7));
        put_compact_bytes(buf, self.signature.as_slice());
        proof {
            lemma_encode_record_push(vs7, FieldValue::Bytes(self.signature@));
        }
        let ghost vs8 = vs7.push(FieldValue::Bytes(self.signature@));
        assert(buf@ =~= old(buf)@ + encode_record(vs8));
        write_unknown_tagged_fields(buf, &self.unknown_tagged_fields);
        proof {
            lemma_encode_record_push(vs8, FieldValue::Tags(self.unknown_tagged_fields@));
        }
        let ghost vs9 = vs8.push(FieldValue::Tags(self.unknown_tagged_fields@));
        assert(buf@ =~= old(buf)@ + encode_record(vs9));
        assert(vs9 =~= self.fields());
        Ok(())
    }

    fn encoded_len(&self, version: i16) -> (n: usize) {
        proof {
            lemma_record_fields(Self::kinds(), self.fields());
            assert(writable(Self::kinds()[0], self.fields()[0]));
            assert(writable(Self::kinds()[3], self.fields()[3]));
            assert(writable(Self::kinds()[6], self.fields()[6]));
            assert(writable(Self::kinds()[7], self.fields()[7]));
            assert(writable(Self::kinds()[8], self.fields()[8]));
            let vs0 = Seq::<FieldValue>::empty();
            lemma_encode_record_push(vs0, FieldValue::Str(self.scope@));
            let vs1 = vs0.push(FieldValue::Str(self.scope@));
            lemma_encode_record_push(vs1, FieldValue::Int8(self.pattern_type));
            let vs2 = vs1.push(FieldValue::Int8(self.pattern_type));
            lemma_encode_record_push(vs2, FieldValue::Bool(self.frozen));
            let vs3 = vs2.push(FieldValue::Bool(self.frozen));
            lemma_encode_record_push(vs3, FieldValue::Str(self.reason@));
            let vs4 = vs3.push(FieldValue::Str(self.reason@));
            lemma_encode_record_push(vs4, FieldValue::Uuid(self.proposal_id@));
            let vs5 = vs4.push(FieldValue::Uuid(self.proposal_id@));
            lemma_encode_record_push(vs5, FieldValue::Int64(self.set_at_ms));
            let vs6 = vs5.push(FieldValue::Int64(self.set_at_ms));
            lemma_encode_record_push(vs6, FieldValue::Str(self.key_id@));
            let vs7 = vs6.push(FieldValue::Str(self.key_id@));
            lemma_encode_record_push(vs7, FieldValue::Bytes(self.signature@));
            let vs8 = vs7.push(FieldValue::Bytes(self.signature@));
            lemma_encode_record_push(vs8, FieldValue::Tags(self.unknown_tagged_fields@));
            let vs9 = vs8.push(FieldValue::Tags(self.unknown_tagged_fields@));
            assert(vs9 =~= self.fields());
        }
        compact_string_len(self.scope.as_str())
            + I8_LEN
            + BOOL_LEN
            + compact_string_len(self.reason.as_str())
            + UUID_LEN
            + I64_LEN
            + compact_string_len(self.key_id.as_str())
            + compact_bytes_len(self.signature.as_slice())
            + unknown_tagged_fields_len(&self.unknown_tagged_fields)
    }

    #[verifier::rlimit(40)]
    fn decode(buf: &[u8], pos: usize, version: i16) -> (res: Result<(Self, usize), ProtocolError>) {
        check_version(API_KEY, version, MIN_VERSION, MAX_VERSION)?;
        let ghost ks = Self::kinds();
        let ghost s = buf@.skip(pos as int);
        proof {
            lemma_record_step(ks, s, 0, Seq::<FieldValue>::empty(), 0);
        }
        let (scope, p1) = get_compact_string(buf, pos)?;
        let ghost vs1 = seq![FieldValue::Str(scope@)];
        proof {
            lemma_record_step(ks, s, 1, vs1, (p1 - pos) as nat);
        }
        let (pattern_type, p2) = get_i8(buf, p1)?;
        let ghost vs2 = vs1.push(FieldValue::Int8(pattern_type));
        proof {
            lemma_record_step(ks, s, 2, vs2, (p2 - pos) as nat);
        }
        let (frozen, p3) = get_bool(buf, p2)?;
        let ghost vs3 = vs2.push(FieldValue::Bool(frozen));
        proof {
            lemma_record_step(ks, s, 3, vs3, (p3 - pos) as nat);
        }
        let (reason, p4) = get_compact_string(buf, p3)?;
        let ghost vs4 = vs3.push(FieldValue::Str(reason@));
        proof {
            lemma_record_step(ks, s, 4, vs4, (p4 - pos) as nat);
        }
        let (proposal_id, p5) = get_uuid(buf, p4)?;
        let ghost vs5 = vs4.push(FieldValue::Uuid(proposal_id@));
        proof {
            lemma_record_step(ks, s, 5, vs5, (p5 - pos) as nat);
        }
        let (set_at_ms, p6) = get_i64(buf, p5)?;
        let ghost vs6 = vs5.push(FieldValue::Int64(set_at_ms));
        proof {
            lemma_record_step(ks, s, 6, vs6, (p6 - pos) as nat);
        }
        let (key_id, p7) = get_compact_string(buf, p6)?;
        let ghost vs7 = vs6.push(FieldValue::Str(key_id@));
        proof {
            lemma_record_step(ks, s, 7, vs7, (p7 - pos) as nat);
        }
        let (signature, p8) = get_compact_bytes(buf, p7)?;
        let ghost vs8 = vs7.push(FieldValue::Bytes(signature@));
        proof {
            lemma_record_step(ks, s, 8, vs8, (p8 - pos) as nat);
        }
        let (unknown_tagged_fields, p9) = read_unknown_tagged_fields(buf, p8)?;
        let ghost vs9 = vs8.push(FieldValue::Tags(unknown_tagged_fields@));
        let v = Self { scope, pattern_type, frozen, reason, proposal_id, set_at_ms, key_id, signature, unknown_tagged_fields };
        assert(ks.take(9) =~= ks);
        assert(v.fields() =~= vs9);
        Ok((v, p9))
    }
}

impl Default for SetTopicFreezeRequest {
    fn default() -> (r: Self)
        ensures
            r.scope@ == Seq::<char>::empty(),
            r.pattern_type == PATTERN_TYPE_LITERAL,
            r.frozen == true,
            r.reason@ == Seq::<char>::empty(),
            r.proposal_id@ == Seq::new(16, |_i: int| 0u8),
            r.set_at_ms == 0,
            r.key_id@ == Seq::<char>::empty(),
            r.signature@ == Seq::<u8>::empty(),
            r.unknown_tagged_fields@ == Seq::<(u32, Seq<u8>)>::empty(),
    {
        let r = Self {
            scope: String::new(),
            pattern_type: PATTERN_TYPE_LITERAL,
            frozen: true,
            reason: String::new(),
            proposal_id: Uuid::zero(),
            set_at_ms: 0,
            key_id: String::new(),
            signature: Vec::new(),
            unknown_tagged_fields: UnknownTaggedFields::default(),
        };
        r
    }
}

/// Outcome of a [`SetTopicFreezeRequest`].
#[derive(Debug, Clone, PartialEq, Eq, Default)]
pub struct SetTopicFreezeResponse {
    /// Milliseconds that the broker held the request back for a quota.
    pub throttle_time_ms: i32,
    /// Kafka error code. `0` means the controller applied the request.
    pub error_code: i16,
    /// Text that explains a non-zero `error_code`. `None` when the broker has
    /// nothing to add to the code.
    pub error_message: Option<String>,
    /// Tagged fields that this build does not know.
    pub unknown_tagged_fields: UnknownTaggedFields,
}

impl Wire for SetTopicFreezeResponse {
    open spec fn kinds() -> Seq<FieldKind> {
        seq![FieldKind::Int32, FieldKind::Int16, FieldKind::NullableStr, FieldKind::Tags]
    }

    open spec fn fields(&self) -> Seq<FieldValue> {
        seq![FieldValue::Int32(self.throttle_time_ms), FieldValue::Int16(self.error_code), FieldValue::NullableStr(opt_view(self.error_message)), FieldValue::Tags(self.unknown_tagged_fields@)]
    }

    open spec fn supports(version: i16) -> bool {
        MIN_VERSION <= version <= MAX_VERSION
    }

    open spec fn api_key() -> i16 {
        API_KEY
    }

    fn encode(&self, buf: &mut Vec<u8>, version: i16) -> (res: Result<(), ProtocolError>) {
        check_version(API_KEY, version, MIN_VERSION, MAX_VERSION)?;
        proof {
            lemma_record_fields(Self::kinds(), self.fields());
            assert(writable(Self::kinds()[2], self.fields()[2]));
            assert(writable(Self::kinds()[3], self.fields()[3]));
        }
        let ghost vs0 = Seq::<FieldValue>::empty();
        put_i32(buf, self.throttle_time_ms);
        proof {
            lemma_encode_record_push(vs0, FieldValue::Int32(self.throttle_time_ms));
        }
        let ghost vs1 = vs0.push(FieldValue::Int32(self.throttle_time_ms));
        assert(buf@ =~= old(buf)@ + encode_record(vs1));
        put_i16(buf, self.error_code);
        proof {
            lemma_encode_record_push(vs1, FieldValue::Int16(self.error_code));
        }
        let ghost vs2 = vs1.push(FieldValue::Int16(self.error_code));
        assert(buf@ =~= old(buf)@ + encode_record(vs2));
        put_compact_nullable_string(buf, &self.error_message);
        proof {
            lemma_encode_record_push(vs2, FieldValue::NullableStr(opt_view(self.error_message)));
        }
        let ghost vs3 = vs2.push(FieldValue::NullableStr(opt_view(self.error_message)));
        assert(buf@ =~= old(buf)@ + encode_record(vs3));
        write_unknown_tagged_fields(buf, &self.unknown_tagged_fields);
        proof {
            lemma_encode_record_push(vs3, FieldValue::Tags(self.unknown_tagged_fields@));
        }
        let ghost vs4 = vs3.push(FieldValue::Tags(self.unknown_tagged_fields@));
        assert(buf@ =~= old(buf)@ + encode_record(vs4));
        assert(vs4 =~= self.fields());
        Ok(())
    }

    fn encoded_len(&self, version: i16) -> (n: usize) {
        proof {
            lemma_record_fields(Self::kinds(), self.fields());
            assert(writable(Self::kinds()[2], self.fields()[2]));
            assert(writable(Self::kinds()[3], self.fields()[3]));
            let vs0 = Seq::<FieldValue>::empty();
            lemma_encode_record_push(vs0, FieldValue::Int32(self.throttle_time_ms));
            let vs1 = vs0.push(FieldValue::Int32(self.throttle_time_ms));
            lemma_encode_record_push(vs1, FieldValue::Int16(self.error_code));
            let vs2 = vs1.push(FieldValue::Int16(self.error_code));
            lemma_encode_record_push(vs2, FieldValue::NullableStr(opt_view(self.error_message)));
            let vs3 = vs2.push(FieldValue::NullableStr(opt_view(self.error_message)));
            lemma_encode_record_push(vs3, FieldValue::Tags(self.unknown_tagged_fields@));
            let vs4 = vs3.push(FieldValue::Tags(self.unknown_tagged_fields@));
            assert(vs4 =~= self.fields());
        }
        I32_LEN
            + I16_LEN
            + compact_nullable_string_len(&self.error_message)
            + unknown_tagged_fields_len(&self.unknown_tagged_fields)
    }

    fn decode(buf: &[u8], pos: usize, version: i16) -> (res: Result<(Self, usize), ProtocolError>) {
        check_version(API_KEY, version, MIN_VERSION, MAX_VERSION)?;
        let ghost ks = Self::kinds();
        let ghost s = buf@.skip(pos as int);
        proof {
            lemma_record_step(ks, s, 0, Seq::<FieldValue>::empty(), 0);
        }
        let (throttle_time_ms, p1) = get_i32(buf, pos)?;
        let ghost vs1 = seq![FieldValue::Int32(throttle_time_ms)];
        proof {
            lemma_record_step(ks, s, 1, vs1, (p1 - pos) as nat);
        }
        let (error_code, p2) = get_i16(buf, p1)?;
        let ghost vs2 = vs1.push(FieldValue::Int16(error_code));
        proof {
            lemma_record_step(ks, s, 2, vs2, (p2 - pos) as nat);
        }
        let (error_message, p3) = get_compact_nullable_string(buf, p2)?;
        let ghost vs3 = vs2.push(FieldValue::NullableStr(opt_view(error_message)));
        proof {
            lemma_record_step(ks, s, 3, vs3, (p3 - pos) as nat);
        }
        let (unknown_tagged_fields, p4) = read_unknown_tagged_fields(buf, p3)?;
        let ghost vs4 = vs3.push(FieldValue::Tags(unknown_tagged_fields@));
        let v = Self { throttle_time_ms, error_code, error_message, unknown_tagged_fields };
        assert(ks.take(4) =~= ks);
        assert(v.fields() =~= vs4);
        Ok((v, p4))
    }
}

/// The bytes of every [`SetTopicFreezeRequest`] hold its fields in the order of the schema:
/// `scope`, `pattern_type`, `frozen`, `reason`, `proposal_id`, `set_at_ms`, `key_id`, `signature`, `unknown_tagged_fields`.
pub proof fn lemma_set_topic_freeze_request_layout(x: SetTopicFreezeRequest)
    ensures
        encode_record(x.fields()) == crate::wire::compact_str(x.scope@)
            + crate::wire::int_bytes(x.pattern_type as int, 1)
            + seq![if x.frozen { 1u8 } else { 0u8 }]
            + crate::wire::compact_str(x.reason@)
            + x.proposal_id@
            + crate::wire::int_bytes(x.set_at_ms as int, 8)
            + crate::wire::compact_str(x.key_id@)
            + crate::wire::encode_field(FieldValue::Bytes(x.signature@))
            + crate::wire::encode_field(FieldValue::Tags(x.unknown_tagged_fields@)),
{
    let vs0 = Seq::<FieldValue>::empty();
    assert(encode_record(vs0) =~= Seq::<u8>::empty());
    crate::wire::lemma_encode_record_push(vs0, FieldValue::Str(x.scope@));
    let vs1 = vs0.push(FieldValue::Str(x.scope@));
    crate::wire::lemma_encode_record_push(vs1, FieldValue::Int8(x.pattern_type));
    let vs2 = vs1.push(FieldValue::Int8(x.pattern_type));
    crate::wire::lemma_encode_record_push(vs2, FieldValue::Bool(x.frozen));
    let vs3 = vs2.push(FieldValue::Bool(x.frozen));
    crate::wire::lemma_encode_record_push(vs3, FieldValue::Str(x.reason@));
    let vs4 = vs3.push(FieldValue::Str(x.reason@));
    crate::wire::lemma_encode_record_push(vs4, FieldValue::Uuid(x.proposal_id@));
    let vs5 = vs4.push(FieldValue::Uuid(x.proposal_id@));
    crate::wire::lemma_encode_record_push(vs5, FieldValue::Int64(x.set_at_ms));
    let vs6 = vs5.push(FieldValue::Int64(x.set_at_ms));
    crate::wire::lemma_encode_record_push(vs6, FieldValue::Str(x.key_id@));
    let vs7 = vs6.push(FieldValue::Str(x.key_id@));
    crate::wire::lemma_encode_record_push(vs7, FieldValue::Bytes(x.signature@));
    let vs8 = vs7.push(FieldValue::Bytes(x.signature@));
    crate::wire::lemma_encode_record_push(vs8, FieldValue::Tags(x.unknown_tagged_fields@));
    let vs9 = vs8.push(FieldValue::Tags(x.unknown_tagged_fields@));
    assert(vs9 =~= x.fields());
    assert(Seq::<u8>::empty() + crate::wire::encode_field(FieldValue::Str(x.scope@)) =~= crate::wire::encode_field(FieldValue::Str(x.scope@)));
}

/// The bytes of every [`SetTopicFreezeResponse`] hold its fields in the order of the schema:
/// `throttle_time_ms`, `error_code`, `error_message`, `unknown_tagged_fields`.
pub proof fn lemma_set_topic_freeze_response_layout(x: SetTopicFreezeResponse)
    ensures
        encode_record(x.fields()) == crate::wire::int_bytes(x.throttle_time_ms as int, 4)
            + crate::wire::int_bytes(x.error_code as int, 2)
            + crate::wire::encode_field(FieldValue::NullableStr(opt_view(x.error_message)))
            + crate::wire::encode_field(FieldValue::Tags(x.unknown_tagged_fields@)),
{
    let vs0 = Seq::<FieldValue>::empty();
    assert(encode_record(vs0) =~= Seq::<u8>::empty());
    crate::wire::lemma_encode_record_push(vs0, FieldValue::Int32(x.throttle_time_ms));
    let vs1 = vs0.push(FieldValue::Int32(x.throttle_time_ms));
    crate::wire::lemma_encode_record_push(vs1, FieldValue::Int16(x.error_code));
    let vs2 = vs1.push(FieldValue::Int16(x.error_code));
    crate::wire::lemma_encode_record_push(vs2, FieldValue::NullableStr(opt_view(x.error_message)));
    let vs3 = vs2.push(FieldValue::NullableStr(opt_view(x.error_message)));
    crate::wire::lemma_encode_record_push(vs3, FieldValue::Tags(x.unknown_tagged_fields@));
    let vs4 = vs3.push(FieldValue::Tags(x.unknown_tagged_fields@));
    assert(vs4 =~= x.fields());
    assert(Seq::<u8>::empty() + crate::wire::encode_field(FieldValue::Int32(x.throttle_time_ms)) =~= crate::wire::encode_field(FieldValue::Int32(x.throttle_time_ms)));
}

} // verus!
