//! `ListBarrierCuts`, api key 1013.
//!
//! The request reads cuts that the coordinator published before. It is the RPC
//! path to the manifest. Any Kafka consumer can read the same cuts from the
//! `__barrier_state` topic, which is the portable path for a client in another
//! language.

use vstd::prelude::*;

use crate::error::ProtocolError;
use crate::krabka::barrier::cut::{BarrierCutTopic, BarrierMissingPartition};
use crate::krabka::common::{
    array_len, check_version, decode_array, encode_array, lemma_record_fields, records_of, Wire,
    I16_LEN, I32_LEN, I64_LEN, I8_LEN,
};
use crate::primitives::{
    compact_nullable_string_len, compact_string_len, get_compact_nullable_string,
    get_compact_string, get_i16, get_i32, get_i64, get_i8, opt_view, put_compact_nullable_string,
    put_compact_string, put_i16, put_i32, put_i64, put_i8,
};
use crate::tagged_fields::{
    read_unknown_tagged_fields, unknown_tagged_fields_len, write_unknown_tagged_fields,
    UnknownTaggedFields,
};
use crate::wire::{
    writable, encode_record, lemma_encode_record_push, lemma_record_step, FieldKind, FieldValue,
};

verus! {

broadcast use vstd::seq_lib::lemma_seq_skip_of_skip;

/// Api key of `ListBarrierCuts`.
pub const API_KEY: i16 = 1013;

/// Lowest version of `ListBarrierCuts` that this build speaks.
pub const MIN_VERSION: i16 = 0;

/// Highest version of `ListBarrierCuts` that this build speaks.
pub const MAX_VERSION: i16 = 0;

/// First version with flexible framing from KIP-482.
pub const FLEXIBLE_MIN: i16 = 0;

/// Reports whether `version` uses flexible framing from KIP-482.
///
/// The request header takes the same framing as the request body, so a caller
/// that writes the header needs this answer.
pub fn is_flexible(version: i16) -> (r: bool)
    ensures
        r == (version >= FLEXIBLE_MIN),
{
    version >= FLEXIBLE_MIN
}

/// Reads the published cuts of one barrier group.
#[derive(Debug, Clone, PartialEq, Eq, Default)]
pub struct ListBarrierCutsRequest {
    /// Name of the barrier group to read.
    pub group: String,
    /// Lowest epoch to return. The coordinator returns cuts in epoch order from
    /// this epoch upward, and it includes this epoch.
    pub from_epoch: i64,
    /// Largest number of cuts to return.
    pub max_results: i32,
    /// Tagged fields that this build does not know.
    pub unknown_tagged_fields: UnknownTaggedFields,
}

impl Wire for ListBarrierCutsRequest {
    open spec fn kinds() -> Seq<FieldKind> {
        seq![FieldKind::Str, FieldKind::Int64, FieldKind::Int32, FieldKind::Tags]
    }

    open spec fn fields(&self) -> Seq<FieldValue> {
        seq![FieldValue::Str(self.group@), FieldValue::Int64(self.from_epoch), FieldValue::Int32(self.max_results), FieldValue::Tags(self.unknown_tagged_fields@)]
    }

    open spec fn supports(version: i16) -> bool {
        MIN_VERSION <= version <= MAX_VERSION
    }

    open spec fn api_key() -> i16 {
        API_KEY
    }

    fn encode(&self, buf: &mut Vec<u8>, version: i16) -> (res: Result<(), ProtocolError>) {
        check_version(API_KEY, version, MIN_VERSION, MAX_VERSION)?;
        proof {
            lemma_record_fields(Self::kinds(), self.fields());
            assert(writable(Self::kinds()[0], self.fields()[0]));
            assert(writable(Self::kinds()[3], self.fields()[3]));
        }
        let ghost vs0 = Seq::<FieldValue>::empty();
        put_compact_string(buf, self.group.as_str());
        proof {
            lemma_encode_record_push(vs0, FieldValue::Str(self.group@));
        }
        let ghost vs1 = vs0.push(FieldValue::Str(self.group@));
        assert(buf@ =~= old(buf)@ + encode_record(vs1));
        put_i64(buf, self.from_epoch);
        proof {
            lemma_encode_record_push(vs1, FieldValue::Int64(self.from_epoch));
        }
        let ghost vs2 = vs1.push(FieldValue::Int64(self.from_epoch));
        assert(buf@ =~= old(buf)@ + encode_record(vs2));
        put_i32(buf, self.max_results);
        proof {
            lemma_encode_record_push(vs2, FieldValue::Int32(self.max_results));
        }
        let ghost vs3 = vs2.push(FieldValue::Int32(self.max_results));
        assert(buf@ =~= old(buf)@ + encode_record(vs3));
        write_unknown_tagged_fields(buf, &self.unknown_tagged_fields);
        proof {
            lemma_encode_record_push(vs3, FieldValue::Tags(self.unknown_tagged_fields@));
        }
        let ghost vs4 = vs3.push(FieldValue::Tags(self.unknown_tagged_fields@));
        assert(buf@ =~= old(buf)@ + encode_record(vs4));
        assert(vs4 =~= self.fields());
        Ok(())
    }

    fn encoded_len(&self, version: i16) -> (n: usize) {
        proof {
            lemma_record_fields(Self::kinds(), self.fields());
            assert(writable(Self::kinds()[0], self.fields()[0]));
            assert(writable(Self::kinds()[3], self.fields()[3]));
            let vs0 = Seq::<FieldValue>::empty();
            lemma_encode_record_push(vs0, FieldValue::Str(self.group@));
            let vs1 = vs0.push(FieldValue::Str(self.group@));
            lemma_encode_record_push(vs1, FieldValue::Int64(self.from_epoch));
            let vs2 = vs1.push(FieldValue::Int64(self.from_epoch));
            lemma_encode_record_push(vs2, FieldValue::Int32(self.max_results));
            let vs3 = vs2.push(FieldValue::Int32(self.max_results));
            lemma_encode_record_push(vs3, FieldValue::Tags(self.unknown_tagged_fields@));
            let vs4 = vs3.push(FieldValue::Tags(self.unknown_tagged_fields@));
            assert(vs4 =~= self.fields());
        }
        compact_string_len(self.group.as_str())
            + I64_LEN
            + I32_LEN
            + unknown_tagged_fields_len(&self.unknown_tagged_fields)
    }

    fn decode(buf: &[u8], pos: usize, version: i16) -> (res: Result<(Self, usize), ProtocolError>) {
        check_version(API_KEY, version, MIN_VERSION, MAX_VERSION)?;
        let ghost ks = Self::kinds();
        let ghost s = buf@.skip(pos as int);
        proof {
            lemma_record_step(ks, s, 0, Seq::<FieldValue>::empty(), 0);
        }
        let (group, p1) = get_compact_string(buf, pos)?;
        let ghost vs1 = seq![FieldValue::Str(group@)];
        proof {
            lemma_record_step(ks, s, 1, vs1, (p1 - pos) as nat);
        }
        let (from_epoch, p2) = get_i64(buf, p1)?;
        let ghost vs2 = vs1.push(FieldValue::Int64(from_epoch));
        proof {
            lemma_record_step(ks, s, 2, vs2, (p2 - pos) as nat);
        }
        let (max_results, p3) = get_i32(buf, p2)?;
        let ghost vs3 = vs2.push(FieldValue::Int32(max_results));
        proof {
            lemma_record_step(ks, s, 3, vs3, (p3 - pos) as nat);
        }
        let (unknown_tagged_fields, p4) = read_unknown_tagged_fields(buf, p3)?;
        let ghost vs4 = vs3.push(FieldValue::Tags(unknown_tagged_fields@));
        let v = Self { group, from_epoch, max_results, unknown_tagged_fields };
        assert(ks.take(4) =~= ks);
        assert(v.fields() =~= vs4);
        Ok((v, p4))
    }
}

/// One published cut of a barrier group.
#[derive(Debug, Clone, PartialEq, Eq, Default)]
pub struct BarrierCut {
    /// Epoch of this cut. The coordinator never reuses an epoch.
    pub epoch: i64,
    /// Milliseconds since the Unix epoch, at the moment the coordinator started
    /// the injection.
    pub triggered_at: i64,
    /// Milliseconds since the Unix epoch, at the moment the coordinator
    /// published the cut.
    pub completed_at: i64,
    /// [`CUT_STATUS_COMPLETE`](crate::krabka::barrier::CUT_STATUS_COMPLETE)
    /// when every partition took a marker, and
    /// [`CUT_STATUS_PARTIAL`](crate::krabka::barrier::CUT_STATUS_PARTIAL) when
    /// at least one partition did not.
    pub status: i8,
    /// Cut offsets, grouped by topic.
    pub topics: Vec<BarrierCutTopic>,
    /// Partitions of the frozen target set that took no marker. This array is
    /// empty for a complete cut.
    pub missing: Vec<BarrierMissingPartition>,
    /// Tagged fields that this build does not know.
    pub unknown_tagged_fields: UnknownTaggedFields,
}

impl Wire for BarrierCut {
    open spec fn kinds() -> Seq<FieldKind> {
        seq![FieldKind::Int64, FieldKind::Int64, FieldKind::Int64, FieldKind::Int8, FieldKind::Structs(BarrierCutTopic::kinds()), FieldKind::Structs(BarrierMissingPartition::kinds()), FieldKind::Tags]
    }

    open spec fn fields(&self) -> Seq<FieldValue> {
        seq![FieldValue::Int64(self.epoch), FieldValue::Int64(self.triggered_at), FieldValue::Int64(self.completed_at), FieldValue::Int8(self.status), FieldValue::Structs(records_of(self.topics@)), FieldValue::Structs(records_of(self.missing@)), FieldValue::Tags(self.unknown_tagged_fields@)]
    }

    open spec fn supports(version: i16) -> bool {
        true
    }

    open spec fn api_key() -> i16 {
        0
    }

    fn encode(&self, buf: &mut Vec<u8>, version: i16) -> (res: Result<(), ProtocolError>) {
        proof {
            lemma_record_fields(Self::kinds(), self.fields());
            assert(writable(Self::kinds()[4], self.fields()[4]));
            assert(writable(Self::kinds()[5], self.fields()[5]));
            assert(writable(Self::kinds()[6], self.fields()[6]));
        }
        let ghost vs0 = Seq::<FieldValue>::empty();
        put_i64(buf, self.epoch);
        proof {
            lemma_encode_record_push(vs0, FieldValue::Int64(self.epoch));
        }
        let ghost vs1 = vs0.push(FieldValue::Int64(self.epoch));
        assert(buf@ =~= old(buf)@ + encode_record(vs1));
        put_i64(buf, self.triggered_at);
        proof {
            lemma_encode_record_push(vs1, FieldValue::Int64(self.triggered_at));
        }
        let ghost vs2 = vs1.push(FieldValue::Int64(self.triggered_at));
        assert(buf@ =~= old(buf)@ + encode_record(vs2));
        put_i64(buf, self.completed_at);
        proof {
            lemma_encode_record_push(vs2, FieldValue::Int64(self.completed_at));
        }
        let ghost vs3 = vs2.push(FieldValue::Int64(self.completed_at));
        assert(buf@ =~= old(buf)@ + encode_record(vs3));
        put_i8(buf, self.status);
        proof {
            lemma_encode_record_push(vs3, FieldValue::Int8(self.status));
        }
        let ghost vs4 = vs3.push(FieldValue::Int8(self.status));
        assert(buf@ =~= old(buf)@ + encode_record(vs4));
        encode_array(buf, self.topics.as_slice(), version)?;
        proof {
            lemma_encode_record_push(vs4, FieldValue::Structs(records_of(self.topics@)));
        }
        let ghost vs5 = vs4.push(FieldValue::Structs(records_of(self.topics@)));
        assert(buf@ =~= old(buf)@ + encode_record(vs5));
        encode_array(buf, self.missing.as_slice(), version)?;
        proof {
            lemma_encode_record_push(vs5, FieldValue::Structs(records_of(self.missing@)));
        }
        let ghost vs6 = vs5.push(FieldValue::Structs(records_of(self.missing@)));
        assert(buf@ =~= old(buf)@ + encode_record(vs6));
        write_unknown_tagged_fields(buf, &self.unknown_tagged_fields);
        proof {
            lemma_encode_record_push(vs6, FieldValue::Tags(self.unknown_tagged_fields@));
        }
        let ghost vs7 = vs6.push(FieldValue::Tags(self.unknown_tagged_fields@));
        assert(buf@ =~= old(buf)@ + encode_record(vs7));
        assert(vs7 =~= self.fields());
        Ok(())
    }

    fn encoded_len(&self, version: i16) -> (n: usize) {
        proof {
            lemma_record_fields(Self::kinds(), self.fields());
            assert(writable(Self::kinds()[4], self.fields()[4]));
            assert(writable(Self::kinds()[5], self.fields()[5]));
            assert(writable(Self::kinds()[6], self.fields()[6]));
            let vs0 = Seq::<FieldValue>::empty();
            lemma_encode_record_push(vs0, FieldValue::Int64(self.epoch));
            let vs1 = vs0.push(FieldValue::Int64(self.epoch));
            lemma_encode_record_push(vs1, FieldValue::Int64(self.triggered_at));
            let vs2 = vs1.push(FieldValue::Int64(self.triggered_at));
            lemma_encode_record_push(vs2, FieldValue::Int64(self.completed_at));
            let vs3 = vs2.push(FieldValue::Int64(self.completed_at));
            lemma_encode_record_push(vs3, FieldValue::Int8(self.status));
            let vs4 = vs3.push(FieldValue::Int8(self.status));
            lemma_encode_record_push(vs4, FieldValue::Structs(records_of(self.topics@)));
            let vs5 = vs4.push(FieldValue::Structs(records_of(self.topics@)));
            lemma_encode_record_push(vs5, FieldValue::Structs(records_of(self.missing@)));
            let vs6 = vs5.push(FieldValue::Structs(records_of(self.missing@)));
            lemma_encode_record_push(vs6, FieldValue::Tags(self.unknown_tagged_fields@));
            let vs7 = vs6.push(FieldValue::Tags(self.unknown_tagged_fields@));
            assert(vs7 =~= self.fields());
        }
        I64_LEN
            + I64_LEN
            + I64_LEN
            + I8_LEN
            + array_len(self.topics.as_slice(), version)
            + array_len(self.missing.as_slice(), version)
            + unknown_tagged_fields_len(&self.unknown_tagged_fields)
    }

    fn decode(buf: &[u8], pos: usize, version: i16) -> (res: Result<(Self, usize), ProtocolError>) {
        let ghost ks = Self::kinds();
        let ghost s = buf@.skip(pos as int);
        proof {
            lemma_record_step(ks, s, 0, Seq::<FieldValue>::empty(), 0);
        }
        let (epoch, p1) = get_i64(buf, pos)?;
        let ghost vs1 = seq![FieldValue::Int64(epoch)];
        proof {
            lemma_record_step(ks, s, 1, vs1, (p1 - pos) as nat);
        }
        let (triggered_at, p2) = get_i64(buf, p1)?;
        let ghost vs2 = vs1.push(FieldValue::Int64(triggered_at));
        proof {
            lemma_record_step(ks, s, 2, vs2, (p2 - pos) as nat);
        }
        let (completed_at, p3) = get_i64(buf, p2)?;
        let ghost vs3 = vs2.push(FieldValue::Int64(completed_at));
        proof {
            lemma_record_step(ks, s, 3, vs3, (p3 - pos) as nat);
        }
        let (status, p4) = get_i8(buf, p3)?;
        let ghost vs4 = vs3.push(FieldValue::Int8(status));
        proof {
            lemma_record_step(ks, s, 4, vs4, (p4 - pos) as nat);
        }
        let (topics, p5) = decode_array::<BarrierCutTopic>(buf, p4, version)?;
        let ghost vs5 = vs4.push(FieldValue::Structs(records_of(topics@)));
        proof {
            lemma_record_step(ks, s, 5, vs5, (p5 - pos) as nat);
        }
        let (missing, p6) = decode_array::<BarrierMissingPartition>(buf, p5, version)?;
        let ghost vs6 = vs5.push(FieldValue::Structs(records_of(missing@)));
        proof {
            lemma_record_step(ks, s, 6, vs6, (p6 - pos) as nat);
        }
        let (unknown_tagged_fields, p7) = read_unknown_tagged_fields(buf, p6)?;
        let ghost vs7 = vs6.push(FieldValue::Tags(unknown_tagged_fields@));
        let v = Self { epoch, triggered_at, completed_at, status, topics, missing, unknown_tagged_fields };
        assert(ks.take(7) =~= ks);
        assert(v.fields() =~= vs7);
        Ok((v, p7))
    }
}

/// The cuts that a [`ListBarrierCutsRequest`] asked for.
#[derive(Debug, Clone, PartialEq, Eq, Default)]
pub struct ListBarrierCutsResponse {
    /// Milliseconds that the broker held the request back for a quota.
    pub throttle_time_ms: i32,
    /// Kafka error code. `0` means `cuts` holds the answer.
    pub error_code: i16,
    /// Text that explains a non-zero `error_code`. `None` when the coordinator
    /// has nothing to add to the code.
    pub error_message: Option<String>,
    /// Cuts in epoch order, from the oldest epoch that the request asked for.
    pub cuts: Vec<BarrierCut>,
    /// Tagged fields that this build does not know.
    pub unknown_tagged_fields: UnknownTaggedFields,
}

impl Wire for ListBarrierCutsResponse {
    open spec fn kinds() -> Seq<FieldKind> {
        seq![FieldKind::Int32, FieldKind::Int16, FieldKind::NullableStr, FieldKind::Structs(BarrierCut::kinds()), FieldKind::Tags]
    }

    open spec fn fields(&self) -> Seq<FieldValue> {
        seq![FieldValue::Int32(self.throttle_time_ms), FieldValue::Int16(self.error_code), FieldValue::NullableStr(opt_view(self.error_message)), FieldValue::Structs(records_of(self.cuts@)), FieldValue::Tags(self.unknown_tagged_fields@)]
    }

    open spec fn supports(version: i16) -> bool {
        MIN_VERSION <= version <= MAX_VERSION
    }

    open spec fn api_key() -> i16 {
        API_KEY
    }

    fn encode(&self, buf: &mut Vec<u8>, version: i16) -> (res: Result<(), ProtocolError>) {
        check_version(API_KEY, version, MIN_VERSION, MAX_VERSION)?;
        proof {
            lemma_record_fields(Self::kinds(), self.fields());
            assert(writable(Self::kinds()[2], self.fields()[2]));
            assert(writable(Self::kinds()[3], self.fields()[3]));
            assert(writable(Self::kinds()[4], self.fields()[4]));
        }
        let ghost vs0 = Seq::<FieldValue>::empty();
        put_i32(buf, self.throttle_time_ms);
        proof {
            lemma_encode_record_push(vs0, FieldValue::Int32(self.throttle_time_ms));
        }
        let ghost vs1 = vs0.push(FieldValue::Int32(self.throttle_time_ms));
        assert(buf@ =~= old(buf)@ + encode_record(vs1));
        put_i16(buf, self.error_code);
        proof {
            lemma_encode_record_push(vs1, FieldValue::Int16(self.error_code));
        }
        let ghost vs2 = vs1.push(FieldValue::Int16(self.error_code));
        assert(buf@ =~= old(buf)@ + encode_record(vs2));
        put_compact_nullable_string(buf, &self.error_message);
        proof {
            lemma_encode_record_push(vs2, FieldValue::NullableStr(opt_view(self.error_message)));
        }
        let ghost vs3 = vs2.push(FieldValue::NullableStr(opt_view(self.error_message)));
        assert(buf@ =~= old(buf)@ + encode_record(vs3));
        encode_array(buf, self.cuts.as_slice(), version)?;
        proof {
            lemma_encode_record_push(vs3, FieldValue::Structs(records_of(self.cuts@)));
        }
        let ghost vs4 = vs3.push(FieldValue::Structs(records_of(self.cuts@)));
        assert(buf@ =~= old(buf)@ + encode_record(vs4));
        write_unknown_tagged_fields(buf, &self.unknown_tagged_fields);
        proof {
            lemma_encode_record_push(vs4, FieldValue::Tags(self.unknown_tagged_fields@));
        }
        let ghost vs5 = vs4.push(FieldValue::Tags(self.unknown_tagged_fields@));
        assert(buf@ =~= old(buf)@ + encode_record(vs5));
        assert(vs5 =~= self.fields());
        Ok(())
    }

    fn encoded_len(&self, version: i16) -> (n: usize) {
        proof {
            lemma_record_fields(Self::kinds(), self.fields());
            assert(writable(Self::kinds()[2], self.fields()[2]));
            assert(writable(Self::kinds()[3], self.fields()[3]));
            assert(writable(Self::kinds()[4], self.fields()[4]));
            let vs0 = Seq::<FieldValue>::empty();
            lemma_encode_record_push(vs0, FieldValue::Int32(self.throttle_time_ms));
            let vs1 = vs0.push(FieldValue::Int32(self.throttle_time_ms));
            lemma_encode_record_push(vs1, FieldValue::Int16(self.error_code));
            let vs2 = vs1.push(FieldValue::Int16(self.error_code));
            lemma_encode_record_push(vs2, FieldValue::NullableStr(opt_view(self.error_message)));
            let vs3 = vs2.push(FieldValue::NullableStr(opt_view(self.error_message)));
            lemma_encode_record_push(vs3, FieldValue::Structs(records_of(self.cuts@)));
            let vs4 = vs3.push(FieldValue::Structs(records_of(self.cuts@)));
            lemma_encode_record_push(vs4, FieldValue::Tags(self.unknown_tagged_fields@));
            let vs5 = vs4.push(FieldValue::Tags(self.unknown_tagged_fields@));
            assert(vs5 =~= self.fields());
        }
        I32_LEN
            + I16_LEN
            + compact_nullable_string_len(&self.error_message)
            + array_len(self.cuts.as_slice(), version)
            + unknown_tagged_fields_len(&self.unknown_tagged_fields)
    }

    fn decode(buf: &[u8], pos: usize, version: i16) -> (res: Result<(Self, usize), ProtocolError>) {
        check_version(API_KEY, version, MIN_VERSION, MAX_VERSION)?;
        let ghost ks = Self::kinds();
        let ghost s = buf@.skip(pos as int);
        proof {
            lemma_record_step(ks, s, 0, Seq::<FieldValue>::empty(), 0);
        }
        let (throttle_time_ms, p1) = get_i32(buf, pos)?;
        let ghost vs1 = seq![FieldValue::Int32(throttle_time_ms)];
        proof {
            lemma_record_step(ks, s, 1, vs1, (p1 - pos) as nat);
        }
        let (error_code, p2) = get_i16(buf, p1)?;
        let ghost vs2 = vs1.push(FieldValue::Int16(error_code));
        proof {
            lemma_record_step(ks, s, 2, vs2, (p2 - pos) as nat);
        }
        let (error_message, p3) = get_compact_nullable_string(buf, p2)?;
        let ghost vs3 = vs2.push(FieldValue::NullableStr(opt_view(error_message)));
        proof {
            lemma_record_step(ks, s, 3, vs3, (p3 - pos) as nat);
        }
        let (cuts, p4) = decode_array::<BarrierCut>(buf, p3, version)?;
        let ghost vs4 = vs3.push(FieldValue::Structs(records_of(cuts@)));
        proof {
            lemma_record_step(ks, s, 4, vs4, (p4 - pos) as nat);
        }
        let (unknown_tagged_fields, p5) = read_unknown_tagged_fields(buf, p4)?;
        let ghost vs5 = vs4.push(FieldValue::Tags(unknown_tagged_fields@));
        let v = Self { throttle_time_ms, error_code, error_message, cuts, unknown_tagged_fields };
        assert(ks.take(5) =~= ks);
        assert(v.fields() =~= vs5);
        Ok((v, p5))
    }
}

/// The bytes of every [`ListBarrierCutsRequest`] hold its fields in the order of the schema:
/// `group`, `from_epoch`, `max_results`, `unknown_tagged_fields`.
pub proof fn lemma_list_barrier_cuts_request_layout(x: ListBarrierCutsRequest)
    ensures
        encode_record(x.fields()) == crate::wire::compact_str(x.group@)
            + crate::wire::int_bytes(x.from_epoch as int, 8)
            + crate::wire::int_bytes(x.max_results as int, 4)
            + crate::wire::encode_field(FieldValue::Tags(x.unknown_tagged_fields@)),
{
    let vs0 = Seq::<FieldValue>::empty();
    assert(encode_record(vs0) =~= Seq::<u8>::empty());
    crate::wire::lemma_encode_record_push(vs0, FieldValue::Str(x.group@));
    let vs1 = vs0.push(FieldValue::Str(x.group@));
    crate::wire::lemma_encode_record_push(vs1, FieldValue::Int64(x.from_epoch));
    let vs2 = vs1.push(FieldValue::Int64(x.from_epoch));
    crate::wire::lemma_encode_record_push(vs2, FieldValue::Int32(x.max_results));
    let vs3 = vs2.push(FieldValue::Int32(x.max_results));
    crate::wire::lemma_encode_record_push(vs3, FieldValue::Tags(x.unknown_tagged_fields@));
    let vs4 = vs3.push(FieldValue::Tags(x.unknown_tagged_fields@));
    assert(vs4 =~= x.fields());
    assert(Seq::<u8>::empty() + crate::wire::encode_field(FieldValue::Str(x.group@)) =~= crate::wire::encode_field(FieldValue::Str(x.group@)));
}

/// The bytes of every [`BarrierCut`] hold its fields in the order of the schema:
/// `epoch`, `triggered_at`, `completed_at`, `status`, `topics`, `missing`, `unknown_tagged_fields`.
pub proof fn lemma_barrier_cut_layout(x: BarrierCut)
    ensures
        encode_record(x.fields()) == crate::wire::int_bytes(x.epoch as int, 8)
            + crate::wire::int_bytes(x.triggered_at as int, 8)
            + crate::wire::int_bytes(x.completed_at as int, 8)
            + crate::wire::int_bytes(x.status as int, 1)
            + crate::wire::encode_field(FieldValue::Structs(records_of(x.topics@)))
            + crate::wire::encode_field(FieldValue::Structs(records_of(x.missing@)))
            + crate::wire::encode_field(FieldValue::Tags(x.unknown_tagged_fields@)),
{
    let vs0 = Seq::<FieldValue>::empty();
    assert(encode_record(vs0) =~= Seq::<u8>::empty());
    crate::wire::lemma_encode_record_push(vs0, FieldValue::Int64(x.epoch));
    let vs1 = vs0.push(FieldValue::Int64(x.epoch));
    crate::wire::lemma_encode_record_push(vs1, FieldValue::Int64(x.triggered_at));
    let vs2 = vs1.push(FieldValue::Int64(x.triggered_at));
    crate::wire::lemma_encode_record_push(vs2, FieldValue::Int64(x.completed_at));
    let vs3 = vs2.push(FieldValue::Int64(x.completed_at));
    crate::wire::lemma_encode_record_push(vs3, FieldValue::Int8(x.status));
    let vs4 = vs3.push(FieldValue::Int8(x.status));
    crate::wire::lemma_encode_record_push(vs4, FieldValue::Structs(records_of(x.topics@)));
    let vs5 = vs4.push(FieldValue::Structs(records_of(x.topics@)));
    crate::wire::lemma_encode_record_push(vs5, FieldValue::Structs(records_of(x.missing@)));
    let vs6 = vs5.push(FieldValue::Structs(records_of(x.missing@)));
    crate::wire::lemma_encode_record_push(vs6, FieldValue::Tags(x.unknown_tagged_fields@));
    let vs7 = vs6.push(FieldValue::Tags(x.unknown_tagged_fields@));
    assert(vs7 =~= x.fields());
    assert(Seq::<u8>::empty() + crate::wire::encode_field(FieldValue::Int64(x.epoch)) =~= crate::wire::encode_field(FieldValue::Int64(x.epoch)));
}

/// The bytes of every [`ListBarrierCutsResponse`] hold its fields in the order of the schema:
/// `throttle_time_ms`, `error_code`, `error_message`, `cuts`, `unknown_tagged_fields`.
pub proof fn lemma_list_barrier_cuts_response_layout(x: ListBarrierCutsResponse)
    ensures
        encode_record(x.fields()) == crate::wire::int_bytes(x.throttle_time_ms as int, 4)
            + crate::wire::int_bytes(x.error_code as int, 2)
            + crate::wire::encode_field(FieldValue::NullableStr(opt_view(x.error_message)))
            + crate::wire::encode_field(FieldValue::Structs(records_of(x.cuts@)))
            + crate::wire::encode_field(FieldValue::Tags(x.unknown_tagged_fields@)),
{
    let vs0 = Seq::<FieldValue>::empty();
    assert(encode_record(vs0) =~= Seq::<u8>::empty());
    crate::wire::lemma_encode_record_push(vs0, FieldValue::Int32(x.throttle_time_ms));
    let vs1 = vs0.push(FieldValue::Int32(x.throttle_time_ms));
    crate::wire::lemma_encode_record_push(vs1, FieldValue::Int16(x.error_code));
    let vs2 = vs1.push(FieldValue::Int16(x.error_code));
    crate::wire::lemma_encode_record_push(vs2, FieldValue::NullableStr(opt_view(x.error_message)));
    let vs3 = vs2.push(FieldValue::NullableStr(opt_view(x.error_message)));
    crate::wire::lemma_encode_record_push(vs3, FieldValue::Structs(records_of(x.cuts@)));
    let vs4 = vs3.push(FieldValue::Structs(records_of(x.cuts@)));
    crate::wire::lemma_encode_record_push(vs4, FieldValue::Tags(x.unknown_tagged_fields@));
    let vs5 = vs4.push(FieldValue::Tags(x.unknown_tagged_fields@));
    assert(vs5 =~= x.fields());
    assert(Seq::<u8>::empty() + crate::wire::encode_field(FieldValue::Int32(x.throttle_time_ms)) =~= crate::wire::encode_field(FieldValue::Int32(x.throttle_time_ms)));
}

} // verus!
