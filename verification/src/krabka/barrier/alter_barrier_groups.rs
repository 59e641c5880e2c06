//! `AlterBarrierGroups`, api key 1010.
//!
//! One request creates a barrier group, updates one, or deletes one. The
//! coordinator applies each entry on its own and reports a per-group result.
//!
//! An edit to the topic set or to the partition count of a topic applies from
//! the next epoch. The coordinator freezes the target set before it appends the
//! first marker of an epoch.

use vstd::prelude::*;

use crate::error::ProtocolError;
use crate::krabka::common::{
    array_len, check_version, decode_array, encode_array, lemma_record_fields, records_of, Wire,
    BOOL_LEN, I16_LEN, I32_LEN, I64_LEN,
};
use crate::primitives::{
    compact_nullable_string_len, compact_string_len, decode_string_array, encode_string_array,
    get_bool, get_compact_nullable_string, get_compact_string, get_i16, get_i32, get_i64, opt_view,
    put_bool, put_compact_nullable_string, put_compact_string, put_i16, put_i32, put_i64,
    string_array_len, string_views,
};
use crate::tagged_fields::{
    read_unknown_tagged_fields, unknown_tagged_fields_len, write_unknown_tagged_fields,
    UnknownTaggedFields,
};
use crate::wire::{
    writable, encode_record, lemma_encode_record_push, lemma_record_step, FieldKind, FieldValue,
};

verus! {

broadcast use vstd::seq_lib::lemma_seq_skip_of_skip;

/// Api key of `AlterBarrierGroups`.
pub const API_KEY: i16 = 1010;

/// Lowest version of `AlterBarrierGroups` that this build speaks.
pub const MIN_VERSION: i16 = 0;

/// Highest version of `AlterBarrierGroups` that this build speaks.
pub const MAX_VERSION: i16 = 0;

/// First version with flexible framing from KIP-482.
pub const FLEXIBLE_MIN: i16 = 0;

/// Reports whether `version` uses flexible framing from KIP-482.
///
/// The request header takes the same framing as the request body, so a caller
/// that writes the header needs this answer.
pub fn is_flexible(version: i16) -> (r: bool)
    ensures
        r == (version >= FLEXIBLE_MIN),
{
    version >= FLEXIBLE_MIN
}

/// One create, update, or delete of a barrier group.
#[derive(Debug, Clone, PartialEq, Eq)]
pub struct AlterableBarrierGroup {
    /// Name of the barrier group.
    pub group: String,
    /// Topics that the group covers. The coordinator injects a marker into
    /// every partition of every topic named here.
    pub topics: Vec<String>,
    /// Period between two automatic injections, in milliseconds. `-1` turns off
    /// periodic injection, and only a `TriggerBarrier` request then makes a cut.
    pub interval_ms: i64,
    /// Number of published cuts that the coordinator keeps for this group.
    pub retained_cuts: i32,
    /// `true` deletes the group. The coordinator then ignores `topics`,
    /// `interval_ms`, and `retained_cuts`.
    pub delete: bool,
    /// Tagged fields that this build does not know.
    pub unknown_tagged_fields: UnknownTaggedFields,
}

impl Wire for AlterableBarrierGroup {
    open spec fn kinds() -> Seq<FieldKind> {
        seq![FieldKind::Str, FieldKind::StrArray, FieldKind::Int64, FieldKind::Int32, FieldKind::Bool, FieldKind::Tags]
    }

    open spec fn fields(&self) -> Seq<FieldValue> {
        seq![FieldValue::Str(self.group@), FieldValue::StrArray(string_views(self.topics@)), FieldValue::Int64(self.interval_ms), FieldValue::Int32(self.retained_cuts), FieldValue::Bool(self.delete), FieldValue::Tags(self.unknown_tagged_fields@)]
    }

    open spec fn supports(version: i16) -> bool {
        true
    }

    open spec fn api_key() -> i16 {
        0
    }

    fn encode(&self, buf: &mut Vec<u8>, version: i16) -> (res: Result<(), ProtocolError>) {
        proof {
            lemma_record_fields(Self::kinds(), self.fields());
            assert(writable(Self::kinds()[0], self.fields()[0]));
            assert(writable(Self::kinds()[1], self.fields()[1]));
            assert(writable(Self::kinds()[5], self.fields()[5]));
        }
        let ghost vs0 = Seq::<FieldValue>::empty();
        put_compact_string(buf, self.group.as_str());
        proof {
            lemma_encode_record_push(vs0, FieldValue::Str(self.group@));
        }
        let ghost vs1 = vs0.push(FieldValue::Str(self.group@));
        assert(buf@ =~= old(buf)@ + encode_record(vs1));
        encode_string_array(buf, self.topics.as_slice());
        proof {
            lemma_encode_record_push(vs1, FieldValue::StrArray(string_views(self.topics@)));
        }
        let ghost vs2 = vs1.push(FieldValue::StrArray(string_views(self.topics@)));
        assert(buf@ =~= old(buf)@ + encode_record(vs2));
        put_i64(buf, self.interval_ms);
        proof {
            lemma_encode_record_push(vs2, FieldValue::Int64(self.interval_ms));
        }
        let ghost vs3 = vs2.push(FieldValue::Int64(self.interval_ms));
        assert(buf@ =~= old(buf)@ + encode_record(vs3));
        put_i32(buf, self.retained_cuts);
        proof {
            lemma_encode_record_push(vs3, FieldValue::Int32(self.retained_cuts));
        }
        let ghost vs4 = vs3.push(FieldValue::Int32(self.retained_cuts));
        assert(buf@ =~= old(buf)@ + encode_record(vs4));
        put_bool(buf, self.delete);
        proof {
            lemma_encode_record_push(vs4, FieldValue::Bool(self.delete));
        }
        let ghost vs5 = vs4.push(FieldValue::Bool(self.delete));
        assert(buf@ =~= old(buf)@ + encode_record(vs5));
        write_unknown_tagged_fields(buf, &self.unknown_tagged_fields);
        proof {
            lemma_encode_record_push(vs5, FieldValue::Tags(self.unknown_tagged_fields@));
        }
        let ghost vs6 = vs5.push(FieldValue::Tags(self.unknown_tagged_fields@));
        assert(buf@ =~= old(buf)@ + encode_record(vs6));
        assert(vs6 =~= self.fields());
        Ok(())
    }

    fn encoded_len(&self, version: i16) -> (n: usize) {
        proof {
            lemma_record_fields(Self::kinds(), self.fields());
            assert(writable(Self::kinds()[0], self.fields()[0]));
            assert(writable(Self::kinds()[1], self.fields()[1]));
            assert(writable(Self::kinds()[5], self.fields()[5]));
            let vs0 = Seq::<FieldValue>::empty();
            lemma_encode_record_push(vs0, FieldValue::Str(self.group@));
            let vs1 = vs0.push(FieldValue::Str(self.group@));
            lemma_encode_record_push(vs1, FieldValue::StrArray(string_views(self.topics@)));
            let vs2 = vs1.push(FieldValue::StrArray(string_views(self.topics@)));
            lemma_encode_record_push(vs2, FieldValue::Int64(self.interval_ms));
            let vs3 = vs2.push(FieldValue::Int64(self.interval_ms));
            lemma_encode_record_push(vs3, FieldValue::Int32(self.retained_cuts));
            let vs4 = vs3.push(FieldValue::Int32(self.retained_cuts));
            lemma_encode_record_push(vs4, FieldValue::Bool(self.delete));
            let vs5 = vs4.push(FieldValue::Bool(self.delete));
            lemma_encode_record_push(vs5, FieldValue::Tags(self.unknown_tagged_fields@));
            let vs6 = vs5.push(FieldValue::Tags(self.unknown_tagged_fields@));
            assert(vs6 =~= self.fields());
        }
        compact_string_len(self.group.as_str())
            + string_array_len(self.topics.as_slice())
            + I64_LEN
            + I32_LEN
            + BOOL_LEN
            + unknown_tagged_fields_len(&self.unknown_tagged_fields)
    }

    fn decode(buf: &[u8], pos: usize, version: i16) -> (res: Result<(Self, usize), ProtocolError>) {
        let ghost ks = Self::kinds();
        let ghost s = buf@.skip(pos as int);
        proof {
            lemma_record_step(ks, s, 0, Seq::<FieldValue>::empty(), 0);
        }
        let (group, p1) = get_compact_string(buf, pos)?;
        let ghost vs1 = seq![FieldValue::Str(group@)];
        proof {
            lemma_record_step(ks, s, 1, vs1, (p1 - pos) as nat);
        }
        let (topics, p2) = decode_string_array(buf, p1)?;
        let ghost vs2 = vs1.push(FieldValue::StrArray(string_views(topics@)));
        proof {
            lemma_record_step(ks, s, 2, vs2, (p2 - pos) as nat);
        }
        let (interval_ms, p3) = get_i64(buf, p2)?;
        let ghost vs3 = vs2.push(FieldValue::Int64(interval_ms));
        proof {
            lemma_record_step(ks, s, 3, vs3, (p3 - pos) as nat);
        }
        let (retained_cuts, p4) = get_i32(buf, p3)?;
        let ghost vs4 = vs3.push(FieldValue::Int32(retained_cuts));
        proof {
            lemma_record_step(ks, s, 4, vs4, (p4 - pos) as nat);
        }
        let (delete, p5) = get_bool(buf, p4)?;
        let ghost vs5 = vs4.push(FieldValue::Bool(delete));
        proof {
            lemma_record_step(ks, s, 5, vs5, (p5 - pos) as nat);
        }
        let (unknown_tagged_fields, p6) = read_unknown_tagged_fields(buf, p5)?;
        let ghost vs6 = vs5.push(FieldValue::Tags(unknown_tagged_fields@));
        let v = Self { group, topics, interval_ms, retained_cuts, delete, unknown_tagged_fields };
        assert(ks.take(6) =~= ks);
        assert(v.fields() =~= vs6);
        Ok((v, p6))
    }
}

impl Default for AlterableBarrierGroup {
    fn default() -> (r: Self)
        ensures
            r.group@ == Seq::<char>::empty(),
            r.topics@ == Seq::<String>::empty(),
            r.interval_ms == -1,
            r.retained_cuts == 0,
            r.delete == false,
            r.unknown_tagged_fields@ == Seq::<(u32, Seq<u8>)>::empty(),
    {
        let r = Self {
            group: String::new(),
            topics: Vec::new(),
            interval_ms: -1,
            retained_cuts: 0,
            delete: false,
            unknown_tagged_fields: UnknownTaggedFields::default(),
        };
        r
    }
}

/// Creates, updates, or deletes barrier groups.
#[derive(Debug, Clone, PartialEq, Eq, Default)]
pub struct AlterBarrierGroupsRequest {
    /// One entry for each group to create, update, or delete.
    pub groups: Vec<AlterableBarrierGroup>,
    /// Tagged fields that this build does not know.
    pub unknown_tagged_fields: UnknownTaggedFields,
}

impl Wire for AlterBarrierGroupsRequest {
    open spec fn kinds() -> Seq<FieldKind> {
        seq![FieldKind::Structs(AlterableBarrierGroup::kinds()), FieldKind::Tags]
    }

    open spec fn fields(&self) -> Seq<FieldValue> {
        seq![FieldValue::Structs(records_of(self.groups@)), FieldValue::Tags(self.unknown_tagged_fields@)]
    }

    open spec fn supports(version: i16) -> bool {
        MIN_VERSION <= version <= MAX_VERSION
    }

    open spec fn api_key() -> i16 {
        API_KEY
    }

    fn encode(&self, buf: &mut Vec<u8>, version: i16) -> (res: Result<(), ProtocolError>) {
        check_version(API_KEY, version, MIN_VERSION, MAX_VERSION)?;
        proof {
            lemma_record_fields(Self::kinds(), self.fields());
            assert(writable(Self::kinds()[0], self.fields()[0]));
            assert(writable(Self::kinds()[1], self.fields()[1]));
        }
        let ghost vs0 = Seq::<FieldValue>::empty();
        encode_array(buf, self.groups.as_slice(), version)?;
        proof {
            lemma_encode_record_push(vs0, FieldValue::Structs(records_of(self.groups@)));
        }
        let ghost vs1 = vs0.push(FieldValue::Structs(records_of(self.groups@)));
        assert(buf@ =~= old(buf)@ + encode_record(vs1));
        write_unknown_tagged_fields(buf, &self.unknown_tagged_fields);
        proof {
            lemma_encode_record_push(vs1, FieldValue::Tags(self.unknown_tagged_fields@));
        }
        let ghost vs2 = vs1.push(FieldValue::Tags(self.unknown_tagged_fields@));
        assert(buf@ =~= old(buf)@ + encode_record(vs2));
        assert(vs2 =~= self.fields());
        Ok(())
    }

    fn encoded_len(&self, version: i16) -> (n: usize) {
        proof {
            lemma_record_fields(Self::kinds(), self.fields());
            assert(writable(Self::kinds()[0], self.fields()[0]));
            assert(writable(Self::kinds()[1], self.fields()[1]));
            let vs0 = Seq::<FieldValue>::empty();
            lemma_encode_record_push(vs0, FieldValue::Structs(records_of(self.groups@)));
            let vs1 = vs0.push(FieldValue::Structs(records_of(self.groups@)));
            lemma_encode_record_push(vs1, FieldValue::Tags(self.unknown_tagged_fields@));
            let vs2 = vs1.push(FieldValue::Tags(self.unknown_tagged_fields@));
            assert(vs2 =~= self.fields());
        }
        array_len(self.groups.as_slice(), version)
            + unknown_tagged_fields_len(&self.unknown_tagged_fields)
    }

    fn decode(buf: &[u8], pos: usize, version: i16) -> (res: Result<(Self, usize), ProtocolError>) {
        check_version(API_KEY, version, MIN_VERSION, MAX_VERSION)?;
        let ghost ks = Self::kinds();
        let ghost s = buf@.skip(pos as int);
        proof {
            lemma_record_step(ks, s, 0, Seq::<FieldValue>::empty(), 0);
        }
        let (groups, p1) = decode_array::<AlterableBarrierGroup>(buf, pos, version)?;
        let ghost vs1 = seq![FieldValue::Structs(records_of(groups@))];
        proof {
            lemma_record_step(ks, s, 1, vs1, (p1 - pos) as nat);
        }
        let (unknown_tagged_fields, p2) = read_unknown_tagged_fields(buf, p1)?;
        let ghost vs2 = vs1.push(FieldValue::Tags(unknown_tagged_fields@));
        let v = Self { groups, unknown_tagged_fields };
        assert(ks.take(2) =~= ks);
        assert(v.fields() =~= vs2);
        Ok((v, p2))
    }
}

/// Outcome of one entry of an [`AlterBarrierGroupsRequest`].
#[derive(Debug, Clone, PartialEq, Eq, Default)]
pub struct AlterBarrierGroupResult {
    /// Name of the barrier group that this result belongs to.
    pub group: String,
    /// Kafka error code. `0` means the coordinator applied the entry.
    pub error_code: i16,
    /// Text that explains a non-zero `error_code`. `None` when the coordinator
    /// has nothing to add to the code.
    pub error_message: Option<String>,
    /// Tagged fields that this build does not know.
    pub unknown_tagged_fields: UnknownTaggedFields,
}

impl Wire for AlterBarrierGroupResult {
    open spec fn kinds() -> Seq<FieldKind> {
        seq![FieldKind::Str, FieldKind::Int16, FieldKind::NullableStr, FieldKind::Tags]
    }

    open spec fn fields(&self) -> Seq<FieldValue> {
        seq![FieldValue::Str(self.group@), FieldValue::Int16(self.error_code), FieldValue::NullableStr(opt_view(self.error_message)), FieldValue::Tags(self.unknown_tagged_fields@)]
    }

    open spec fn supports(version: i16) -> bool {
        true
    }

    open spec fn api_key() -> i16 {
        0
    }

    fn encode(&self, buf: &mut Vec<u8>, version: i16) -> (res: Result<(), ProtocolError>) {
        proof {
            lemma_record_fields(Self::kinds(), self.fields());
            assert(writable(Self::kinds()[0], self.fields()[0]));
            assert(writable(Self::kinds()[2], self.fields()[2]));
            assert(writable(Self::kinds()[3], self.fields()[3]));
        }
        let ghost vs0 = Seq::<FieldValue>::empty();
        put_compact_string(buf, self.group.as_str());
        proof {
            lemma_encode_record_push(vs0, FieldValue::Str(self.group@));
        }
        let ghost vs1 = vs0.push(FieldValue::Str(self.group@));
        assert(buf@ =~= old(buf)@ + encode_record(vs1));
        put_i16(buf, self.error_code);
        proof {
            lemma_encode_record_push(vs1, FieldValue::Int16(self.error_code));
        }
        let ghost vs2 = vs1.push(FieldValue::Int16(self.error_code));
        assert(buf@ =~= old(buf)@ + encode_record(vs2));
        put_compact_nullable_string(buf, &self.error_message);
        proof {
            lemma_encode_record_push(vs2, FieldValue::NullableStr(opt_view(self.error_message)));
        }
        let ghost vs3 = vs2.push(FieldValue::NullableStr(opt_view(self.error_message)));
        assert(buf@ =~= old(buf)@ + encode_record(vs3));
        write_unknown_tagged_fields(buf, &self.unknown_tagged_fields);
        proof {
            lemma_encode_record_push(vs3, FieldValue::Tags(self.unknown_tagged_fields@));
        }
        let ghost vs4 = vs3.push(FieldValue::Tags(self.unknown_tagged_fields@));
        assert(buf@ =~= old(buf)@ + encode_record(vs4));
        assert(vs4 =~= self.fields());
        Ok(())
    }

    fn encoded_len(&self, version: i16) -> (n: usize) {
        proof {
            lemma_record_fields(Self::kinds(), self.fields());
            assert(writable(Self::kinds()[0], self.fields()[0]));
            assert(writable(Self::kinds()[2], self.fields()[2]));
            assert(writable(Self::kinds()[3], self.fields()[3]));
            let vs0 = Seq::<FieldValue>::empty();
            lemma_encode_record_push(vs0, FieldValue::Str(self.group@));
            let vs1 = vs0.push(FieldValue::Str(self.group@));
            lemma_encode_record_push(vs1, FieldValue::Int16(self.error_code));
            let vs2 = vs1.push(FieldValue::Int16(self.error_code));
            lemma_encode_record_push(vs2, FieldValue::NullableStr(opt_view(self.error_message)));
            let vs3 = vs2.push(FieldValue::NullableStr(opt_view(self.error_message)));
            lemma_encode_record_push(vs3, FieldValue::Tags(self.unknown_tagged_fields@));
            let vs4 = vs3.push(FieldValue::Tags(self.unknown_tagged_fields@));
            assert(vs4 =~= self.fields());
        }
        compact_string_len(self.group.as_str())
            + I16_LEN
            + compact_nullable_string_len(&self.error_message)
            + unknown_tagged_fields_len(&self.unknown_tagged_fields)
    }

    fn decode(buf: &[u8], pos: usize, version: i16) -> (res: Result<(Self, usize), ProtocolError>) {
        let ghost ks = Self::kinds();
        let ghost s = buf@.skip(pos as int);
        proof {
            lemma_record_step(ks, s, 0, Seq::<FieldValue>::empty(), 0);
        }
        let (group, p1) = get_compact_string(buf, pos)?;
        let ghost vs1 = seq![FieldValue::Str(group@)];
        proof {
            lemma_record_step(ks, s, 1, vs1, (p1 - pos) as nat);
        }
        let (error_code, p2) = get_i16(buf, p1)?;
        let ghost vs2 = vs1.push(FieldValue::Int16(error_code));
        proof {
            lemma_record_step(ks, s, 2, vs2, (p2 - pos) as nat);
        }
        let (error_message, p3) = get_compact_nullable_string(buf, p2)?;
        let ghost vs3 = vs2.push(FieldValue::NullableStr(opt_view(error_message)));
        proof {
            lemma_record_step(ks, s, 3, vs3, (p3 - pos) as nat);
        }
        let (unknown_tagged_fields, p4) = read_unknown_tagged_fields(buf, p3)?;
        let ghost vs4 = vs3.push(FieldValue::Tags(unknown_tagged_fields@));
        let v = Self { group, error_code, error_message, unknown_tagged_fields };
        assert(ks.take(4) =~= ks);
        assert(v.fields() =~= vs4);
        Ok((v, p4))
    }
}

/// Per-group outcome of an [`AlterBarrierGroupsRequest`].
#[derive(Debug, Clone, PartialEq, Eq, Default)]
pub struct AlterBarrierGroupsResponse {
    /// Milliseconds that the broker held the request back for a quota.
    pub throttle_time_ms: i32,
    /// One result for each entry of the request, in request order.
    pub results: Vec<AlterBarrierGroupResult>,
    /// Tagged fields that this build does not know.
    pub unknown_tagged_fields: UnknownTaggedFields,
}

impl Wire for AlterBarrierGroupsResponse {
    open spec fn kinds() -> Seq<FieldKind> {
        seq![FieldKind::Int32, FieldKind::Structs(AlterBarrierGroupResult::kinds()), FieldKind::Tags]
    }

    open spec fn fields(&self) -> Seq<FieldValue> {
        seq![FieldValue::Int32(self.throttle_time_ms), FieldValue::Structs(records_of(self.results@)), FieldValue::Tags(self.unknown_tagged_fields@)]
    }

    open spec fn supports(version: i16) -> bool {
        MIN_VERSION <= version <= MAX_VERSION
    }

    open spec fn api_key() -> i16 {
        API_KEY
    }

    fn encode(&self, buf: &mut Vec<u8>, version: i16) -> (res: Result<(), ProtocolError>) {
        check_version(API_KEY, version, MIN_VERSION, MAX_VERSION)?;
        proof {
            lemma_record_fields(Self::kinds(), self.fields());
            assert(writable(Self::kinds()[1], self.fields()[1]));
            assert(writable(Self::kinds()[2], self.fields()[2]));
        }
        let ghost vs0 = Seq::<FieldValue>::empty();
        put_i32(buf, self.throttle_time_ms);
        proof {
            lemma_encode_record_push(vs0, FieldValue::Int32(self.throttle_time_ms));
        }
        let ghost vs1 = vs0.push(FieldValue::Int32(self.throttle_time_ms));
        assert(buf@ =~= old(buf)@ + encode_record(vs1));
        encode_array(buf, self.results.as_slice(), version)?;
        proof {
            lemma_encode_record_push(vs1, FieldValue::Structs(records_of(self.results@)));
        }
        let ghost vs2 = vs1.push(FieldValue::Structs(records_of(self.results@)));
        assert(buf@ =~= old(buf)@ + encode_record(vs2));
        write_unknown_tagged_fields(buf, &self.unknown_tagged_fields);
        proof {
            lemma_encode_record_push(vs2, FieldValue::Tags(self.unknown_tagged_fields@));
        }
        let ghost vs3 = vs2.push(FieldValue::Tags(self.unknown_tagged_fields@));
        assert(buf@ =~= old(buf)@ + encode_record(vs3));
        assert(vs3 =~= self.fields());
        Ok(())
    }

    fn encoded_len(&self, version: i16) -> (n: usize) {
        proof {
            lemma_record_fields(Self::kinds(), self.fields());
            assert(writable(Self::kinds()[1], self.fields()[1]));
            assert(writable(Self::kinds()[2], self.fields()[2]));
            let vs0 = Seq::<FieldValue>::empty();
            lemma_encode_record_push(vs0, FieldValue::Int32(self.throttle_time_ms));
            let vs1 = vs0.push(FieldValue::Int32(self.throttle_time_ms));
            lemma_encode_record_push(vs1, FieldValue::Structs(records_of(self.results@)));
            let vs2 = vs1.push(FieldValue::Structs(records_of(self.results@)));
            lemma_encode_record_push(vs2, FieldValue::Tags(self.unknown_tagged_fields@));
            let vs3 = vs2.push(FieldValue::Tags(self.unknown_tagged_fields@));
            assert(vs3 =~= self.fields());
        }
        I32_LEN
            + array_len(self.results.as_slice(), version)
            + unknown_tagged_fields_len(&self.unknown_tagged_fields)
    }

    fn decode(buf: &[u8], pos: usize, version: i16) -> (res: Result<(Self, usize), ProtocolError>) {
        check_version(API_KEY, version, MIN_VERSION, MAX_VERSION)?;
        let ghost ks = Self::kinds();
        let ghost s = buf@.skip(pos as int);
        proof {
            lemma_record_step(ks, s, 0, Seq::<FieldValue>::empty(), 0);
        }
        let (throttle_time_ms, p1) = get_i32(buf, pos)?;
        let ghost vs1 = seq![FieldValue::Int32(throttle_time_ms)];
        proof {
            lemma_record_step(ks, s, 1, vs1, (p1 - pos) as nat);
        }
        let (results, p2) = decode_array::<AlterBarrierGroupResult>(buf, p1, version)?;
        let ghost vs2 = vs1.push(FieldValue::Structs(records_of(results@)));
        proof {
            lemma_record_step(ks, s, 2, vs2, (p2 - pos) as nat);
        }
        let (unknown_tagged_fields, p3) = read_unknown_tagged_fields(buf, p2)?;
        let ghost vs3 = vs2.push(FieldValue::Tags(unknown_tagged_fields@));
        let v = Self { throttle_time_ms, results, unknown_tagged_fields };
        assert(ks.take(3) =~= ks);
        assert(v.fields() =~= vs3);
        Ok((v, p3))
    }
}

/// The bytes of every [`AlterableBarrierGroup`] hold its fields in the order of the schema:
/// `group`, `topics`, `interval_ms`, `retained_cuts`, `delete`, `unknown_tagged_fields`.
pub proof fn lemma_alterable_barrier_group_layout(x: AlterableBarrierGroup)
    ensures
        encode_record(x.fields()) == crate::wire::compact_str(x.group@)
            + crate::wire::encode_field(FieldValue::StrArray(string_views(x.topics@)))
            + crate::wire::int_bytes(x.interval_ms as int, 8)
            + crate::wire::int_bytes(x.retained_cuts as int, 4)
            + seq![if x.delete { 1u8 } else { 0u8 }]
            + crate::wire::encode_field(FieldValue::Tags(x.unknown_tagged_fields@)),
{
    let vs0 = Seq::<FieldValue>::empty();
    assert(encode_record(vs0) =~= Seq::<u8>::empty());
    crate::wire::lemma_encode_record_push(vs0, FieldValue::Str(x.group@));
    let vs1 = vs0.push(FieldValue::Str(x.group@));
    crate::wire::lemma_encode_record_push(vs1, FieldValue::StrArray(string_views(x.topics@)));
    let vs2 = vs1.push(FieldValue::StrArray(string_views(x.topics@)));
    crate::wire::lemma_encode_record_push(vs2, FieldValue::Int64(x.interval_ms));
    let vs3 = vs2.push(FieldValue::Int64(x.interval_ms));
    crate::wire::lemma_encode_record_push(vs3, FieldValue::Int32(x.retained_cuts));
    let vs4 = vs3.push(FieldValue::Int32(x.retained_cuts));
    crate::wire::lemma_encode_record_push(vs4, FieldValue::Bool(x.delete));
    let vs5 = vs4.push(FieldValue::Bool(x.delete));
    crate::wire::lemma_encode_record_push(vs5, FieldValue::Tags(x.unknown_tagged_fields@));
    let vs6 = vs5.push(FieldValue::Tags(x.unknown_tagged_fields@));
    assert(vs6 =~= x.fields());
    assert(Seq::<u8>::empty() + crate::wire::encode_field(FieldValue::Str(x.group@)) =~= crate::wire::encode_field(FieldValue::Str(x.group@)));
}

/// The bytes of every [`AlterBarrierGroupsRequest`] hold its fields in the order of the schema:
/// `groups`, `unknown_tagged_fields`.
pub proof fn lemma_alter_barrier_groups_request_layout(x: AlterBarrierGroupsRequest)
    ensures
        encode_record(x.fields()) == crate::wire::encode_field(FieldValue::Structs(records_of(x.groups@)))
            + crate::wire::encode_field(FieldValue::Tags(x.unknown_tagged_fields@)),
{
    let vs0 = Seq::<FieldValue>::empty();
    assert(encode_record(vs0) =~= Seq::<u8>::empty());
    crate::wire::lemma_encode_record_push(vs0, FieldValue::Structs(records_of(x.groups@)));
    let vs1 = vs0.push(FieldValue::Structs(records_of(x.groups@)));
    crate::wire::lemma_encode_record_push(vs1, FieldValue::Tags(x.unknown_tagged_fields@));
    let vs2 = vs1.push(FieldValue::Tags(x.unknown_tagged_fields@));
    assert(vs2 =~= x.fields());
    assert(Seq::<u8>::empty() + crate::wire::encode_field(FieldValue::Structs(records_of(x.groups@))) =~= crate::wire::encode_field(FieldValue::Structs(records_of(x.groups@))));
}

/// The bytes of every [`AlterBarrierGroupResult`] hold its fields in the order of the schema:
/// `group`, `error_code`, `error_message`, `unknown_tagged_fields`.
pub proof fn lemma_alter_barrier_group_result_layout(x: AlterBarrierGroupResult)
    ensures
        encode_record(x.fields()) == crate::wire::compact_str(x.group@)
            + crate::wire::int_bytes(x.error_code as int, 2)
            + crate::wire::encode_field(FieldValue::NullableStr(opt_view(x.error_message)))
            + crate::wire::encode_field(FieldValue::Tags(x.unknown_tagged_fields@)),
{
    let vs0 = Seq::<FieldValue>::empty();
    assert(encode_record(vs0) =~= Seq::<u8>::empty());
    crate::wire::lemma_encode_record_push(vs0, FieldValue::Str(x.group@));
    let vs1 = vs0.push(FieldValue::Str(x.group@));
    crate::wire::lemma_encode_record_push(vs1, FieldValue::Int16(x.error_code));
    let vs2 = vs1.push(FieldValue::Int16(x.error_code));
    crate::wire::lemma_encode_record_push(vs2, FieldValue::NullableStr(opt_view(x.error_message)));
    let vs3 = vs2.push(FieldValue::NullableStr(opt_view(x.error_message)));
    crate::wire::lemma_encode_record_push(vs3, FieldValue::Tags(x.unknown_tagged_fields@));
    let vs4 = vs3.push(FieldValue::Tags(x.unknown_tagged_fields@));
    assert(vs4 =~= x.fields());
    assert(Seq::<u8>::empty() + crate::wire::encode_field(FieldValue::Str(x.group@)) =~= crate::wire::encode_field(FieldValue::Str(x.group@)));
}

/// The bytes of every [`AlterBarrierGroupsResponse`] hold its fields in the order of the schema:
/// `throttle_time_ms`, `results`, `unknown_tagged_fields`.
pub proof fn lemma_alter_barrier_groups_response_layout(x: AlterBarrierGroupsResponse)
    ensures
        encode_record(x.fields()) == crate::wire::int_bytes(x.throttle_time_ms as int, 4)
            + crate::wire::encode_field(FieldValue::Structs(records_of(x.results@)))
            + crate::wire::encode_field(FieldValue::Tags(x.unknown_tagged_fields@)),
{
    let vs0 = Seq::<FieldValue>::empty();
    assert(encode_record(vs0) =~= Seq::<u8>::empty());
    crate::wire::lemma_encode_record_push(vs0, FieldValue::Int32(x.throttle_time_ms));
    let vs1 = vs0.push(FieldValue::Int32(x.throttle_time_ms));
    crate::wire::lemma_encode_record_push(vs1, FieldValue::Structs(records_of(x.results@)));
    let vs2 = vs1.push(FieldValue::Structs(records_of(x.results@)));
    crate::wire::lemma_encode_record_push(vs2, FieldValue::Tags(x.unknown_tagged_fields@));
    let vs3 = vs2.push(FieldValue::Tags(x.unknown_tagged_fields@));
    assert(vs3 =~= x.fields());
    assert(Seq::<u8>::empty() + crate::wire::encode_field(FieldValue::Int32(x.throttle_time_ms)) =~= crate::wire::encode_field(FieldValue::Int32(x.throttle_time_ms)));
}

} // verus!
