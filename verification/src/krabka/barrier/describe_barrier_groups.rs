//! `DescribeBarrierGroups`, api key 1011.
//!
//! The request reads the definition of one or more barrier groups. An empty
//! `groups` array asks for every group that the coordinator holds.

use vstd::prelude::*;

use crate::error::ProtocolError;
use crate::krabka::common::{
    array_len, check_version, decode_array, encode_array, lemma_record_fields, records_of, Wire,
    I16_LEN, I32_LEN, I64_LEN,
};
use crate::primitives::{
    compact_nullable_string_len, compact_string_len, decode_string_array, encode_string_array,
    get_compact_nullable_string, get_compact_string, get_i16, get_i32, get_i64, opt_view,
    put_compact_nullable_string, put_compact_string, put_i16, put_i32, put_i64, string_array_len,
    string_views,
};
use crate::tagged_fields::{
    read_unknown_tagged_fields, unknown_tagged_fields_len, write_unknown_tagged_fields,
    UnknownTaggedFields,
};
use crate::wire::{
    writable, encode_record, lemma_encode_record_push, lemma_record_step, FieldKind, FieldValue,
};

verus! {

broadcast use vstd::seq_lib::lemma_seq_skip_of_skip;

/// Api key of `DescribeBarrierGroups`.
pub const API_KEY: i16 = 1011;

/// Lowest version of `DescribeBarrierGroups` that this build speaks.
pub const MIN_VERSION: i16 = 0;

/// Highest version of `DescribeBarrierGroups` that this build speaks.
pub const MAX_VERSION: i16 = 0;

/// First version with flexible framing from KIP-482.
pub const FLEXIBLE_MIN: i16 = 0;

/// Reports whether `version` uses flexible framing from KIP-482.
///
/// The request header takes the same framing as the request body, so a caller
/// that writes the header needs this answer.
pub fn is_flexible(version: i16) -> (r: bool)
    ensures
        r == (version >= FLEXIBLE_MIN),
{
    version >= FLEXIBLE_MIN
}

/// Reads the definition of one or more barrier groups.
#[derive(Debug, Clone, PartialEq, Eq, Default)]
pub struct DescribeBarrierGroupsRequest {
    /// Names of the groups to describe. An empty array asks for every group.
    pub groups: Vec<String>,
    /// Tagged fields that this build does not know.
    pub unknown_tagged_fields: UnknownTaggedFields,
}

impl Wire for DescribeBarrierGroupsRequest {
    open spec fn kinds() -> Seq<FieldKind> {
        seq![FieldKind::StrArray, FieldKind::Tags]
    }

    open spec fn fields(&self) -> Seq<FieldValue> {
        seq![FieldValue::StrArray(string_views(self.groups@)), FieldValue::Tags(self.unknown_tagged_fields@)]
    }

    open spec fn supports(version: i16) -> bool {
        MIN_VERSION <= version <= MAX_VERSION
    }

    open spec fn api_key() -> i16 {
        API_KEY
    }

    fn encode(&self, buf: &mut Vec<u8>, version: i16) -> (res: Result<(), ProtocolError>) {
        check_version(API_KEY, version, MIN_VERSION, MAX_VERSION)?;
        proof {
            lemma_record_fields(Self::kinds(), self.fields());
            assert(writable(Self::kinds()[0], self.fields()[0]));
            assert(writable(Self::kinds()[1], self.fields()[1]));
        }
        let ghost vs0 = Seq::<FieldValue>::empty();
        encode_string_array(buf, self.groups.as_slice());
        proof {
            lemma_encode_record_push(vs0, FieldValue::StrArray(string_views(self.groups@)));
        }
        let ghost vs1 = vs0.push(FieldValue::StrArray(string_views(self.groups@)));
        assert(buf@ =~= old(buf)@ + encode_record(vs1));
        write_unknown_tagged_fields(buf, &self.unknown_tagged_fields);
        proof {
            lemma_encode_record_push(vs1, FieldValue::Tags(self.unknown_tagged_fields@));
        }
        let ghost vs2 = vs1.push(FieldValue::Tags(self.unknown_tagged_fields@));
        assert(buf@ =~= old(buf)@ + encode_record(vs2));
        assert(vs2 =~= self.fields());
        Ok(())
    }

    fn encoded_len(&self, version: i16) -> (n: usize) {
        proof {
            lemma_record_fields(Self::kinds(), self.fields());
            assert(writable(Self::kinds()[0], self.fields()[0]));
            assert(writable(Self::kinds()[1], self.fields()[1]));
            let vs0 = Seq::<FieldValue>::empty();
            lemma_encode_record_push(vs0, FieldValue::StrArray(string_views(self.groups@)));
            let vs1 = vs0.push(FieldValue::StrArray(string_views(self.groups@)));
            lemma_encode_record_push(vs1, FieldValue::Tags(self.unknown_tagged_fields@));
            let vs2 = vs1.push(FieldValue::Tags(self.unknown_tagged_fields@));
            assert(vs2 =~= self.fields());
        }
        string_array_len(self.groups.as_slice())
            + unknown_tagged_fields_len(&self.unknown_tagged_fields)
    }

    fn decode(buf: &[u8], pos: usize, version: i16) -> (res: Result<(Self, usize), ProtocolError>) {
        check_version(API_KEY, version, MIN_VERSION, MAX_VERSION)?;
        let ghost ks = Self::kinds();
        let ghost s = buf@.skip(pos as int);
        proof {
            lemma_record_step(ks, s, 0, Seq::<FieldValue>::empty(), 0);
        }
        let (groups, p1) = decode_string_array(buf, pos)?;
        let ghost vs1 = seq![FieldValue::StrArray(string_views(groups@))];
        proof {
            lemma_record_step(ks, s, 1, vs1, (p1 - pos) as nat);
        }
        let (unknown_tagged_fields, p2) = read_unknown_tagged_fields(buf, p1)?;
        let ghost vs2 = vs1.push(FieldValue::Tags(unknown_tagged_fields@));
        let v = Self { groups, unknown_tagged_fields };
        assert(ks.take(2) =~= ks);
        assert(v.fields() =~= vs2);
        Ok((v, p2))
    }
}

/// The definition of one barrier group, or the error that hid it.
#[derive(Debug, Clone, PartialEq, Eq)]
pub struct DescribedBarrierGroup {
    /// Name of the barrier group.
    pub group: String,
    /// Kafka error code. `0` means the rest of the fields describe the group.
    pub error_code: i16,
    /// Text that explains a non-zero `error_code`. `None` when the coordinator
    /// has nothing to add to the code.
    pub error_message: Option<String>,
    /// Topics that the group covers.
    pub topics: Vec<String>,
    /// Period between two automatic injections, in milliseconds. `-1` means
    /// that periodic injection is off for this group.
    pub interval_ms: i64,
    /// Number of published cuts that the coordinator keeps for this group.
    pub retained_cuts: i32,
    /// Epoch of the last cut that the coordinator started for this group.
    /// `-1` means that the group has no cut yet.
    pub last_epoch: i64,
    /// Node id of the broker that coordinates this group. `-1` means that no
    /// broker owns the group right now.
    pub coordinator_id: i32,
    /// Tagged fields that this build does not know.
    pub unknown_tagged_fields: UnknownTaggedFields,
}

impl Wire for DescribedBarrierGroup {
    open spec fn kinds() -> Seq<FieldKind> {
        seq![FieldKind::Str, FieldKind::Int16, FieldKind::NullableStr, FieldKind::StrArray, FieldKind::Int64, FieldKind::Int32, FieldKind::Int64, FieldKind::Int32, FieldKind::Tags]
    }

    open spec fn fields(&self) -> Seq<FieldValue> {
        seq![FieldValue::Str(self.group@), FieldValue::Int16(self.error_code), FieldValue::NullableStr(opt_view(self.error_message)), FieldValue::StrArray(string_views(self.topics@)), FieldValue::Int64(self.interval_ms), FieldValue::Int32(self.retained_cuts), FieldValue::Int64(self.last_epoch), FieldValue::Int32(self.coordinator_id), FieldValue::Tags(self.unknown_tagged_fields@)]
    }

    open spec fn supports(version: i16) -> bool {
        true
    }

    open spec fn api_key() -> i16 {
        0
    }

    fn encode(&self, buf: &mut Vec<u8>, version: i16) -> (res: Result<(), ProtocolError>) {
        proof {
            lemma_record_fields(Self::kinds(), self.fields());
            assert(writable(Self::kinds()[0], self.fields()[0]));
            assert(writable(Self::kinds()[2], self.fields()[2]));
            assert(writable(Self::kinds()[3], self.fields()[3]));
            assert(writable(Self::kinds()[8], self.fields()[8]));
        }
        let ghost vs0 = Seq::<FieldValue>::empty();
        put_compact_string(buf, self.group.as_str());
        proof {
            lemma_encode_record_push(vs0, FieldValue::Str(self.group@));
        }
        let ghost vs1 = vs0.push(FieldValue::Str(self.group@));
        assert(buf@ =~= old(buf)@ + encode_record(vs1));
        put_i16(buf, self.error_code);
        proof {
            lemma_encode_record_push(vs1, FieldValue::Int16(self.error_code));
        }
        let ghost vs2 = vs1.push(FieldValue::Int16(self.error_code));
        assert(buf@ =~= old(buf)@ + encode_record(vs2));
        put_compact_nullable_string(buf, &self.error_message);
        proof {
            lemma_encode_record_push(vs2, FieldValue::NullableStr(opt_view(self.error_message)));
        }
        let ghost vs3 = vs2.push(FieldValue::NullableStr(opt_view(self.error_message)));
        assert(buf@ =~= old(buf)@ + encode_record(vs3));
        encode_string_array(buf, self.topics.as_slice());
        proof {
            lemma_encode_record_push(vs3, FieldValue::StrArray(string_views(self.topics@)));
        }
        let ghost vs4 = vs3.push(FieldValue::StrArray(string_views(self.topics@)));
        assert(buf@ =~= old(buf)@ + encode_record(vs4));
        put_i64(buf, self.interval_ms);
        proof {
            lemma_encode_record_push(vs4, FieldValue::Int64(self.interval_ms));
        }
        let ghost vs5 = vs4.push(FieldValue::Int64(self.interval_ms));
        assert(buf@ =~= old(buf)@ + encode_record(vs5));
        put_i32(buf, self.retained_cuts);
        proof {
            lemma_encode_record_push(vs5, FieldValue::Int32(self.retained_cuts));
        }
        let ghost vs6 = vs5.push(FieldValue::Int32(self.retained_cuts));
        assert(buf@ =~= old(buf)@ + encode_record(vs6));
        put_i64(buf, self.last_epoch);
        proof {
            lemma_encode_record_push(vs6, FieldValue::Int64(self.last_epoch));
        }
        let ghost vs7 = vs6.push(FieldValue::Int64(self.last_epoch));
        assert(buf@ =~= old(buf)@ + encode_record(vs7));
        put_i32(buf, self.coordinator_id);
        proof {
            lemma_encode_record_push(vs7, FieldValue::Int32(self.coordinator_id));
        }
        let ghost vs8 = vs7.push(FieldValue::Int32(self.coordinator_id));
        assert(buf@ =~= old(buf)@ + encode_record(vs8));
        write_unknown_tagged_fields(buf, &self.unknown_tagged_fields);
        proof {
            lemma_encode_record_push(vs8, FieldValue::Tags(self.unknown_tagged_fields@));
        }
        let ghost vs9 = vs8.push(FieldValue::Tags(self.unknown_tagged_fields@));
        assert(buf@ =~= old(buf)@ + encode_record(vs9));
        assert(vs9 =~= self.fields());
        Ok(())
    }

    fn encoded_len(&self, version: i16) -> (n: usize) {
        proof {
            lemma_record_fields(Self::kinds(), self.fields());
            assert(writable(Self::kinds()[0], self.fields()[0]));
            assert(writable(Self::kinds()[2], self.fields()[2]));
            assert(writable(Self::kinds()[3], self.fields()[3]));
            assert(writable(Self::kinds()[8], self.fields()[8]));
            let vs0 = Seq::<FieldValue>::empty();
            lemma_encode_record_push(vs0, FieldValue::Str(self.group@));
            let vs1 = vs0.push(FieldValue::Str(self.group@));
            lemma_encode_record_push(vs1, FieldValue::Int16(self.error_code));
            let vs2 = vs1.push(FieldValue::Int16(self.error_code));
            lemma_encode_record_push(vs2, FieldValue::NullableStr(opt_view(self.error_message)));
            let vs3 = vs2.push(FieldValue::NullableStr(opt_view(self.error_message)));
            lemma_encode_record_push(vs3, FieldValue::StrArray(string_views(self.topics@)));
            let vs4 = vs3.push(FieldValue::StrArray(string_views(self.topics@)));
            lemma_encode_record_push(vs4, FieldValue::Int64(self.interval_ms));
            let vs5 = vs4.push(FieldValue::Int64(self.interval_ms));
            lemma_encode_record_push(vs5, FieldValue::Int32(self.retained_cuts));
            let vs6 = vs5.push(FieldValue::Int32(self.retained_cuts));
            lemma_encode_record_push(vs6, FieldValue::Int64(self.last_epoch));
            let vs7 = vs6.push(FieldValue::Int64(self.last_epoch));
            lemma_encode_record_push(vs7, FieldValue::Int32(self.coordinator_id));
            let vs8 = vs7.push(FieldValue::Int32(self.coordinator_id));
            lemma_encode_record_push(vs8, FieldValue::Tags(self.unknown_tagged_fields@));
            let vs9 = vs8.push(FieldValue::Tags(self.unknown_tagged_fields@));
            assert(vs9 =~= self.fields());
        }
        compact_string_len(self.group.as_str())
            + I16_LEN
            + compact_nullable_string_len(&self.error_message)
            + string_array_len(self.topics.as_slice())
            + I64_LEN
            + I32_LEN
            + I64_LEN
            + I32_LEN
            + unknown_tagged_fields_len(&self.unknown_tagged_fields)
    }

    #[verifier::rlimit(40)]
    fn decode(buf: &[u8], pos: usize, version: i16) -> (res: Result<(Self, usize), ProtocolError>) {
        let ghost ks = Self::kinds();
        let ghost s = buf@.skip(pos as int);
        proof {
            lemma_record_step(ks, s, 0, Seq::<FieldValue>::empty(), 0);
        }
        let (group, p1) = get_compact_string(buf, pos)?;
        let ghost vs1 = seq![FieldValue::Str(group@)];
        proof {
            lemma_record_step(ks, s, 1, vs1, (p1 - pos) as nat);
        }
        let (error_code, p2) = get_i16(buf, p1)?;
        let ghost vs2 = vs1.push(FieldValue::Int16(error_code));
        proof {
            lemma_record_step(ks, s, 2, vs2, (p2 - pos) as nat);
        }
        let (error_message, p3) = get_compact_nullable_string(buf, p2)?;
        let ghost vs3 = vs2.push(FieldValue::NullableStr(opt_view(error_message)));
        proof {
            lemma_record_step(ks, s, 3, vs3, (p3 - pos) as nat);
        }
        let (topics, p4) = decode_string_array(buf, p3)?;
        let ghost vs4 = vs3.push(FieldValue::StrArray(string_views(topics@)));
        proof {
            lemma_record_step(ks, s, 4, vs4, (p4 - pos) as nat);
        }
        let (interval_ms, p5) = get_i64(buf, p4)?;
        let ghost vs5 = vs4.push(FieldValue::Int64(interval_ms));
        proof {
            lemma_record_step(ks, s, 5, vs5, (p5 - pos) as nat);
        }
        let (retained_cuts, p6) = get_i32(buf, p5)?;
        let ghost vs6 = vs5.push(FieldValue::Int32(retained_cuts));
        proof {
            lemma_record_step(ks, s, 6, vs6, (p6 - pos) as nat);
        }
        let (last_epoch, p7) = get_i64(buf, p6)?;
        let ghost vs7 = vs6.push(FieldValue::Int64(last_epoch));
        proof {
            lemma_record_step(ks, s, 7, vs7, (p7 - pos) as nat);
        }
        let (coordinator_id, p8) = get_i32(buf, p7)?;
        let ghost vs8 = vs7.push(FieldValue::Int32(coordinator_id));
        proof {
            lemma_record_step(ks, s, 8, vs8, (p8 - pos) as nat);
        }
        let (unknown_tagged_fields, p9) = read_unknown_tagged_fields(buf, p8)?;
        let ghost vs9 = vs8.push(FieldValue::Tags(unknown_tagged_fields@));
        let v = Self { group, error_code, error_message, topics, interval_ms, retained_cuts, last_epoch, coordinator_id, unknown_tagged_fields };
        assert(ks.take(9) =~= ks);
        assert(v.fields() =~= vs9);
        Ok((v, p9))
    }
}

impl Default for DescribedBarrierGroup {
    fn default() -> (r: Self)
        ensures
            r.group@ == Seq::<char>::empty(),
            r.error_code == 0,
            r.error_message is None,
            r.topics@ == Seq::<String>::empty(),
            r.interval_ms == -1,
            r.retained_cuts == 0,
            r.last_epoch == -1,
            r.coordinator_id == -1,
            r.unknown_tagged_fields@ == Seq::<(u32, Seq<u8>)>::empty(),
    {
        let r = Self {
            group: String::new(),
            error_code: 0,
            error_message: None,
            topics: Vec::new(),
            interval_ms: -1,
            retained_cuts: 0,
            last_epoch: -1,
            coordinator_id: -1,
            unknown_tagged_fields: UnknownTaggedFields::default(),
        };
        r
    }
}

/// The definitions that a [`DescribeBarrierGroupsRequest`] asked for.
#[derive(Debug, Clone, PartialEq, Eq, Default)]
pub struct DescribeBarrierGroupsResponse {
    /// Milliseconds that the broker held the request back for a quota.
    pub throttle_time_ms: i32,
    /// One entry for each group that the request named, or for every group when
    /// the request named none.
    pub groups: Vec<DescribedBarrierGroup>,
    /// Tagged fields that this build does not know.
    pub unknown_tagged_fields: UnknownTaggedFields,
}

impl Wire for DescribeBarrierGroupsResponse {
    open spec fn kinds() -> Seq<FieldKind> {
        seq![FieldKind::Int32, FieldKind::Structs(DescribedBarrierGroup::kinds()), FieldKind::Tags]
    }

    open spec fn fields(&self) -> Seq<FieldValue> {
        seq![FieldValue::Int32(self.throttle_time_ms), FieldValue::Structs(records_of(self.groups@)), FieldValue::Tags(self.unknown_tagged_fields@)]
    }

    open spec fn supports(version: i16) -> bool {
        MIN_VERSION <= version <= MAX_VERSION
    }

    open spec fn api_key() -> i16 {
        API_KEY
    }

    fn encode(&self, buf: &mut Vec<u8>, version: i16) -> (res: Result<(), ProtocolError>) {
        check_version(API_KEY, version, MIN_VERSION, MAX_VERSION)?;
        proof {
            lemma_record_fields(Self::kinds(), self.fields());
            assert(writable(Self::kinds()[1], self.fields()[1]));
            assert(writable(Self::kinds()[2], self.fields()[2]));
        }
        let ghost vs0 = Seq::<FieldValue>::empty();
        put_i32(buf, self.throttle_time_ms);
        proof {
            lemma_encode_record_push(vs0, FieldValue::Int32(self.throttle_time_ms));
        }
        let ghost vs1 = vs0.push(FieldValue::Int32(self.throttle_time_ms));
        assert(buf@ =~= old(buf)@ + encode_record(vs1));
        encode_array(buf, self.groups.as_slice(), version)?;
        proof {
            lemma_encode_record_push(vs1, FieldValue::Structs(records_of(self.groups@)));
        }
        let ghost vs2 = vs1.push(FieldValue::Structs(records_of(self.groups@)));
        assert(buf@ =~= old(buf)@ + encode_record(vs2));
        write_unknown_tagged_fields(buf, &self.unknown_tagged_fields);
        proof {
            lemma_encode_record_push(vs2, FieldValue::Tags(self.unknown_tagged_fields@));
        }
        let ghost vs3 = vs2.push(FieldValue::Tags(self.unknown_tagged_fields@));
        assert(buf@ =~= old(buf)@ + encode_record(vs3));
        assert(vs3 =~= self.fields());
        Ok(())
    }

    fn encoded_len(&self, version: i16) -> (n: usize) {
        proof {
            lemma_record_fields(Self::kinds(), self.fields());
            assert(writable(Self::kinds()[1], self.fields()[1]));
            assert(writable(Self::kinds()[2], self.fields()[2]));
            let vs0 = Seq::<FieldValue>::empty();
            lemma_encode_record_push(vs0, FieldValue::Int32(self.throttle_time_ms));
            let vs1 = vs0.push(FieldValue::Int32(self.throttle_time_ms));
            lemma_encode_record_push(vs1, FieldValue::Structs(records_of(self.groups@)));
            let vs2 = vs1.push(FieldValue::Structs(records_of(self.groups@)));
            lemma_encode_record_push(vs2, FieldValue::Tags(self.unknown_tagged_fields@));
            let vs3 = vs2.push(FieldValue::Tags(self.unknown_tagged_fields@));
            assert(vs3 =~= self.fields());
        }
        I32_LEN
            + array_len(self.groups.as_slice(), version)
            + unknown_tagged_fields_len(&self.unknown_tagged_fields)
    }

    fn decode(buf: &[u8], pos: usize, version: i16) -> (res: Result<(Self, usize), ProtocolError>) {
        check_version(API_KEY, version, MIN_VERSION, MAX_VERSION)?;
        let ghost ks = Self::kinds();
        let ghost s = buf@.skip(pos as int);
        proof {
            lemma_record_step(ks, s, 0, Seq::<FieldValue>::empty(), 0);
        }
        let (throttle_time_ms, p1) = get_i32(buf, pos)?;
        let ghost vs1 = seq![FieldValue::Int32(throttle_time_ms)];
        proof {
            lemma_record_step(ks, s, 1, vs1, (p1 - pos) as nat);
        }
        let (groups, p2) = decode_array::<DescribedBarrierGroup>(buf, p1, version)?;
        let ghost vs2 = vs1.push(FieldValue::Structs(records_of(groups@)));
        proof {
            lemma_record_step(ks, s, 2, vs2, (p2 - pos) as nat);
        }
        let (unknown_tagged_fields, p3) = read_unknown_tagged_fields(buf, p2)?;
        let ghost vs3 = vs2.push(FieldValue::Tags(unknown_tagged_fields@));
        let v = Self { throttle_time_ms, groups, unknown_tagged_fields };
        assert(ks.take(3) =~= ks);
        assert(v.fields() =~= vs3);
        Ok((v, p3))
    }
}

/// The bytes of every [`DescribeBarrierGroupsRequest`] hold its fields in the order of the schema:
/// `groups`, `unknown_tagged_fields`.
pub proof fn lemma_describe_barrier_groups_request_layout(x: DescribeBarrierGroupsRequest)
    ensures
        encode_record(x.fields()) == crate::wire::encode_field(FieldValue::StrArray(string_views(x.groups@)))
            + crate::wire::encode_field(FieldValue::Tags(x.unknown_tagged_fields@)),
{
    let vs0 = Seq::<FieldValue>::empty();
    assert(encode_record(vs0) =~= Seq::<u8>::empty());
    crate::wire::lemma_encode_record_push(vs0, FieldValue::StrArray(string_views(x.groups@)));
    let vs1 = vs0.push(FieldValue::StrArray(string_views(x.groups@)));
    crate::wire::lemma_encode_record_push(vs1, FieldValue::Tags(x.unknown_tagged_fields@));
    let vs2 = vs1.push(FieldValue::Tags(x.unknown_tagged_fields@));
    assert(vs2 =~= x.fields());
    assert(Seq::<u8>::empty() + crate::wire::encode_field(FieldValue::StrArray(string_views(x.groups@))) =~= crate::wire::encode_field(FieldValue::StrArray(string_views(x.groups@))));
}

/// The bytes of every [`DescribedBarrierGroup`] hold its fields in the order of the schema:
/// `group`, `error_code`, `error_message`, `topics`, `interval_ms`, `retained_cuts`, `last_epoch`, `coordinator_id`, `unknown_tagged_fields`.
pub proof fn lemma_described_barrier_group_layout(x: DescribedBarrierGroup)
    ensures
        encode_record(x.fields()) == crate::wire::compact_str(x.group@)
            + crate::wire::int_bytes(x.error_code as int, 2)
            + crate::wire::encode_field(FieldValue::NullableStr(opt_view(x.error_message)))
            + crate::wire::encode_field(FieldValue::StrArray(string_views(x.topics@)))
            + crate::wire::int_bytes(x.interval_ms as int, 8)
            + crate::wire::int_bytes(x.retained_cuts as int, 4)
            + crate::wire::int_bytes(x.last_epoch as int, 8)
            + crate::wire::int_bytes(x.coordinator_id as int, 4)
            + crate::wire::encode_field(FieldValue::Tags(x.unknown_tagged_fields@)),
{
    let vs0 = Seq::<FieldValue>::empty();
    assert(encode_record(vs0) =~= Seq::<u8>::empty());
    crate::wire::lemma_encode_record_push(vs0, FieldValue::Str(x.group@));
    let vs1 = vs0.push(FieldValue::Str(x.group@));
    crate::wire::lemma_encode_record_push(vs1, FieldValue::Int16(x.error_code));
    let vs2 = vs1.push(FieldValue::Int16(x.error_code));
    crate::wire::lemma_encode_record_push(vs2, FieldValue::NullableStr(opt_view(x.error_message)));
    let vs3 = vs2.push(FieldValue::NullableStr(opt_view(x.error_message)));
    crate::wire::lemma_encode_record_push(vs3, FieldValue::StrArray(string_views(x.topics@)));
    let vs4 = vs3.push(FieldValue::StrArray(string_views(x.topics@)));
    crate::wire::lemma_encode_record_push(vs4, FieldValue::Int64(x.interval_ms));
    let vs5 = vs4.push(FieldValue::Int64(x.interval_ms));
    crate::wire::lemma_encode_record_push(vs5, FieldValue::Int32(x.retained_cuts));
    let vs6 = vs5.push(FieldValue::Int32(x.retained_cuts));
    crate::wire::lemma_encode_record_push(vs6, FieldValue::Int64(x.last_epoch));
    let vs7 = vs6.push(FieldValue::Int64(x.last_epoch));
    crate::wire::lemma_encode_record_push(vs7, FieldValue::Int32(x.coordinator_id));
    let vs8 = vs7.push(FieldValue::Int32(x.coordinator_id));
    crate::wire::lemma_encode_record_push(vs8, FieldValue::Tags(x.unknown_tagged_fields@));
    let vs9 = vs8.push(FieldValue::Tags(x.unknown_tagged_fields@));
    assert(vs9 =~= x.fields());
    assert(Seq::<u8>::empty() + crate::wire::encode_field(FieldValue::Str(x.group@)) =~= crate::wire::encode_field(FieldValue::Str(x.group@)));
}

/// The bytes of every [`DescribeBarrierGroupsResponse`] hold its fields in the order of the schema:
/// `throttle_time_ms`, `groups`, `unknown_tagged_fields`.
pub proof fn lemma_describe_barrier_groups_response_layout(x: DescribeBarrierGroupsResponse)
    ensures
        encode_record(x.fields()) == crate::wire::int_bytes(x.throttle_time_ms as int, 4)
            + crate::wire::encode_field(FieldValue::Structs(records_of(x.groups@)))
            + crate::wire::encode_field(FieldValue::Tags(x.unknown_tagged_fields@)),
{
    let vs0 = Seq::<FieldValue>::empty();
    assert(encode_record(vs0) =~= Seq::<u8>::empty());
    crate::wire::lemma_encode_record_push(vs0, FieldValue::Int32(x.throttle_time_ms));
    let vs1 = vs0.push(FieldValue::Int32(x.throttle_time_ms));
    crate::wire::lemma_encode_record_push(vs1, FieldValue::Structs(records_of(x.groups@)));
    let vs2 = vs1.push(FieldValue::Structs(records_of(x.groups@)));
    crate::wire::lemma_encode_record_push(vs2, FieldValue::Tags(x.unknown_tagged_fields@));
    let vs3 = vs2.push(FieldValue::Tags(x.unknown_tagged_fields@));
    assert(vs3 =~= x.fields());
    assert(Seq::<u8>::empty() + crate::wire::encode_field(FieldValue::Int32(x.throttle_time_ms)) =~= crate::wire::encode_field(FieldValue::Int32(x.throttle_time_ms)));
}

} // verus!
