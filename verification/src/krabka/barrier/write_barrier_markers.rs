//! `WriteBarrierMarkers`, api key 1014.
//!
//! The coordinator sends this request to a broker that leads a partition of the
//! group. That broker appends one barrier marker to each named partition and
//! returns the offset that each marker took.
//!
//! This is inter-broker traffic. A client never sends it. The fan-out follows
//! the transaction-marker path, and it collects the returned offsets, which the
//! transaction path does not need.

use vstd::prelude::*;

use crate::error::ProtocolError;
use crate::krabka::common::{
    array_len, check_version, decode_array, encode_array, lemma_record_fields, records_of, Wire,
    I16_LEN, I32_LEN, I64_LEN,
};
use crate::primitives::{
    compact_string_len, get_compact_string, get_i16, get_i32, get_i64, put_compact_string, put_i16,
    put_i32, put_i64,
};
use crate::tagged_fields::{
    read_unknown_tagged_fields, unknown_tagged_fields_len, write_unknown_tagged_fields,
    UnknownTaggedFields,
};
use crate::wire::{
    writable, encode_record, lemma_encode_record_push, lemma_record_step, FieldKind, FieldValue,
};

verus! {

broadcast use vstd::seq_lib::lemma_seq_skip_of_skip;

/// Api key of `WriteBarrierMarkers`.
pub const API_KEY: i16 = 1014;

/// Lowest version of `WriteBarrierMarkers` that this build speaks.
pub const MIN_VERSION: i16 = 0;

/// Highest version of `WriteBarrierMarkers` that this build speaks.
pub const MAX_VERSION: i16 = 0;

/// First version with flexible framing from KIP-482.
pub const FLEXIBLE_MIN: i16 = 0;

/// Reports whether `version` uses flexible framing from KIP-482.
///
/// The request header takes the same framing as the request body, so a caller
/// that writes the header needs this answer.
pub fn is_flexible(version: i16) -> (r: bool)
    ensures
        r == (version >= FLEXIBLE_MIN),
{
    version >= FLEXIBLE_MIN
}

/// One partition for the target broker to mark, and its expected leader epoch.
#[derive(Debug, Clone, PartialEq, Eq)]
pub struct WritableBarrierPartition {
    /// Partition index within the topic.
    pub partition: i32,
    /// Leader epoch that the coordinator read for this partition when it froze
    /// the target set. The target broker compares this epoch against its own
    /// leader epoch, and it rejects a mismatch with `FENCED_LEADER_EPOCH`. `-1`
    /// means the coordinator had no epoch for this partition, and the target
    /// broker does not fence on it.
    pub expected_leader_epoch: i32,
    /// Tagged fields that this build does not know.
    pub unknown_tagged_fields: UnknownTaggedFields,
}

impl Wire for WritableBarrierPartition {
    open spec fn kinds() -> Seq<FieldKind> {
        seq![FieldKind::Int32, FieldKind::Int32, FieldKind::Tags]
    }

    open spec fn fields(&self) -> Seq<FieldValue> {
        seq![FieldValue::Int32(self.partition), FieldValue::Int32(self.expected_leader_epoch), FieldValue::Tags(self.unknown_tagged_fields@)]
    }

    open spec fn supports(version: i16) -> bool {
        true
    }

    open spec fn api_key() -> i16 {
        0
    }

    fn encode(&self, buf: &mut Vec<u8>, version: i16) -> (res: Result<(), ProtocolError>) {
        proof {
            lemma_record_fields(Self::kinds(), self.fields());
            assert(writable(Self::kinds()[2], self.fields()[2]));
        }
        let ghost vs0 = Seq::<FieldValue>::empty();
        put_i32(buf, self.partition);
        proof {
            lemma_encode_record_push(vs0, FieldValue::Int32(self.partition));
        }
        let ghost vs1 = vs0.push(FieldValue::Int32(self.partition));
        assert(buf@ =~= old(buf)@ + encode_record(vs1));
        put_i32(buf, self.expected_leader_epoch);
        proof {
            lemma_encode_record_push(vs1, FieldValue::Int32(self.expected_leader_epoch));
        }
        let ghost vs2 = vs1.push(FieldValue::Int32(self.expected_leader_epoch));
        assert(buf@ =~= old(buf)@ + encode_record(vs2));
        write_unknown_tagged_fields(buf, &self.unknown_tagged_fields);
        proof {
            lemma_encode_record_push(vs2, FieldValue::Tags(self.unknown_tagged_fields@));
        }
        let ghost vs3 = vs2.push(FieldValue::Tags(self.unknown_tagged_fields@));
        assert(buf@ =~= old(buf)@ + encode_record(vs3));
        assert(vs3 =~= self.fields());
        Ok(())
    }

    fn encoded_len(&self, version: i16) -> (n: usize) {
        proof {
            lemma_record_fields(Self::kinds(), self.fields());
            assert(writable(Self::kinds()[2], self.fields()[2]));
            let vs0 = Seq::<FieldValue>::empty();
            lemma_encode_record_push(vs0, FieldValue::Int32(self.partition));
            let vs1 = vs0.push(FieldValue::Int32(self.partition));
            lemma_encode_record_push(vs1, FieldValue::Int32(self.expected_leader_epoch));
            let vs2 = vs1.push(FieldValue::Int32(self.expected_leader_epoch));
            lemma_encode_record_push(vs2, FieldValue::Tags(self.unknown_tagged_fields@));
            let vs3 = vs2.push(FieldValue::Tags(self.unknown_tagged_fields@));
            assert(vs3 =~= self.fields());
        }
        I32_LEN
            + I32_LEN
            + unknown_tagged_fields_len(&self.unknown_tagged_fields)
    }

    fn decode(buf: &[u8], pos: usize, version: i16) -> (res: Result<(Self, usize), ProtocolError>) {
        let ghost ks = Self::kinds();
        let ghost s = buf@.skip(pos as int);
        proof {
            lemma_record_step(ks, s, 0, Seq::<FieldValue>::empty(), 0);
        }
        let (partition, p1) = get_i32(buf, pos)?;
        let ghost vs1 = seq![FieldValue::Int32(partition)];
        proof {
            lemma_record_step(ks, s, 1, vs1, (p1 - pos) as nat);
        }
        let (expected_leader_epoch, p2) = get_i32(buf, p1)?;
        let ghost vs2 = vs1.push(FieldValue::Int32(expected_leader_epoch));
        proof {
            lemma_record_step(ks, s, 2, vs2, (p2 - pos) as nat);
        }
        let (unknown_tagged_fields, p3) = read_unknown_tagged_fields(buf, p2)?;
        let ghost vs3 = vs2.push(FieldValue::Tags(unknown_tagged_fields@));
        let v = Self { partition, expected_leader_epoch, unknown_tagged_fields };
        assert(ks.take(3) =~= ks);
        assert(v.fields() =~= vs3);
        Ok((v, p3))
    }
}

impl Default for WritableBarrierPartition {
    fn default() -> (r: Self)
        ensures
            r.partition == 0,
            r.expected_leader_epoch == -1,
            r.unknown_tagged_fields@ == Seq::<(u32, Seq<u8>)>::empty(),
    {
        let r = Self {
            partition: 0,
            expected_leader_epoch: -1,
            unknown_tagged_fields: UnknownTaggedFields::default(),
        };
        r
    }
}

/// The partitions of one topic for the target broker to mark.
#[derive(Debug, Clone, PartialEq, Eq, Default)]
pub struct WritableBarrierTopic {
    /// Topic name.
    pub topic: String,
    /// One entry for each partition that the target broker leads.
    pub partitions: Vec<WritableBarrierPartition>,
    /// Tagged fields that this build does not know.
    pub unknown_tagged_fields: UnknownTaggedFields,
}

impl Wire for WritableBarrierTopic {
    open spec fn kinds() -> Seq<FieldKind> {
        seq![FieldKind::Str, FieldKind::Structs(WritableBarrierPartition::kinds()), FieldKind::Tags]
    }

    open spec fn fields(&self) -> Seq<FieldValue> {
        seq![FieldValue::Str(self.topic@), FieldValue::Structs(records_of(self.partitions@)), FieldValue::Tags(self.unknown_tagged_fields@)]
    }

    open spec fn supports(version: i16) -> bool {
        true
    }

    open spec fn api_key() -> i16 {
        0
    }

    fn encode(&self, buf: &mut Vec<u8>, version: i16) -> (res: Result<(), ProtocolError>) {
        proof {
            lemma_record_fields(Self::kinds(), self.fields());
            assert(writable(Self::kinds()[0], self.fields()[0]));
            assert(writable(Self::kinds()[1], self.fields()[1]));
            assert(writable(Self::kinds()[2], self.fields()[2]));
        }
        let ghost vs0 = Seq::<FieldValue>::empty();
        put_compact_string(buf, self.topic.as_str());
        proof {
            lemma_encode_record_push(vs0, FieldValue::Str(self.topic@));
        }
        let ghost vs1 = vs0.push(FieldValue::Str(self.topic@));
        assert(buf@ =~= old(buf)@ + encode_record(vs1));
        encode_array(buf, self.partitions.as_slice(), version)?;
        proof {
            lemma_encode_record_push(vs1, FieldValue::Structs(records_of(self.partitions@)));
        }
        let ghost vs2 = vs1.push(FieldValue::Structs(records_of(self.partitions@)));
        assert(buf@ =~= old(buf)@ + encode_record(vs2));
        write_unknown_tagged_fields(buf, &self.unknown_tagged_fields);
        proof {
            lemma_encode_record_push(vs2, FieldValue::Tags(self.unknown_tagged_fields@));
        }
        let ghost vs3 = vs2.push(FieldValue::Tags(self.unknown_tagged_fields@));
        assert(buf@ =~= old(buf)@ + encode_record(vs3));
        assert(vs3 =~= self.fields());
        Ok(())
    }

    fn encoded_len(&self, version: i16) -> (n: usize) {
        proof {
            lemma_record_fields(Self::kinds(), self.fields());
            assert(writable(Self::kinds()[0], self.fields()[0]));
            assert(writable(Self::kinds()[1], self.fields()[1]));
            assert(writable(Self::kinds()[2], self.fields()[2]));
            let vs0 = Seq::<FieldValue>::empty();
            lemma_encode_record_push(vs0, FieldValue::Str(self.topic@));
            let vs1 = vs0.push(FieldValue::Str(self.topic@));
            lemma_encode_record_push(vs1, FieldValue::Structs(records_of(self.partitions@)));
            let vs2 = vs1.push(FieldValue::Structs(records_of(self.partitions@)));
            lemma_encode_record_push(vs2, FieldValue::Tags(self.unknown_tagged_fields@));
            let vs3 = vs2.push(FieldValue::Tags(self.unknown_tagged_fields@));
            assert(vs3 =~= self.fields());
        }
        compact_string_len(self.topic.as_str())
            + array_len(self.partitions.as_slice(), version)
            + unknown_tagged_fields_len(&self.unknown_tagged_fields)
    }

    fn decode(buf: &[u8], pos: usize, version: i16) -> (res: Result<(Self, usize), ProtocolError>) {
        let ghost ks = Self::kinds();
        let ghost s = buf@.skip(pos as int);
        proof {
            lemma_record_step(ks, s, 0, Seq::<FieldValue>::empty(), 0);
        }
        let (topic, p1) = get_compact_string(buf, pos)?;
        let ghost vs1 = seq![FieldValue::Str(topic@)];
        proof {
            lemma_record_step(ks, s, 1, vs1, (p1 - pos) as nat);
        }
        let (partitions, p2) = decode_array::<WritableBarrierPartition>(buf, p1, version)?;
        let ghost vs2 = vs1.push(FieldValue::Structs(records_of(partitions@)));
        proof {
            lemma_record_step(ks, s, 2, vs2, (p2 - pos) as nat);
        }
        let (unknown_tagged_fields, p3) = read_unknown_tagged_fields(buf, p2)?;
        let ghost vs3 = vs2.push(FieldValue::Tags(unknown_tagged_fields@));
        let v = Self { topic, partitions, unknown_tagged_fields };
        assert(ks.take(3) =~= ks);
        assert(v.fields() =~= vs3);
        Ok((v, p3))
    }
}

/// Asks a broker to append one barrier marker to each named partition.
#[derive(Debug, Clone, PartialEq, Eq, Default)]
pub struct WriteBarrierMarkersRequest {
    /// Name of the barrier group that the epoch belongs to.
    pub group: String,
    /// Epoch that the coordinator assigned to this cut. The marker carries it.
    pub epoch: i64,
    /// Milliseconds since the Unix epoch, at the moment the coordinator started
    /// the injection. The marker carries it.
    pub triggered_at: i64,
    /// Target partitions, grouped by topic.
    pub topics: Vec<WritableBarrierTopic>,
    /// Tagged fields that this build does not know.
    pub unknown_tagged_fields: UnknownTaggedFields,
}

impl Wire for WriteBarrierMarkersRequest {
    open spec fn kinds() -> Seq<FieldKind> {
        seq![FieldKind::Str, FieldKind::Int64, FieldKind::Int64, FieldKind::Structs(WritableBarrierTopic::kinds()), FieldKind::Tags]
    }

    open spec fn fields(&self) -> Seq<FieldValue> {
        seq![FieldValue::Str(self.group@), FieldValue::Int64(self.epoch), FieldValue::Int64(self.triggered_at), FieldValue::Structs(records_of(self.topics@)), FieldValue::Tags(self.unknown_tagged_fields@)]
    }

    open spec fn supports(version: i16) -> bool {
        MIN_VERSION <= version <= MAX_VERSION
    }

    open spec fn api_key() -> i16 {
        API_KEY
    }

    fn encode(&self, buf: &mut Vec<u8>, version: i16) -> (res: Result<(), ProtocolError>) {
        check_version(API_KEY, version, MIN_VERSION, MAX_VERSION)?;
        proof {
            lemma_record_fields(Self::kinds(), self.fields());
            assert(writable(Self::kinds()[0], self.fields()[0]));
            assert(writable(Self::kinds()[3], self.fields()[3]));
            assert(writable(Self::kinds()[4], self.fields()[4]));
        }
        let ghost vs0 = Seq::<FieldValue>::empty();
        put_compact_string(buf, self.group.as_str());
        proof {
            lemma_encode_record_push(vs0, FieldValue::Str(self.group@));
        }
        let ghost vs1 = vs0.push(FieldValue::Str(self.group@));
        assert(buf@ =~= old(buf)@ + encode_record(vs1));
        put_i64(buf, self.epoch);
        proof {
            lemma_encode_record_push(vs1, FieldValue::Int64(self.epoch));
        }
        let ghost vs2 = vs1.push(FieldValue::Int64(self.epoch));
        assert(buf@ =~= old(buf)@ + encode_record(vs2));
        put_i64(buf, self.triggered_at);
        proof {
            lemma_encode_record_push(vs2, FieldValue::Int64(self.triggered_at));
        }
        let ghost vs3 = vs2.push(FieldValue::Int64(self.triggered_at));
        assert(buf@ =~= old(buf)@ + encode_record(vs3));
        encode_array(buf, self.topics.as_slice(), version)?;
        proof {
            lemma_encode_record_push(vs3, FieldValue::Structs(records_of(self.topics@)));
        }
        let ghost vs4 = vs3.push(FieldValue::Structs(records_of(self.topics@)));
        assert(buf@ =~= old(buf)@ + encode_record(vs4));
        write_unknown_tagged_fields(buf, &self.unknown_tagged_fields);
        proof {
            lemma_encode_record_push(vs4, FieldValue::Tags(self.unknown_tagged_fields@));
        }
        let ghost vs5 = vs4.push(FieldValue::Tags(self.unknown_tagged_fields@));
        assert(buf@ =~= old(buf)@ + encode_record(vs5));
        assert(vs5 =~= self.fields());
        Ok(())
    }

    fn encoded_len(&self, version: i16) -> (n: usize) {
        proof {
            lemma_record_fields(Self::kinds(), self.fields());
            assert(writable(Self::kinds()[0], self.fields()[0]));
            assert(writable(Self::kinds()[3], self.fields()[3]));
            assert(writable(Self::kinds()[4], self.fields()[4]));
            let vs0 = Seq::<FieldValue>::empty();
            lemma_encode_record_push(vs0, FieldValue::Str(self.group@));
            let vs1 = vs0.push(FieldValue::Str(self.group@));
            lemma_encode_record_push(vs1, FieldValue::Int64(self.epoch));
            let vs2 = vs1.push(FieldValue::Int64(self.epoch));
            lemma_encode_record_push(vs2, FieldValue::Int64(self.triggered_at));
            let vs3 = vs2.push(FieldValue::Int64(self.triggered_at));
            lemma_encode_record_push(vs3, FieldValue::Structs(records_of(self.topics@)));
            let vs4 = vs3.push(FieldValue::Structs(records_of(self.topics@)));
            lemma_encode_record_push(vs4, FieldValue::Tags(self.unknown_tagged_fields@));
            let vs5 = vs4.push(FieldValue::Tags(self.unknown_tagged_fields@));
            assert(vs5 =~= self.fields());
        }
        compact_string_len(self.group.as_str())
            + I64_LEN
            + I64_LEN
            + array_len(self.topics.as_slice(), version)
            + unknown_tagged_fields_len(&self.unknown_tagged_fields)
    }

    fn decode(buf: &[u8], pos: usize, version: i16) -> (res: Result<(Self, usize), ProtocolError>) {
        check_version(API_KEY, version, MIN_VERSION, MAX_VERSION)?;
        let ghost ks = Self::kinds();
        let ghost s = buf@.skip(pos as int);
        proof {
            lemma_record_step(ks, s, 0, Seq::<FieldValue>::empty(), 0);
        }
        let (group, p1) = get_compact_string(buf, pos)?;
        let ghost vs1 = seq![FieldValue::Str(group@)];
        proof {
            lemma_record_step(ks, s, 1, vs1, (p1 - pos) as nat);
        }
        let (epoch, p2) = get_i64(buf, p1)?;
        let ghost vs2 = vs1.push(FieldValue::Int64(epoch));
        proof {
            lemma_record_step(ks, s, 2, vs2, (p2 - pos) as nat);
        }
        let (triggered_at, p3) = get_i64(buf, p2)?;
        let ghost vs3 = vs2.push(FieldValue::Int64(triggered_at));
        proof {
            lemma_record_step(ks, s, 3, vs3, (p3 - pos) as nat);
        }
        let (topics, p4) = decode_array::<WritableBarrierTopic>(buf, p3, version)?;
        let ghost vs4 = vs3.push(FieldValue::Structs(records_of(topics@)));
        proof {
            lemma_record_step(ks, s, 4, vs4, (p4 - pos) as nat);
        }
        let (unknown_tagged_fields, p5) = read_unknown_tagged_fields(buf, p4)?;
        let ghost vs5 = vs4.push(FieldValue::Tags(unknown_tagged_fields@));
        let v = Self { group, epoch, triggered_at, topics, unknown_tagged_fields };
        assert(ks.take(5) =~= ks);
        assert(v.fields() =~= vs5);
        Ok((v, p5))
    }
}

/// The outcome for one partition that the target broker tried to mark.
#[derive(Debug, Clone, PartialEq, Eq, Default)]
pub struct WrittenBarrierPartition {
    /// Partition index within the topic.
    pub partition: i32,
    /// Kafka error code. `0` means the append succeeded and `offset` holds the
    /// position of the marker.
    pub error_code: i16,
    /// Offset that the barrier marker took. The coordinator writes this offset
    /// into the cut for this partition.
    pub offset: i64,
    /// Tagged fields that this build does not know.
    pub unknown_tagged_fields: UnknownTaggedFields,
}

impl Wire for WrittenBarrierPartition {
    open spec fn kinds() -> Seq<FieldKind> {
        seq![FieldKind::Int32, FieldKind::Int16, FieldKind::Int64, FieldKind::Tags]
    }

    open spec fn fields(&self) -> Seq<FieldValue> {
        seq![FieldValue::Int32(self.partition), FieldValue::Int16(self.error_code), FieldValue::Int64(self.offset), FieldValue::Tags(self.unknown_tagged_fields@)]
    }

    open spec fn supports(version: i16) -> bool {
        true
    }

    open spec fn api_key() -> i16 {
        0
    }

    fn encode(&self, buf: &mut Vec<u8>, version: i16) -> (res: Result<(), ProtocolError>) {
        proof {
            lemma_record_fields(Self::kinds(), self.fields());
            assert(writable(Self::kinds()[3], self.fields()[3]));
        }
        let ghost vs0 = Seq::<FieldValue>::empty();
        put_i32(buf, self.partition);
        proof {
            lemma_encode_record_push(vs0, FieldValue::Int32(self.partition));
        }
        let ghost vs1 = vs0.push(FieldValue::Int32(self.partition));
        assert(buf@ =~= old(buf)@ + encode_record(vs1));
        put_i16(buf, self.error_code);
        proof {
            lemma_encode_record_push(vs1, FieldValue::Int16(self.error_code));
        }
        let ghost vs2 = vs1.push(FieldValue::Int16(self.error_code));
        assert(buf@ =~= old(buf)@ + encode_record(vs2));
        put_i64(buf, self.offset);
        proof {
            lemma_encode_record_push(vs2, FieldValue::Int64(self.offset));
        }
        let ghost vs3 = vs2.push(FieldValue::Int64(self.offset));
        assert(buf@ =~= old(buf)@ + encode_record(vs3));
        write_unknown_tagged_fields(buf, &self.unknown_tagged_fields);
        proof {
            lemma_encode_record_push(vs3, FieldValue::Tags(self.unknown_tagged_fields@));
        }
        let ghost vs4 = vs3.push(FieldValue::Tags(self.unknown_tagged_fields@));
        assert(buf@ =~= old(buf)@ + encode_record(vs4));
        assert(vs4 =~= self.fields());
        Ok(())
    }

    fn encoded_len(&self, version: i16) -> (n: usize) {
        proof {
            lemma_record_fields(Self::kinds(), self.fields());
            assert(writable(Self::kinds()[3], self.fields()[3]));
            let vs0 = Seq::<FieldValue>::empty();
            lemma_encode_record_push(vs0, FieldValue::Int32(self.partition));
            let vs1 = vs0.push(FieldValue::Int32(self.partition));
            lemma_encode_record_push(vs1, FieldValue::Int16(self.error_code));
            let vs2 = vs1.push(FieldValue::Int16(self.error_code));
            lemma_encode_record_push(vs2, FieldValue::Int64(self.offset));
            let vs3 = vs2.push(FieldValue::Int64(self.offset));
            lemma_encode_record_push(vs3, FieldValue::Tags(self.unknown_tagged_fields@));
            let vs4 = vs3.push(FieldValue::Tags(self.unknown_tagged_fields@));
            assert(vs4 =~= self.fields());
        }
        I32_LEN
            + I16_LEN
            + I64_LEN
            + unknown_tagged_fields_len(&self.unknown_tagged_fields)
    }

    fn decode(buf: &[u8], pos: usize, version: i16) -> (res: Result<(Self, usize), ProtocolError>) {
        let ghost ks = Self::kinds();
        let ghost s = buf@.skip(pos as int);
        proof {
            lemma_record_step(ks, s, 0, Seq::<FieldValue>::empty(), 0);
        }
        let (partition, p1) = get_i32(buf, pos)?;
        let ghost vs1 = seq![FieldValue::Int32(partition)];
        proof {
            lemma_record_step(ks, s, 1, vs1, (p1 - pos) as nat);
        }
        let (error_code, p2) = get_i16(buf, p1)?;
        let ghost vs2 = vs1.push(FieldValue::Int16(error_code));
        proof {
            lemma_record_step(ks, s, 2, vs2, (p2 - pos) as nat);
        }
        let (offset, p3) = get_i64(buf, p2)?;
        let ghost vs3 = vs2.push(FieldValue::Int64(offset));
        proof {
            lemma_record_step(ks, s, 3, vs3, (p3 - pos) as nat);
        }
        let (unknown_tagged_fields, p4) = read_unknown_tagged_fields(buf, p3)?;
        let ghost vs4 = vs3.push(FieldValue::Tags(unknown_tagged_fields@));
        let v = Self { partition, error_code, offset, unknown_tagged_fields };
        assert(ks.take(4) =~= ks);
        assert(v.fields() =~= vs4);
        Ok((v, p4))
    }
}

/// The outcomes for the partitions of one topic.
#[derive(Debug, Clone, PartialEq, Eq, Default)]
pub struct WrittenBarrierTopic {
    /// Topic name.
    pub topic: String,
    /// One outcome for each partition that the request named for this topic.
    pub partitions: Vec<WrittenBarrierPartition>,
    /// Tagged fields that this build does not know.
    pub unknown_tagged_fields: UnknownTaggedFields,
}

impl Wire for WrittenBarrierTopic {
    open spec fn kinds() -> Seq<FieldKind> {
        seq![FieldKind::Str, FieldKind::Structs(WrittenBarrierPartition::kinds()), FieldKind::Tags]
    }

    open spec fn fields(&self) -> Seq<FieldValue> {
        seq![FieldValue::Str(self.topic@), FieldValue::Structs(records_of(self.partitions@)), FieldValue::Tags(self.unknown_tagged_fields@)]
    }

    open spec fn supports(version: i16) -> bool {
        true
    }

    open spec fn api_key() -> i16 {
        0
    }

    fn encode(&self, buf: &mut Vec<u8>, version: i16) -> (res: Result<(), ProtocolError>) {
        proof {
            lemma_record_fields(Self::kinds(), self.fields());
            assert(writable(Self::kinds()[0], self.fields()[0]));
            assert(writable(Self::kinds()[1], self.fields()[1]));
            assert(writable(Self::kinds()[2], self.fields()[2]));
        }
        let ghost vs0 = Seq::<FieldValue>::empty();
        put_compact_string(buf, self.topic.as_str());
        proof {
            lemma_encode_record_push(vs0, FieldValue::Str(self.topic@));
        }
        let ghost vs1 = vs0.push(FieldValue::Str(self.topic@));
        assert(buf@ =~= old(buf)@ + encode_record(vs1));
        encode_array(buf, self.partitions.as_slice(), version)?;
        proof {
            lemma_encode_record_push(vs1, FieldValue::Structs(records_of(self.partitions@)));
        }
        let ghost vs2 = vs1.push(FieldValue::Structs(records_of(self.partitions@)));
        assert(buf@ =~= old(buf)@ + encode_record(vs2));
        write_unknown_tagged_fields(buf, &self.unknown_tagged_fields);
        proof {
            lemma_encode_record_push(vs2, FieldValue::Tags(self.unknown_tagged_fields@));
        }
        let ghost vs3 = vs2.push(FieldValue::Tags(self.unknown_tagged_fields@));
        assert(buf@ =~= old(buf)@ + encode_record(vs3));
        assert(vs3 =~= self.fields());
        Ok(())
    }

    fn encoded_len(&self, version: i16) -> (n: usize) {
        proof {
            lemma_record_fields(Self::kinds(), self.fields());
            assert(writable(Self::kinds()[0], self.fields()[0]));
            assert(writable(Self::kinds()[1], self.fields()[1]));
            assert(writable(Self::kinds()[2], self.fields()[2]));
            let vs0 = Seq::<FieldValue>::empty();
            lemma_encode_record_push(vs0, FieldValue::Str(self.topic@));
            let vs1 = vs0.push(FieldValue::Str(self.topic@));
            lemma_encode_record_push(vs1, FieldValue::Structs(records_of(self.partitions@)));
            let vs2 = vs1.push(FieldValue::Structs(records_of(self.partitions@)));
            lemma_encode_record_push(vs2, FieldValue::Tags(self.unknown_tagged_fields@));
            let vs3 = vs2.push(FieldValue::Tags(self.unknown_tagged_fields@));
            assert(vs3 =~= self.fields());
        }
        compact_string_len(self.topic.as_str())
            + array_len(self.partitions.as_slice(), version)
            + unknown_tagged_fields_len(&self.unknown_tagged_fields)
    }

    fn decode(buf: &[u8], pos: usize, version: i16) -> (res: Result<(Self, usize), ProtocolError>) {
        let ghost ks = Self::kinds();
        let ghost s = buf@.skip(pos as int);
        proof {
            lemma_record_step(ks, s, 0, Seq::<FieldValue>::empty(), 0);
        }
        let (topic, p1) = get_compact_string(buf, pos)?;
        let ghost vs1 = seq![FieldValue::Str(topic@)];
        proof {
            lemma_record_step(ks, s, 1, vs1, (p1 - pos) as nat);
        }
        let (partitions, p2) = decode_array::<WrittenBarrierPartition>(buf, p1, version)?;
        let ghost vs2 = vs1.push(FieldValue::Structs(records_of(partitions@)));
        proof {
            lemma_record_step(ks, s, 2, vs2, (p2 - pos) as nat);
        }
        let (unknown_tagged_fields, p3) = read_unknown_tagged_fields(buf, p2)?;
        let ghost vs3 = vs2.push(FieldValue::Tags(unknown_tagged_fields@));
        let v = Self { topic, partitions, unknown_tagged_fields };
        assert(ks.take(3) =~= ks);
        assert(v.fields() =~= vs3);
        Ok((v, p3))
    }
}

/// The offset that each barrier marker took.
///
/// This response carries no throttle time. It is inter-broker traffic, and the
/// broker applies no client quota to it.
#[derive(Debug, Clone, PartialEq, Eq, Default)]
pub struct WriteBarrierMarkersResponse {
    /// One entry for each topic that the request named, in request order.
    pub topics: Vec<WrittenBarrierTopic>,
    /// Tagged fields that this build does not know.
    pub unknown_tagged_fields: UnknownTaggedFields,
}

impl Wire for WriteBarrierMarkersResponse {
    open spec fn kinds() -> Seq<FieldKind> {
        seq![FieldKind::Structs(WrittenBarrierTopic::kinds()), FieldKind::Tags]
    }

    open spec fn fields(&self) -> Seq<FieldValue> {
        seq![FieldValue::Structs(records_of(self.topics@)), FieldValue::Tags(self.unknown_tagged_fields@)]
    }

    open spec fn supports(version: i16) -> bool {
        MIN_VERSION <= version <= MAX_VERSION
    }

    open spec fn api_key() -> i16 {
        API_KEY
    }

    fn encode(&self, buf: &mut Vec<u8>, version: i16) -> (res: Result<(), ProtocolError>) {
        check_version(API_KEY, version, MIN_VERSION, MAX_VERSION)?;
        proof {
            lemma_record_fields(Self::kinds(), self.fields());
            assert(writable(Self::kinds()[0], self.fields()[0]));
            assert(writable(Self::kinds()[1], self.fields()[1]));
        }
        let ghost vs0 = Seq::<FieldValue>::empty();
        encode_array(buf, self.topics.as_slice(), version)?;
        proof {
            lemma_encode_record_push(vs0, FieldValue::Structs(records_of(self.topics@)));
        }
        let ghost vs1 = vs0.push(FieldValue::Structs(records_of(self.topics@)));
        assert(buf@ =~= old(buf)@ + encode_record(vs1));
        write_unknown_tagged_fields(buf, &self.unknown_tagged_fields);
        proof {
            lemma_encode_record_push(vs1, FieldValue::Tags(self.unknown_tagged_fields@));
        }
        let ghost vs2 = vs1.push(FieldValue::Tags(self.unknown_tagged_fields@));
        assert(buf@ =~= old(buf)@ + encode_record(vs2));
        assert(vs2 =~= self.fields());
        Ok(())
    }

    fn encoded_len(&self, version: i16) -> (n: usize) {
        proof {
            lemma_record_fields(Self::kinds(), self.fields());
            assert(writable(Self::kinds()[0], self.fields()[0]));
            assert(writable(Self::kinds()[1], self.fields()[1]));
            let vs0 = Seq::<FieldValue>::empty();
            lemma_encode_record_push(vs0, FieldValue::Structs(records_of(self.topics@)));
            let vs1 = vs0.push(FieldValue::Structs(records_of(self.topics@)));
            lemma_encode_record_push(vs1, FieldValue::Tags(self.unknown_tagged_fields@));
            let vs2 = vs1.push(FieldValue::Tags(self.unknown_tagged_fields@));
            assert(vs2 =~= self.fields());
        }
        array_len(self.topics.as_slice(), version)
            + unknown_tagged_fields_len(&self.unknown_tagged_fields)
    }

    fn decode(buf: &[u8], pos: usize, version: i16) -> (res: Result<(Self, usize), ProtocolError>) {
        check_version(API_KEY, version, MIN_VERSION, MAX_VERSION)?;
        let ghost ks = Self::kinds();
        let ghost s = buf@.skip(pos as int);
        proof {
            lemma_record_step(ks, s, 0, Seq::<FieldValue>::empty(), 0);
        }
        let (topics, p1) = decode_array::<WrittenBarrierTopic>(buf, pos, version)?;
        let ghost vs1 = seq![FieldValue::Structs(records_of(topics@))];
        proof {
            lemma_record_step(ks, s, 1, vs1, (p1 - pos) as nat);
        }
        let (unknown_tagged_fields, p2) = read_unknown_tagged_fields(buf, p1)?;
        let ghost vs2 = vs1.push(FieldValue::Tags(unknown_tagged_fields@));
        let v = Self { topics, unknown_tagged_fields };
        assert(ks.take(2) =~= ks);
        assert(v.fields() =~= vs2);
        Ok((v, p2))
    }
}

/// The bytes of every [`WritableBarrierPartition`] hold its fields in the order of the schema:
/// `partition`, `expected_leader_epoch`, `unknown_tagged_fields`.
pub proof fn lemma_writable_barrier_partition_layout(x: WritableBarrierPartition)
    ensures
        encode_record(x.fields()) == crate::wire::int_bytes(x.partition as int, 4)
            + crate::wire::int_bytes(x.expected_leader_epoch as int, 4)
            + crate::wire::encode_field(FieldValue::Tags(x.unknown_tagged_fields@)),
{
    let vs0 = Seq::<FieldValue>::empty();
    assert(encode_record(vs0) =~= Seq::<u8>::empty());
    crate::wire::lemma_encode_record_push(vs0, FieldValue::Int32(x.partition));
    let vs1 = vs0.push(FieldValue::Int32(x.partition));
    crate::wire::lemma_encode_record_push(vs1, FieldValue::Int32(x.expected_leader_epoch));
    let vs2 = vs1.push(FieldValue::Int32(x.expected_leader_epoch));
    crate::wire::lemma_encode_record_push(vs2, FieldValue::Tags(x.unknown_tagged_fields@));
    let vs3 = vs2.push(FieldValue::Tags(x.unknown_tagged_fields@));
    assert(vs3 =~= x.fields());
    assert(Seq::<u8>::empty() + crate::wire::encode_field(FieldValue::Int32(x.partition)) =~= crate::wire::encode_field(FieldValue::Int32(x.partition)));
}

/// The bytes of every [`WritableBarrierTopic`] hold its fields in the order of the schema:
/// `topic`, `partitions`, `unknown_tagged_fields`.
pub proof fn lemma_writable_barrier_topic_layout(x: WritableBarrierTopic)
    ensures
        encode_record(x.fields()) == crate::wire::compact_str(x.topic@)
            + crate::wire::encode_field(FieldValue::Structs(records_of(x.partitions@)))
            + crate::wire::encode_field(FieldValue::Tags(x.unknown_tagged_fields@)),
{
    let vs0 = Seq::<FieldValue>::empty();
    assert(encode_record(vs0) =~= Seq::<u8>::empty());
    crate::wire::lemma_encode_record_push(vs0, FieldValue::Str(x.topic@));
    let vs1 = vs0.push(FieldValue::Str(x.topic@));
    crate::wire::lemma_encode_record_push(vs1, FieldValue::Structs(records_of(x.partitions@)));
    let vs2 = vs1.push(FieldValue::Structs(records_of(x.partitions@)));
    crate::wire::lemma_encode_record_push(vs2, FieldValue::Tags(x.unknown_tagged_fields@));
    let vs3 = vs2.push(FieldValue::Tags(x.unknown_tagged_fields@));
    assert(vs3 =~= x.fields());
    assert(Seq::<u8>::empty() + crate::wire::encode_field(FieldValue::Str(x.topic@)) =~= crate::wire::encode_field(FieldValue::Str(x.topic@)));
}

/// The bytes of every [`WriteBarrierMarkersRequest`] hold its fields in the order of the schema:
/// `group`, `epoch`, `triggered_at`, `topics`, `unknown_tagged_fields`.
pub proof fn lemma_write_barrier_markers_request_layout(x: WriteBarrierMarkersRequest)
    ensures
        encode_record(x.fields()) == crate::wire::compact_str(x.group@)
            + crate::wire::int_bytes(x.epoch as int, 8)
            + crate::wire::int_bytes(x.triggered_at as int, 8)
            + crate::wire::encode_field(FieldValue::Structs(records_of(x.topics@)))
            + crate::wire::encode_field(FieldValue::Tags(x.unknown_tagged_fields@)),
{
    let vs0 = Seq::<FieldValue>::empty();
    assert(encode_record(vs0) =~= Seq::<u8>::empty());
    crate::wire::lemma_encode_record_push(vs0, FieldValue::Str(x.group@));
    let vs1 = vs0.push(FieldValue::Str(x.group@));
    crate::wire::lemma_encode_record_push(vs1, FieldValue::Int64(x.epoch));
    let vs2 = vs1.push(FieldValue::Int64(x.epoch));
    crate::wire::lemma_encode_record_push(vs2, FieldValue::Int64(x.triggered_at));
    let vs3 = vs2.push(FieldValue::Int64(x.triggered_at));
    crate::wire::lemma_encode_record_push(vs3, FieldValue::Structs(records_of(x.topics@)));
    let vs4 = vs3.push(FieldValue::Structs(records_of(x.topics@)));
    crate::wire::lemma_encode_record_push(vs4, FieldValue::Tags(x.unknown_tagged_fields@));
    let vs5 = vs4.push(FieldValue::Tags(x.unknown_tagged_fields@));
    assert(vs5 =~= x.fields());
    assert(Seq::<u8>::empty() + crate::wire::encode_field(FieldValue::Str(x.group@)) =~= crate::wire::encode_field(FieldValue::Str(x.group@)));
}

/// The bytes of every [`WrittenBarrierPartition`] hold its fields in the order of the schema:
/// `partition`, `error_code`, `offset`, `unknown_tagged_fields`.
pub proof fn lemma_written_barrier_partition_layout(x: WrittenBarrierPartition)
    ensures
        encode_record(x.fields()) == crate::wire::int_bytes(x.partition as int, 4)
            + crate::wire::int_bytes(x.error_code as int, 2)
            + crate::wire::int_bytes(x.offset as int, 8)
            + crate::wire::encode_field(FieldValue::Tags(x.unknown_tagged_fields@)),
{
    let vs0 = Seq::<FieldValue>::empty();
    assert(encode_record(vs0) =~= Seq::<u8>::empty());
    crate::wire::lemma_encode_record_push(vs0, FieldValue::Int32(x.partition));
    let vs1 = vs0.push(FieldValue::Int32(x.partition));
    crate::wire::lemma_encode_record_push(vs1, FieldValue::Int16(x.error_code));
    let vs2 = vs1.push(FieldValue::Int16(x.error_code));
    crate::wire::lemma_encode_record_push(vs2, FieldValue::Int64(x.offset));
    let vs3 = vs2.push(FieldValue::Int64(x.offset));
    crate::wire::lemma_encode_record_push(vs3, FieldValue::Tags(x.unknown_tagged_fields@));
    let vs4 = vs3.push(FieldValue::Tags(x.unknown_tagged_fields@));
    assert(vs4 =~= x.fields());
    assert(Seq::<u8>::empty() + crate::wire::encode_field(FieldValue::Int32(x.partition)) =~= crate::wire::encode_field(FieldValue::Int32(x.partition)));
}

/// The bytes of every [`WrittenBarrierTopic`] hold its fields in the order of the schema:
/// `topic`, `partitions`, `unknown_tagged_fields`.
pub proof fn lemma_written_barrier_topic_layout(x: WrittenBarrierTopic)
    ensures
        encode_record(x.fields()) == crate::wire::compact_str(x.topic@)
            + crate::wire::encode_field(FieldValue::Structs(records_of(x.partitions@)))
            + crate::wire::encode_field(FieldValue::Tags(x.unknown_tagged_fields@)),
{
    let vs0 = Seq::<FieldValue>::empty();
    assert(encode_record(vs0) =~= Seq::<u8>::empty());
    crate::wire::lemma_encode_record_push(vs0, FieldValue::Str(x.topic@));
    let vs1 = vs0.push(FieldValue::Str(x.topic@));
    crate::wire::lemma_encode_record_push(vs1, FieldValue::Structs(records_of(x.partitions@)));
    let vs2 = vs1.push(FieldValue::Structs(records_of(x.partitions@)));
    crate::wire::lemma_encode_record_push(vs2, FieldValue::Tags(x.unknown_tagged_fields@));
    let vs3 = vs2.push(FieldValue::Tags(x.unknown_tagged_fields@));
    assert(vs3 =~= x.fields());
    assert(Seq::<u8>::empty() + crate::wire::encode_field(FieldValue::Str(x.topic@)) =~= crate::wire::encode_field(FieldValue::Str(x.topic@)));
}

/// The bytes of every [`WriteBarrierMarkersResponse`] hold its fields in the order of the schema:
/// `topics`, `unknown_tagged_fields`.
pub proof fn lemma_write_barrier_markers_response_layout(x: WriteBarrierMarkersResponse)
    ensures
        encode_record(x.fields()) == crate::wire::encode_field(FieldValue::Structs(records_of(x.topics@)))
            + crate::wire::encode_field(FieldValue::Tags(x.unknown_tagged_fields@)),
{
    let vs0 = Seq::<FieldValue>::empty();
    assert(encode_record(vs0) =~= Seq::<u8>::empty());
    crate::wire::lemma_encode_record_push(vs0, FieldValue::Structs(records_of(x.topics@)));
    let vs1 = vs0.push(FieldValue::Structs(records_of(x.topics@)));
    crate::wire::lemma_encode_record_push(vs1, FieldValue::Tags(x.unknown_tagged_fields@));
    let vs2 = vs1.push(FieldValue::Tags(x.unknown_tagged_fields@));
    assert(vs2 =~= x.fields());
    assert(Seq::<u8>::empty() + crate::wire::encode_field(FieldValue::Structs(records_of(x.topics@))) =~= crate::wire::encode_field(FieldValue::Structs(records_of(x.topics@))));
}

} // verus!
