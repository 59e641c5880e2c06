//! Cut types that more than one barrier message uses.
//!
//! A cut is the set of offsets that one epoch's barrier markers took.
//! [`BarrierCutTopic`] holds those offsets for one topic, and
//! [`BarrierMissingPartition`] names a partition that got no marker.
//! [`TriggerBarrierResponse`](super::trigger_barrier::TriggerBarrierResponse)
//! returns the cut it made. [`ListBarrierCutsResponse`](super::list_barrier_cuts::ListBarrierCutsResponse)
//! returns the cuts the coordinator published before.

use vstd::prelude::*;

use crate::error::ProtocolError;
use crate::krabka::common::{
    array_len, decode_array, encode_array, lemma_record_fields, records_of, Wire, I32_LEN, I64_LEN,
};
use crate::primitives::{
    compact_string_len, get_compact_string, get_i32, get_i64, put_compact_string, put_i32, put_i64,
};
use crate::tagged_fields::{
    read_unknown_tagged_fields, unknown_tagged_fields_len, write_unknown_tagged_fields,
    UnknownTaggedFields,
};
use crate::wire::{
    writable, encode_record, lemma_encode_record_push, lemma_record_step, FieldKind, FieldValue,
};

verus! {

broadcast use vstd::seq_lib::lemma_seq_skip_of_skip;

/// Status of a cut that reached every partition of the group.
pub const CUT_STATUS_COMPLETE: i8 = 0;

/// Status of a cut that missed at least one partition. The `missing` array of
/// the response names those partitions.
pub const CUT_STATUS_PARTIAL: i8 = 1;

/// One partition of a cut, and the offset that its barrier marker took.
///
/// Records below `offset` are before the cut. Records at `offset` and above are
/// after it.
#[derive(Debug, Clone, PartialEq, Eq, Default)]
pub struct BarrierCutPartition {
    /// Partition index within the topic.
    pub partition: i32,
    /// Offset of the epoch's barrier marker in this partition.
    pub offset: i64,
    /// Tagged fields that this build does not know.
    pub unknown_tagged_fields: UnknownTaggedFields,
}

impl Wire for BarrierCutPartition {
    open spec fn kinds() -> Seq<FieldKind> {
        seq![FieldKind::Int32, FieldKind::Int64, FieldKind::Tags]
    }

    open spec fn fields(&self) -> Seq<FieldValue> {
        seq![FieldValue::Int32(self.partition), FieldValue::Int64(self.offset), FieldValue::Tags(self.unknown_tagged_fields@)]
    }

    open spec fn supports(version: i16) -> bool {
        true
    }

    open spec fn api_key() -> i16 {
        0
    }

    fn encode(&self, buf: &mut Vec<u8>, version: i16) -> (res: Result<(), ProtocolError>) {
        proof {
            lemma_record_fields(Self::kinds(), self.fields());
            assert(writable(Self::kinds()[2], self.fields()[2]));
        }
        let ghost vs0 = Seq::<FieldValue>::empty();
        put_i32(buf, self.partition);
        proof {
            lemma_encode_record_push(vs0, FieldValue::Int32(self.partition));
        }
        let ghost vs1 = vs0.push(FieldValue::Int32(self.partition));
        assert(buf@ =~= old(buf)@ + encode_record(vs1));
        put_i64(buf, self.offset);
        proof {
            lemma_encode_record_push(vs1, FieldValue::Int64(self.offset));
        }
        let ghost vs2 = vs1.push(FieldValue::Int64(self.offset));
        assert(buf@ =~= old(buf)@ + encode_record(vs2));
        write_unknown_tagged_fields(buf, &self.unknown_tagged_fields);
        proof {
            lemma_encode_record_push(vs2, FieldValue::Tags(self.unknown_tagged_fields@));
        }
        let ghost vs3 = vs2.push(FieldValue::Tags(self.unknown_tagged_fields@));
        assert(buf@ =~= old(buf)@ + encode_record(vs3));
        assert(vs3 =~= self.fields());
        Ok(())
    }

    fn encoded_len(&self, version: i16) -> (n: usize) {
        proof {
            lemma_record_fields(Self::kinds(), self.fields());
            assert(writable(Self::kinds()[2], self.fields()[2]));
            let vs0 = Seq::<FieldValue>::empty();
            lemma_encode_record_push(vs0, FieldValue::Int32(self.partition));
            let vs1 = vs0.push(FieldValue::Int32(self.partition));
            lemma_encode_record_push(vs1, FieldValue::Int64(self.offset));
            let vs2 = vs1.push(FieldValue::Int64(self.offset));
            lemma_encode_record_push(vs2, FieldValue::Tags(self.unknown_tagged_fields@));
            let vs3 = vs2.push(FieldValue::Tags(self.unknown_tagged_fields@));
            assert(vs3 =~= self.fields());
        }
        I32_LEN
            + I64_LEN
            + unknown_tagged_fields_len(&self.unknown_tagged_fields)
    }

    fn decode(buf: &[u8], pos: usize, version: i16) -> (res: Result<(Self, usize), ProtocolError>) {
        let ghost ks = Self::kinds();
        let ghost s = buf@.skip(pos as int);
        proof {
            lemma_record_step(ks, s, 0, Seq::<FieldValue>::empty(), 0);
        }
        let (partition, p1) = get_i32(buf, pos)?;
        let ghost vs1 = seq![FieldValue::Int32(partition)];
        proof {
            lemma_record_step(ks, s, 1, vs1, (p1 - pos) as nat);
        }
        let (offset, p2) = get_i64(buf, p1)?;
        let ghost vs2 = vs1.push(FieldValue::Int64(offset));
        proof {
            lemma_record_step(ks, s, 2, vs2, (p2 - pos) as nat);
        }
        let (unknown_tagged_fields, p3) = read_unknown_tagged_fields(buf, p2)?;
        let ghost vs3 = vs2.push(FieldValue::Tags(unknown_tagged_fields@));
        let v = Self { partition, offset, unknown_tagged_fields };
        assert(ks.take(3) =~= ks);
        assert(v.fields() =~= vs3);
        Ok((v, p3))
    }
}

/// The partitions of one topic that a cut covers.
#[derive(Debug, Clone, PartialEq, Eq, Default)]
pub struct BarrierCutTopic {
    /// Topic name.
    pub topic: String,
    /// Cut offset for each partition of the topic that got a marker.
    pub partitions: Vec<BarrierCutPartition>,
    /// Tagged fields that this build does not know.
    pub unknown_tagged_fields: UnknownTaggedFields,
}

impl Wire for BarrierCutTopic {
    open spec fn kinds() -> Seq<FieldKind> {
        seq![FieldKind::Str, FieldKind::Structs(BarrierCutPartition::kinds()), FieldKind::Tags]
    }

    open spec fn fields(&self) -> Seq<FieldValue> {
        seq![FieldValue::Str(self.topic@), FieldValue::Structs(records_of(self.partitions@)), FieldValue::Tags(self.unknown_tagged_fields@)]
    }

    open spec fn supports(version: i16) -> bool {
        true
    }

    open spec fn api_key() -> i16 {
        0
    }

    fn encode(&self, buf: &mut Vec<u8>, version: i16) -> (res: Result<(), ProtocolError>) {
        proof {
            lemma_record_fields(Self::kinds(), self.fields());
            assert(writable(Self::kinds()[0], self.fields()[0]));
            assert(writable(Self::kinds()[1], self.fields()[1]));
            assert(writable(Self::kinds()[2], self.fields()[2]));
        }
        let ghost vs0 = Seq::<FieldValue>::empty();
        put_compact_string(buf, self.topic.as_str());
        proof {
            lemma_encode_record_push(vs0, FieldValue::Str(self.topic@));
        }
        let ghost vs1 = vs0.push(FieldValue::Str(self.topic@));
        assert(buf@ =~= old(buf)@ + encode_record(vs1));
        encode_array(buf, self.partitions.as_slice(), version)?;
        proof {
            lemma_encode_record_push(vs1, FieldValue::Structs(records_of(self.partitions@)));
        }
        let ghost vs2 = vs1.push(FieldValue::Structs(records_of(self.partitions@)));
        assert(buf@ =~= old(buf)@ + encode_record(vs2));
        write_unknown_tagged_fields(buf, &self.unknown_tagged_fields);
        proof {
            lemma_encode_record_push(vs2, FieldValue::Tags(self.unknown_tagged_fields@));
        }
        let ghost vs3 = vs2.push(FieldValue::Tags(self.unknown_tagged_fields@));
        assert(buf@ =~= old(buf)@ + encode_record(vs3));
        assert(vs3 =~= self.fields());
        Ok(())
    }

    fn encoded_len(&self, version: i16) -> (n: usize) {
        proof {
            lemma_record_fields(Self::kinds(), self.fields());
            assert(writable(Self::kinds()[0], self.fields()[0]));
            assert(writable(Self::kinds()[1], self.fields()[1]));
            assert(writable(Self::kinds()[2], self.fields()[2]));
            let vs0 = Seq::<FieldValue>::empty();
            lemma_encode_record_push(vs0, FieldValue::Str(self.topic@));
            let vs1 = vs0.push(FieldValue::Str(self.topic@));
            lemma_encode_record_push(vs1, FieldValue::Structs(records_of(self.partitions@)));
            let vs2 = vs1.push(FieldValue::Structs(records_of(self.partitions@)));
            lemma_encode_record_push(vs2, FieldValue::Tags(self.unknown_tagged_fields@));
            let vs3 = vs2.push(FieldValue::Tags(self.unknown_tagged_fields@));
            assert(vs3 =~= self.fields());
        }
        compact_string_len(self.topic.as_str())
            + array_len(self.partitions.as_slice(), version)
            + unknown_tagged_fields_len(&self.unknown_tagged_fields)
    }

    fn decode(buf: &[u8], pos: usize, version: i16) -> (res: Result<(Self, usize), ProtocolError>) {
        let ghost ks = Self::kinds();
        let ghost s = buf@.skip(pos as int);
        proof {
            lemma_record_step(ks, s, 0, Seq::<FieldValue>::empty(), 0);
        }
        let (topic, p1) = get_compact_string(buf, pos)?;
        let ghost vs1 = seq![FieldValue::Str(topic@)];
        proof {
            lemma_record_step(ks, s, 1, vs1, (p1 - pos) as nat);
        }
        let (partitions, p2) = decode_array::<BarrierCutPartition>(buf, p1, version)?;
        let ghost vs2 = vs1.push(FieldValue::Structs(records_of(partitions@)));
        proof {
            lemma_record_step(ks, s, 2, vs2, (p2 - pos) as nat);
        }
        let (unknown_tagged_fields, p3) = read_unknown_tagged_fields(buf, p2)?;
        let ghost vs3 = vs2.push(FieldValue::Tags(unknown_tagged_fields@));
        let v = Self { topic, partitions, unknown_tagged_fields };
        assert(ks.take(3) =~= ks);
        assert(v.fields() =~= vs3);
        Ok((v, p3))
    }
}

/// A partition of the frozen target set that got no barrier marker.
///
/// A partial cut names every such partition, so one record tells a reader which
/// partitions to skip for that epoch.
#[derive(Debug, Clone, PartialEq, Eq, Default)]
pub struct BarrierMissingPartition {
    /// Topic name.
    pub topic: String,
    /// Partition index within the topic.
    pub partition: i32,
    /// Tagged fields that this build does not know.
    pub unknown_tagged_fields: UnknownTaggedFields,
}

impl Wire for BarrierMissingPartition {
    open spec fn kinds() -> Seq<FieldKind> {
        seq![FieldKind::Str, FieldKind::Int32, FieldKind::Tags]
    }

    open spec fn fields(&self) -> Seq<FieldValue> {
        seq![FieldValue::Str(self.topic@), FieldValue::Int32(self.partition), FieldValue::Tags(self.unknown_tagged_fields@)]
    }

    open spec fn supports(version: i16) -> bool {
        true
    }

    open spec fn api_key() -> i16 {
        0
    }

    fn encode(&self, buf: &mut Vec<u8>, version: i16) -> (res: Result<(), ProtocolError>) {
        proof {
            lemma_record_fields(Self::kinds(), self.fields());
            assert(writable(Self::kinds()[0], self.fields()[0]));
            assert(writable(Self::kinds()[2], self.fields()[2]));
        }
        let ghost vs0 = Seq::<FieldValue>::empty();
        put_compact_string(buf, self.topic.as_str());
        proof {
            lemma_encode_record_push(vs0, FieldValue::Str(self.topic@));
        }
        let ghost vs1 = vs0.push(FieldValue::Str(self.topic@));
        assert(buf@ =~= old(buf)@ + encode_record(vs1));
        put_i32(buf, self.partition);
        proof {
            lemma_encode_record_push(vs1, FieldValue::Int32(self.partition));
        }
        let ghost vs2 = vs1.push(FieldValue::Int32(self.partition));
        assert(buf@ =~= old(buf)@ + encode_record(vs2));
        write_unknown_tagged_fields(buf, &self.unknown_tagged_fields);
        proof {
            lemma_encode_record_push(vs2, FieldValue::Tags(self.unknown_tagged_fields@));
        }
        let ghost vs3 = vs2.push(FieldValue::Tags(self.unknown_tagged_fields@));
        assert(buf@ =~= old(buf)@ + encode_record(vs3));
        assert(vs3 =~= self.fields());
        Ok(())
    }

    fn encoded_len(&self, version: i16) -> (n: usize) {
        proof {
            lemma_record_fields(Self::kinds(), self.fields());
            assert(writable(Self::kinds()[0], self.fields()[0]));
            assert(writable(Self::kinds()[2], self.fields()[2]));
            let vs0 = Seq::<FieldValue>::empty();
            lemma_encode_record_push(vs0, FieldValue::Str(self.topic@));
            let vs1 = vs0.push(FieldValue::Str(self.topic@));
            lemma_encode_record_push(vs1, FieldValue::Int32(self.partition));
            let vs2 = vs1.push(FieldValue::Int32(self.partition));
            lemma_encode_record_push(vs2, FieldValue::Tags(self.unknown_tagged_fields@));
            let vs3 = vs2.push(FieldValue::Tags(self.unknown_tagged_fields@));
            assert(vs3 =~= self.fields());
        }
        compact_string_len(self.topic.as_str())
            + I32_LEN
            + unknown_tagged_fields_len(&self.unknown_tagged_fields)
    }

    fn decode(buf: &[u8], pos: usize, version: i16) -> (res: Result<(Self, usize), ProtocolError>) {
        let ghost ks = Self::kinds();
        let ghost s = buf@.skip(pos as int);
        proof {
            lemma_record_step(ks, s, 0, Seq::<FieldValue>::empty(), 0);
        }
        let (topic, p1) = get_compact_string(buf, pos)?;
        let ghost vs1 = seq![FieldValue::Str(topic@)];
        proof {
            lemma_record_step(ks, s, 1, vs1, (p1 - pos) as nat);
        }
        let (partition, p2) = get_i32(buf, p1)?;
        let ghost vs2 = vs1.push(FieldValue::Int32(partition));
        proof {
            lemma_record_step(ks, s, 2, vs2, (p2 - pos) as nat);
        }
        let (unknown_tagged_fields, p3) = read_unknown_tagged_fields(buf, p2)?;
        let ghost vs3 = vs2.push(FieldValue::Tags(unknown_tagged_fields@));
        let v = Self { topic, partition, unknown_tagged_fields };
        assert(ks.take(3) =~= ks);
        assert(v.fields() =~= vs3);
        Ok((v, p3))
    }
}

/// The bytes of every [`BarrierCutPartition`] hold its fields in the order of the schema:
/// `partition`, `offset`, `unknown_tagged_fields`.
pub proof fn lemma_barrier_cut_partition_layout(x: BarrierCutPartition)
    ensures
        encode_record(x.fields()) == crate::wire::int_bytes(x.partition as int, 4)
            + crate::wire::int_bytes(x.offset as int, 8)
            + crate::wire::encode_field(FieldValue::Tags(x.unknown_tagged_fields@)),
{
    let vs0 = Seq::<FieldValue>::empty();
    assert(encode_record(vs0) =~= Seq::<u8>::empty());
    crate::wire::lemma_encode_record_push(vs0, FieldValue::Int32(x.partition));
    let vs1 = vs0.push(FieldValue::Int32(x.partition));
    crate::wire::lemma_encode_record_push(vs1, FieldValue::Int64(x.offset));
    let vs2 = vs1.push(FieldValue::Int64(x.offset));
    crate::wire::lemma_encode_record_push(vs2, FieldValue::Tags(x.unknown_tagged_fields@));
    let vs3 = vs2.push(FieldValue::Tags(x.unknown_tagged_fields@));
    assert(vs3 =~= x.fields());
    assert(Seq::<u8>::empty() + crate::wire::encode_field(FieldValue::Int32(x.partition)) =~= crate::wire::encode_field(FieldValue::Int32(x.partition)));
}

/// The bytes of every [`BarrierCutTopic`] hold its fields in the order of the schema:
/// `topic`, `partitions`, `unknown_tagged_fields`.
pub proof fn lemma_barrier_cut_topic_layout(x: BarrierCutTopic)
    ensures
        encode_record(x.fields()) == crate::wire::compact_str(x.topic@)
            + crate::wire::encode_field(FieldValue::Structs(records_of(x.partitions@)))
            + crate::wire::encode_field(FieldValue::Tags(x.unknown_tagged_fields@)),
{
    let vs0 = Seq::<FieldValue>::empty();
    assert(encode_record(vs0) =~= Seq::<u8>::empty());
    crate::wire::lemma_encode_record_push(vs0, FieldValue::Str(x.topic@));
    let vs1 = vs0.push(FieldValue::Str(x.topic@));
    crate::wire::lemma_encode_record_push(vs1, FieldValue::Structs(records_of(x.partitions@)));
    let vs2 = vs1.push(FieldValue::Structs(records_of(x.partitions@)));
    crate::wire::lemma_encode_record_push(vs2, FieldValue::Tags(x.unknown_tagged_fields@));
    let vs3 = vs2.push(FieldValue::Tags(x.unknown_tagged_fields@));
    assert(vs3 =~= x.fields());
    assert(Seq::<u8>::empty() + crate::wire::encode_field(FieldValue::Str(x.topic@)) =~= crate::wire::encode_field(FieldValue::Str(x.topic@)));
}

/// The bytes of every [`BarrierMissingPartition`] hold its fields in the order of the schema:
/// `topic`, `partition`, `unknown_tagged_fields`.
pub proof fn lemma_barrier_missing_partition_layout(x: BarrierMissingPartition)
    ensures
        encode_record(x.fields()) == crate::wire::compact_str(x.topic@)
            + crate::wire::int_bytes(x.partition as int, 4)
            + crate::wire::encode_field(FieldValue::Tags(x.unknown_tagged_fields@)),
{
    let vs0 = Seq::<FieldValue>::empty();
    assert(encode_record(vs0) =~= Seq::<u8>::empty());
    crate::wire::lemma_encode_record_push(vs0, FieldValue::Str(x.topic@));
    let vs1 = vs0.push(FieldValue::Str(x.topic@));
    crate::wire::lemma_encode_record_push(vs1, FieldValue::Int32(x.partition));
    let vs2 = vs1.push(FieldValue::Int32(x.partition));
    crate::wire::lemma_encode_record_push(vs2, FieldValue::Tags(x.unknown_tagged_fields@));
    let vs3 = vs2.push(FieldValue::Tags(x.unknown_tagged_fields@));
    assert(vs3 =~= x.fields());
    assert(Seq::<u8>::empty() + crate::wire::encode_field(FieldValue::Str(x.topic@)) =~= crate::wire::encode_field(FieldValue::Str(x.topic@)));
}

} // verus!
