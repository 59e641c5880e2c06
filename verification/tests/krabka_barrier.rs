//! Round trips, defaults and version checks of the barrier messages.

use std::fmt::Debug;

use krabka::error::ProtocolError;
use krabka::krabka::barrier::alter_barrier_groups::{
    self, AlterBarrierGroupResult, AlterBarrierGroupsRequest, AlterBarrierGroupsResponse,
    AlterableBarrierGroup,
};
use krabka::krabka::barrier::cut::{
    BarrierCutPartition, BarrierCutTopic, BarrierMissingPartition, CUT_STATUS_COMPLETE,
    CUT_STATUS_PARTIAL,
};
use krabka::krabka::barrier::describe_barrier_groups::{
    self, DescribeBarrierGroupsRequest, DescribeBarrierGroupsResponse, DescribedBarrierGroup,
};
use krabka::krabka::barrier::list_barrier_cuts::{
    self, BarrierCut, ListBarrierCutsRequest, ListBarrierCutsResponse,
};
use krabka::krabka::barrier::trigger_barrier::{
    self, TriggerBarrierRequest, TriggerBarrierResponse,
};
use krabka::krabka::barrier::write_barrier_markers::{
    self, WritableBarrierPartition, WritableBarrierTopic, WriteBarrierMarkersRequest,
    WriteBarrierMarkersResponse, WrittenBarrierPartition, WrittenBarrierTopic,
};
use krabka::krabka::common::Wire;
use krabka::tagged_fields::{UnknownTaggedField, UnknownTaggedFields};

/// Encodes `message`, checks the predicted length, decodes it back, and encodes
/// the decoded value again: the length is exact, the decode takes every byte,
/// gives back an equal value, and the second encode gives the same bytes.
fn roundtrip<T: Wire + PartialEq + Debug>(message: &T, version: i16) {
    let mut buf = Vec::new();
    message.encode(&mut buf, version).unwrap();
    assert_eq!(message.encoded_len(version), buf.len());
    let (decoded, end) = T::decode(&buf, 0, version).unwrap();
    assert_eq!(end, buf.len());
    assert_eq!(&decoded, message);
    let mut reencoded = Vec::new();
    decoded.encode(&mut reencoded, version).unwrap();
    assert_eq!(reencoded, buf);
}

/// Checks that a decode of any short prefix of `message` fails.
fn reject_truncated<T: Wire + Debug>(message: &T, version: i16) {
    let mut buf = Vec::new();
    message.encode(&mut buf, version).unwrap();
    for end in 0..buf.len() {
        assert!(T::decode(&buf[..end], 0, version).is_err());
    }
}

/// Versions that sit outside the range `min..=max`.
fn unsupported_versions(min: i16, max: i16) -> Vec<i16> {
    vec![min - 1, max + 1]
}

/// Two unknown tagged fields, in the ascending tag order that a decode needs.
fn sample_tagged_fields() -> UnknownTaggedFields {
    UnknownTaggedFields(vec![
        UnknownTaggedField { tag: 7, bytes: vec![1, 2, 3] },
        UnknownTaggedField { tag: 11, bytes: vec![4] },
    ])
}

/// A cut over two topics, one of them with two partitions.
fn sample_cut_topics() -> Vec<BarrierCutTopic> {
    vec![
        BarrierCutTopic {
            topic: "orders".to_string(),
            partitions: vec![
                BarrierCutPartition {
                    partition: 0,
                    offset: 1_024,
                    unknown_tagged_fields: UnknownTaggedFields::default(),
                },
                BarrierCutPartition {
                    partition: 1,
                    offset: 2_048,
                    unknown_tagged_fields: sample_tagged_fields(),
                },
            ],
            unknown_tagged_fields: sample_tagged_fields(),
        },
        BarrierCutTopic {
            topic: "payments".to_string(),
            partitions: Vec::new(),
            unknown_tagged_fields: UnknownTaggedFields::default(),
        },
    ]
}

/// One partition that took no marker.
fn sample_missing_partitions() -> Vec<BarrierMissingPartition> {
    vec![BarrierMissingPartition {
        topic: "payments".to_string(),
        partition: 4,
        unknown_tagged_fields: sample_tagged_fields(),
    }]
}

fn alter_request_populated() -> AlterBarrierGroupsRequest {
    AlterBarrierGroupsRequest {
        groups: vec![
            AlterableBarrierGroup {
                group: "orders".to_string(),
                topics: vec!["orders".to_string(), "payments".to_string()],
                interval_ms: 60_000,
                retained_cuts: 32,
                delete: false,
                unknown_tagged_fields: sample_tagged_fields(),
            },
            AlterableBarrierGroup {
                group: "retired".to_string(),
                topics: Vec::new(),
                interval_ms: -1,
                retained_cuts: 0,
                delete: true,
                unknown_tagged_fields: UnknownTaggedFields::default(),
            },
        ],
        unknown_tagged_fields: sample_tagged_fields(),
    }
}

fn alter_response_populated() -> AlterBarrierGroupsResponse {
    AlterBarrierGroupsResponse {
        throttle_time_ms: 17,
        results: vec![
            AlterBarrierGroupResult {
                group: "orders".to_string(),
                error_code: 0,
                error_message: None,
                unknown_tagged_fields: UnknownTaggedFields::default(),
            },
            AlterBarrierGroupResult {
                group: "retired".to_string(),
                error_code: 69,
                error_message: Some("barrier group not found".to_string()),
                unknown_tagged_fields: sample_tagged_fields(),
            },
        ],
        unknown_tagged_fields: UnknownTaggedFields::default(),
    }
}

#[test]
fn alter_barrier_groups_default_roundtrips_all_versions() {
    for version in alter_barrier_groups::MIN_VERSION..=alter_barrier_groups::MAX_VERSION {
        roundtrip(&AlterBarrierGroupsRequest::default(), version);
        roundtrip(&AlterBarrierGroupsResponse::default(), version);
    }
}

#[test]
fn alter_barrier_groups_populated_roundtrips_all_versions() {
    for version in alter_barrier_groups::MIN_VERSION..=alter_barrier_groups::MAX_VERSION {
        roundtrip(&alter_request_populated(), version);
        roundtrip(&alter_response_populated(), version);
    }
}

#[test]
fn interval_of_minus_one_is_the_default() {
    assert!(AlterableBarrierGroup::default().interval_ms == -1);
}

#[test]
fn alter_barrier_groups_rejects_unsupported_versions() {
    for version in unsupported_versions(
        alter_barrier_groups::MIN_VERSION,
        alter_barrier_groups::MAX_VERSION,
    ) {
        let request = alter_request_populated();
        assert!(matches!(
            request.encode(&mut Vec::<u8>::new(), version),
            Err(ProtocolError::UnsupportedVersion { api_key: alter_barrier_groups::API_KEY, .. })
        ));
    }
}

fn describe_request_populated() -> DescribeBarrierGroupsRequest {
    DescribeBarrierGroupsRequest {
        groups: vec!["orders".to_string(), "audit".to_string()],
        unknown_tagged_fields: sample_tagged_fields(),
    }
}

fn describe_response_populated() -> DescribeBarrierGroupsResponse {
    DescribeBarrierGroupsResponse {
        throttle_time_ms: 5,
        groups: vec![
            DescribedBarrierGroup {
                group: "orders".to_string(),
                error_code: 0,
                error_message: None,
                topics: vec!["orders".to_string(), "payments".to_string()],
                interval_ms: 30_000,
                retained_cuts: 64,
                last_epoch: 12,
                coordinator_id: 3,
                unknown_tagged_fields: sample_tagged_fields(),
            },
            DescribedBarrierGroup {
                group: "audit".to_string(),
                error_code: 69,
                error_message: Some("barrier group not found".to_string()),
                ..DescribedBarrierGroup::default()
            },
        ],
        unknown_tagged_fields: UnknownTaggedFields::default(),
    }
}

#[test]
fn describe_barrier_groups_default_roundtrips_all_versions() {
    for version in describe_barrier_groups::MIN_VERSION..=describe_barrier_groups::MAX_VERSION {
        roundtrip(&DescribeBarrierGroupsRequest::default(), version);
        roundtrip(&DescribeBarrierGroupsResponse::default(), version);
    }
}

#[test]
fn describe_barrier_groups_populated_roundtrips_all_versions() {
    for version in describe_barrier_groups::MIN_VERSION..=describe_barrier_groups::MAX_VERSION {
        roundtrip(&describe_request_populated(), version);
        roundtrip(&describe_response_populated(), version);
    }
}

#[test]
fn empty_group_list_asks_for_every_group() {
    let request = DescribeBarrierGroupsRequest::default();
    assert!(request.groups.is_empty());
    roundtrip(&request, describe_barrier_groups::MIN_VERSION);
}

#[test]
fn describe_barrier_groups_rejects_unsupported_versions() {
    for version in unsupported_versions(
        describe_barrier_groups::MIN_VERSION,
        describe_barrier_groups::MAX_VERSION,
    ) {
        let response = describe_response_populated();
        assert!(matches!(
            response.encode(&mut Vec::<u8>::new(), version),
            Err(ProtocolError::UnsupportedVersion {
                api_key: describe_barrier_groups::API_KEY,
                ..
            })
        ));
    }
}

fn list_request_populated() -> ListBarrierCutsRequest {
    ListBarrierCutsRequest {
        group: "orders".to_string(),
        from_epoch: 12,
        max_results: 100,
        unknown_tagged_fields: sample_tagged_fields(),
    }
}

fn list_response_populated() -> ListBarrierCutsResponse {
    ListBarrierCutsResponse {
        throttle_time_ms: 9,
        error_code: 0,
        error_message: None,
        cuts: vec![
            BarrierCut {
                epoch: 12,
                triggered_at: 1_724_500_000_000,
                completed_at: 1_724_500_000_120,
                status: CUT_STATUS_COMPLETE,
                topics: sample_cut_topics(),
                missing: Vec::new(),
                unknown_tagged_fields: UnknownTaggedFields::default(),
            },
            BarrierCut {
                epoch: 13,
                triggered_at: 1_724_500_060_000,
                completed_at: 1_724_500_090_000,
                status: CUT_STATUS_PARTIAL,
                topics: sample_cut_topics(),
                missing: sample_missing_partitions(),
                unknown_tagged_fields: sample_tagged_fields(),
            },
        ],
        unknown_tagged_fields: sample_tagged_fields(),
    }
}

#[test]
fn list_barrier_cuts_default_roundtrips_all_versions() {
    for version in list_barrier_cuts::MIN_VERSION..=list_barrier_cuts::MAX_VERSION {
        roundtrip(&ListBarrierCutsRequest::default(), version);
        roundtrip(&ListBarrierCutsResponse::default(), version);
    }
}

#[test]
fn list_barrier_cuts_populated_roundtrips_all_versions() {
    for version in list_barrier_cuts::MIN_VERSION..=list_barrier_cuts::MAX_VERSION {
        roundtrip(&list_request_populated(), version);
        roundtrip(&list_response_populated(), version);
    }
}

#[test]
fn list_barrier_cuts_truncated_input_is_rejected() {
    reject_truncated(&list_response_populated(), list_barrier_cuts::MIN_VERSION);
}

#[test]
fn list_barrier_cuts_rejects_unsupported_versions() {
    for version in
        unsupported_versions(list_barrier_cuts::MIN_VERSION, list_barrier_cuts::MAX_VERSION)
    {
        let response = list_response_populated();
        assert!(matches!(
            response.encode(&mut Vec::<u8>::new(), version),
            Err(ProtocolError::UnsupportedVersion { api_key: list_barrier_cuts::API_KEY, .. })
        ));
    }
}

fn trigger_request_populated() -> TriggerBarrierRequest {
    TriggerBarrierRequest {
        group: "orders".to_string(),
        timeout_ms: 30_000,
        unknown_tagged_fields: sample_tagged_fields(),
    }
}

fn trigger_response_populated() -> TriggerBarrierResponse {
    TriggerBarrierResponse {
        throttle_time_ms: 3,
        error_code: 0,
        error_message: Some("one partition had no leader".to_string()),
        epoch: 41,
        status: CUT_STATUS_PARTIAL,
        topics: sample_cut_topics(),
        missing: sample_missing_partitions(),
        unknown_tagged_fields: sample_tagged_fields(),
    }
}

#[test]
fn trigger_barrier_default_roundtrips_all_versions() {
    for version in trigger_barrier::MIN_VERSION..=trigger_barrier::MAX_VERSION {
        roundtrip(&TriggerBarrierRequest::default(), version);
        roundtrip(&TriggerBarrierResponse::default(), version);
    }
}

#[test]
fn trigger_barrier_populated_roundtrips_all_versions() {
    for version in trigger_barrier::MIN_VERSION..=trigger_barrier::MAX_VERSION {
        roundtrip(&trigger_request_populated(), version);
        roundtrip(&trigger_response_populated(), version);
    }
}

#[test]
fn complete_cut_carries_no_missing_partitions() {
    let response = TriggerBarrierResponse {
        epoch: 7,
        status: CUT_STATUS_COMPLETE,
        topics: sample_cut_topics(),
        ..TriggerBarrierResponse::default()
    };
    roundtrip(&response, trigger_barrier::MIN_VERSION);
    assert!(response.missing.is_empty());
}

#[test]
fn status_codes_are_distinct() {
    assert!(CUT_STATUS_COMPLETE != CUT_STATUS_PARTIAL);
}

#[test]
fn trigger_barrier_rejects_unsupported_versions() {
    for version in
        unsupported_versions(trigger_barrier::MIN_VERSION, trigger_barrier::MAX_VERSION)
    {
        let request = trigger_request_populated();
        assert!(matches!(
            request.encode(&mut Vec::<u8>::new(), version),
            Err(ProtocolError::UnsupportedVersion { api_key: trigger_barrier::API_KEY, .. })
        ));
    }
}

fn write_request_populated() -> WriteBarrierMarkersRequest {
    WriteBarrierMarkersRequest {
        group: "orders".to_string(),
        epoch: 41,
        triggered_at: 1_724_500_000_000,
        topics: vec![
            WritableBarrierTopic {
                topic: "orders".to_string(),
                partitions: vec![
                    WritableBarrierPartition {
                        partition: 0,
                        expected_leader_epoch: 4,
                        unknown_tagged_fields: UnknownTaggedFields::default(),
                    },
                    WritableBarrierPartition {
                        partition: 3,
                        expected_leader_epoch: -1,
                        unknown_tagged_fields: sample_tagged_fields(),
                    },
                    WritableBarrierPartition {
                        partition: 7,
                        expected_leader_epoch: 17,
                        unknown_tagged_fields: UnknownTaggedFields::default(),
                    },
                ],
                unknown_tagged_fields: sample_tagged_fields(),
            },
            WritableBarrierTopic {
                topic: "payments".to_string(),
                partitions: Vec::new(),
                unknown_tagged_fields: UnknownTaggedFields::default(),
            },
        ],
        unknown_tagged_fields: sample_tagged_fields(),
    }
}

fn write_response_populated() -> WriteBarrierMarkersResponse {
    WriteBarrierMarkersResponse {
        topics: vec![WrittenBarrierTopic {
            topic: "orders".to_string(),
            partitions: vec![
                WrittenBarrierPartition {
                    partition: 0,
                    error_code: 0,
                    offset: 9_412,
                    unknown_tagged_fields: UnknownTaggedFields::default(),
                },
                WrittenBarrierPartition {
                    partition: 3,
                    error_code: 6,
                    offset: -1,
                    unknown_tagged_fields: sample_tagged_fields(),
                },
            ],
            unknown_tagged_fields: UnknownTaggedFields::default(),
        }],
        unknown_tagged_fields: sample_tagged_fields(),
    }
}

#[test]
fn write_barrier_markers_default_roundtrips_all_versions() {
    for version in write_barrier_markers::MIN_VERSION..=write_barrier_markers::MAX_VERSION {
        roundtrip(&WriteBarrierMarkersRequest::default(), version);
        roundtrip(&WriteBarrierMarkersResponse::default(), version);
    }
}

#[test]
fn write_barrier_markers_populated_roundtrips_all_versions() {
    for version in write_barrier_markers::MIN_VERSION..=write_barrier_markers::MAX_VERSION {
        roundtrip(&write_request_populated(), version);
        roundtrip(&write_response_populated(), version);
    }
}

#[test]
fn no_expected_leader_epoch_is_the_partition_default() {
    assert!(
        WritableBarrierPartition::default()
            == WritableBarrierPartition {
                partition: 0,
                expected_leader_epoch: -1,
                unknown_tagged_fields: UnknownTaggedFields::default(),
            }
    );
}

#[test]
fn write_barrier_markers_truncated_input_is_rejected() {
    reject_truncated(&write_request_populated(), write_barrier_markers::MIN_VERSION);
    reject_truncated(&write_response_populated(), write_barrier_markers::MIN_VERSION);
}

#[test]
fn write_barrier_markers_rejects_unsupported_versions() {
    for version in unsupported_versions(
        write_barrier_markers::MIN_VERSION,
        write_barrier_markers::MAX_VERSION,
    ) {
        let request = write_request_populated();
        assert!(matches!(
            request.encode(&mut Vec::<u8>::new(), version),
            Err(ProtocolError::UnsupportedVersion {
                api_key: write_barrier_markers::API_KEY,
                ..
            })
        ));
    }
}

#[test]
fn a_cut_partition_writes_its_fields_in_order() {
    let p = BarrierCutPartition {
        partition: 1,
        offset: 2,
        unknown_tagged_fields: UnknownTaggedFields::default(),
    };
    let mut buf = Vec::new();
    p.encode(&mut buf, 0).unwrap();
    assert_eq!(buf, vec![0, 0, 0, 1, 0, 0, 0, 0, 0, 0, 0, 2, 0]);
}

#[test]
fn every_barrier_message_is_flexible_from_version_zero() {
    assert!(alter_barrier_groups::is_flexible(0));
    assert!(!alter_barrier_groups::is_flexible(-1));
    assert!(describe_barrier_groups::is_flexible(0));
    assert!(list_barrier_cuts::is_flexible(0));
    assert!(trigger_barrier::is_flexible(0));
    assert!(write_barrier_markers::is_flexible(0));
    assert_eq!(
        (
            alter_barrier_groups::API_KEY,
            describe_barrier_groups::API_KEY,
            trigger_barrier::API_KEY,
            list_barrier_cuts::API_KEY,
            write_barrier_markers::API_KEY
        ),
        (1010, 1011, 1012, 1013, 1014)
    );
}

#[test]
fn an_unsupported_version_is_refused_on_decode_too() {
    let mut buf = Vec::new();
    trigger_request_populated().encode(&mut buf, 0).unwrap();
    assert_eq!(
        TriggerBarrierRequest::decode(&buf, 0, 1),
        Err(ProtocolError::UnsupportedVersion { api_key: 1012, version: 1 })
    );
}

#[test]
fn a_decode_after_other_bytes_starts_at_the_given_position() {
    let mut buf = vec![0xaa, 0xbb];
    trigger_request_populated().encode(&mut buf, 0).unwrap();
    let (decoded, end) = TriggerBarrierRequest::decode(&buf, 2, 0).unwrap();
    assert_eq!(decoded, trigger_request_populated());
    assert_eq!(end, buf.len());
}
