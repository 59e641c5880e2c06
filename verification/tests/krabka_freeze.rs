//! Round trips, defaults and version checks of the write-freeze messages.

use std::fmt::Debug;

use krabka::error::ProtocolError;
use krabka::krabka::common::Wire;
use krabka::krabka::freeze::describe_topic_freezes::{
    self, DescribeTopicFreezesRequest, DescribeTopicFreezesResponse, DescribedTopicFreeze,
};
use krabka::krabka::freeze::set_topic_freeze::{
    self, SetTopicFreezeRequest, SetTopicFreezeResponse,
};
use krabka::krabka::freeze::{PATTERN_TYPE_ANY, PATTERN_TYPE_LITERAL, PATTERN_TYPE_PREFIXED};
use krabka::primitives::Uuid;
use krabka::tagged_fields::{UnknownTaggedField, UnknownTaggedFields};

fn roundtrip<T: Wire + PartialEq + Debug>(message: &T, version: i16) {
    roundtrip_case("", message, version);
}

fn roundtrip_case<T: Wire + PartialEq + Debug>(label: &str, message: &T, version: i16) {
    let mut buf = Vec::new();
    message.encode(&mut buf, version).unwrap();
    assert_eq!(message.encoded_len(version), buf.len(), "{label}");
    let (decoded, end) = T::decode(&buf, 0, version).unwrap();
    assert_eq!(end, buf.len(), "{label}");
    assert_eq!(&decoded, message, "{label}");
    let mut reencoded = Vec::new();
    decoded.encode(&mut reencoded, version).unwrap();
    assert_eq!(reencoded, buf, "{label}");
}

fn reject_truncated<T: Wire + Debug>(message: &T, version: i16) {
    let mut buf = Vec::new();
    message.encode(&mut buf, version).unwrap();
    for end in 0..buf.len() {
        assert!(T::decode(&buf[..end], 0, version).is_err());
    }
}

fn unsupported_versions(min: i16, max: i16) -> Vec<i16> {
    vec![min - 1, max + 1]
}

fn sample_tagged_fields() -> UnknownTaggedFields {
    UnknownTaggedFields(vec![
        UnknownTaggedField { tag: 7, bytes: vec![1, 2, 3] },
        UnknownTaggedField { tag: 11, bytes: vec![4] },
    ])
}

fn set_request_populated() -> SetTopicFreezeRequest {
    SetTopicFreezeRequest {
        scope: "orders".to_string(),
        pattern_type: PATTERN_TYPE_LITERAL,
        frozen: true,
        reason: "DR cutover".to_string(),
        proposal_id: Uuid::zero(),
        set_at_ms: 1_770_000_000_000,
        key_id: "alice-yubi".to_string(),
        signature: (0..64).collect(),
        unknown_tagged_fields: sample_tagged_fields(),
    }
}

fn set_response_populated() -> SetTopicFreezeResponse {
    SetTopicFreezeResponse {
        throttle_time_ms: 21,
        error_code: 1011,
        error_message: Some("freeze scope names an internal topic".to_string()),
        unknown_tagged_fields: sample_tagged_fields(),
    }
}

#[test]
fn set_topic_freeze_requests_roundtrip() {
    let cases = [
        ("default", SetTopicFreezeRequest::default()),
        ("signed literal freeze", set_request_populated()),
        (
            "unsigned prefixed freeze",
            SetTopicFreezeRequest {
                scope: "tenant-a.".to_string(),
                pattern_type: PATTERN_TYPE_PREFIXED,
                reason: "tenant offboarding".to_string(),
                ..SetTopicFreezeRequest::default()
            },
        ),
        (
            "signed thaw naming a proposal",
            SetTopicFreezeRequest {
                frozen: false,
                proposal_id: Uuid([0, 1, 2, 3, 4, 5, 6, 7, 8, 9, 10, 11, 12, 13, 14, 15]),
                ..set_request_populated()
            },
        ),
    ];
    for (label, request) in &cases {
        for version in set_topic_freeze::MIN_VERSION..=set_topic_freeze::MAX_VERSION {
            roundtrip_case(label, request, version);
        }
    }
}

#[test]
fn set_topic_freeze_responses_roundtrip() {
    let cases = [
        ("default", SetTopicFreezeResponse::default()),
        ("refusal with a message", set_response_populated()),
        (
            "accepted with no message",
            SetTopicFreezeResponse {
                throttle_time_ms: 7,
                error_code: 0,
                error_message: None,
                unknown_tagged_fields: UnknownTaggedFields::default(),
            },
        ),
    ];
    for (label, response) in &cases {
        for version in set_topic_freeze::MIN_VERSION..=set_topic_freeze::MAX_VERSION {
            roundtrip_case(label, response, version);
        }
    }
}

#[test]
fn default_is_an_unsigned_literal_freeze() {
    assert!(
        SetTopicFreezeRequest::default()
            == SetTopicFreezeRequest {
                scope: String::new(),
                pattern_type: PATTERN_TYPE_LITERAL,
                frozen: true,
                reason: String::new(),
                proposal_id: Uuid::zero(),
                set_at_ms: 0,
                key_id: String::new(),
                signature: Vec::new(),
                unknown_tagged_fields: UnknownTaggedFields::default(),
            }
    );
}

#[test]
fn pattern_types_match_the_kafka_acl_values() {
    assert!((PATTERN_TYPE_ANY, PATTERN_TYPE_LITERAL, PATTERN_TYPE_PREFIXED) == (1, 3, 4));
}

#[test]
fn set_topic_freeze_truncated_input_is_rejected() {
    reject_truncated(&set_request_populated(), set_topic_freeze::MIN_VERSION);
    reject_truncated(&set_response_populated(), set_topic_freeze::MIN_VERSION);
}

#[test]
fn signature_survives_a_roundtrip() {
    let request = set_request_populated();
    assert!(request.signature.len() == 64);
    roundtrip(&request, set_topic_freeze::MIN_VERSION);
}

#[test]
fn set_topic_freeze_rejects_unsupported_versions() {
    for version in
        unsupported_versions(set_topic_freeze::MIN_VERSION, set_topic_freeze::MAX_VERSION)
    {
        let request = set_request_populated();
        assert!(matches!(
            request.encode(&mut Vec::<u8>::new(), version),
            Err(ProtocolError::UnsupportedVersion { api_key: set_topic_freeze::API_KEY, .. })
        ));
        let response = set_response_populated();
        assert!(matches!(
            response.encode(&mut Vec::<u8>::new(), version),
            Err(ProtocolError::UnsupportedVersion { api_key: set_topic_freeze::API_KEY, .. })
        ));
    }
}

fn describe_request_populated() -> DescribeTopicFreezesRequest {
    DescribeTopicFreezesRequest {
        scope_filter: Some("tenant-a.".to_string()),
        pattern_type_filter: PATTERN_TYPE_PREFIXED,
        unknown_tagged_fields: sample_tagged_fields(),
    }
}

fn describe_response_populated() -> DescribeTopicFreezesResponse {
    DescribeTopicFreezesResponse {
        throttle_time_ms: 3,
        error_code: 0,
        error_message: None,
        freezes: vec![
            DescribedTopicFreeze {
                scope: "orders".to_string(),
                pattern_type: PATTERN_TYPE_LITERAL,
                reason: "DR cutover".to_string(),
                set_by: "User:alice".to_string(),
                set_at_ms: 1_770_000_000_000,
                proposal_id: Uuid::zero(),
                key_id: "alice-yubi".to_string(),
                signature: (0..64).collect(),
                unknown_tagged_fields: sample_tagged_fields(),
            },
            DescribedTopicFreeze {
                scope: "tenant-a.".to_string(),
                pattern_type: PATTERN_TYPE_PREFIXED,
                reason: "tenant offboarding".to_string(),
                set_by: "User:bob".to_string(),
                set_at_ms: 1_770_000_100_000,
                ..DescribedTopicFreeze::default()
            },
        ],
        unknown_tagged_fields: sample_tagged_fields(),
    }
}

#[test]
fn describe_topic_freezes_requests_roundtrip() {
    let cases = [
        ("default asks for every entry", DescribeTopicFreezesRequest::default()),
        ("prefixed scope filter", describe_request_populated()),
        (
            "literal scope filter",
            DescribeTopicFreezesRequest {
                scope_filter: Some("orders".to_string()),
                pattern_type_filter: PATTERN_TYPE_LITERAL,
                unknown_tagged_fields: UnknownTaggedFields::default(),
            },
        ),
        (
            "unknown pattern type reads every entry",
            DescribeTopicFreezesRequest {
                scope_filter: None,
                pattern_type_filter: 0,
                unknown_tagged_fields: UnknownTaggedFields::default(),
            },
        ),
    ];
    for (label, request) in &cases {
        for version in describe_topic_freezes::MIN_VERSION..=describe_topic_freezes::MAX_VERSION {
            roundtrip_case(label, request, version);
        }
    }
}

#[test]
fn describe_topic_freezes_responses_roundtrip() {
    let cases = [
        ("default", DescribeTopicFreezesResponse::default()),
        ("signed and unsigned entries", describe_response_populated()),
        (
            "refusal with no entries",
            DescribeTopicFreezesResponse {
                throttle_time_ms: 11,
                error_code: 31,
                error_message: Some("cluster authorization failed".to_string()),
                freezes: Vec::new(),
                unknown_tagged_fields: UnknownTaggedFields::default(),
            },
        ),
    ];
    for (label, response) in &cases {
        for version in describe_topic_freezes::MIN_VERSION..=describe_topic_freezes::MAX_VERSION {
            roundtrip_case(label, response, version);
        }
    }
}

#[test]
fn no_filter_is_the_request_default() {
    assert!(
        DescribeTopicFreezesRequest::default()
            == DescribeTopicFreezesRequest {
                scope_filter: None,
                pattern_type_filter: PATTERN_TYPE_ANY,
                unknown_tagged_fields: UnknownTaggedFields::default(),
            }
    );
}

#[test]
fn an_unsigned_entry_carries_an_empty_signature() {
    let response = describe_response_populated();
    let unsigned = &response.freezes[1];
    assert!(unsigned.key_id.is_empty());
    assert!(unsigned.signature.is_empty());
    assert!(unsigned.pattern_type == PATTERN_TYPE_PREFIXED);
}

#[test]
fn describe_topic_freezes_truncated_input_is_rejected() {
    reject_truncated(&describe_request_populated(), describe_topic_freezes::MIN_VERSION);
    reject_truncated(&describe_response_populated(), describe_topic_freezes::MIN_VERSION);
}

#[test]
fn describe_topic_freezes_rejects_unsupported_versions() {
    for version in unsupported_versions(
        describe_topic_freezes::MIN_VERSION,
        describe_topic_freezes::MAX_VERSION,
    ) {
        let request = describe_request_populated();
        assert!(matches!(
            request.encode(&mut Vec::<u8>::new(), version),
            Err(ProtocolError::UnsupportedVersion {
                api_key: describe_topic_freezes::API_KEY,
                ..
            })
        ));
        let response = describe_response_populated();
        assert!(matches!(
            response.encode(&mut Vec::<u8>::new(), version),
            Err(ProtocolError::UnsupportedVersion {
                api_key: describe_topic_freezes::API_KEY,
                ..
            })
        ));
    }
}

#[test]
fn a_freeze_request_writes_a_null_filter_as_a_zero_length() {
    let mut buf = Vec::new();
    DescribeTopicFreezesRequest::default().encode(&mut buf, 0).unwrap();
    assert_eq!(buf, vec![0, 1, 0]);
    let filtered = DescribeTopicFreezesRequest {
        scope_filter: Some("ab".to_string()),
        pattern_type_filter: PATTERN_TYPE_LITERAL,
        unknown_tagged_fields: UnknownTaggedFields::default(),
    };
    let mut buf = Vec::new();
    filtered.encode(&mut buf, 0).unwrap();
    assert_eq!(buf, vec![3, b'a', b'b', 3, 0]);
}

#[test]
fn tags_out_of_ascending_order_are_refused_on_decode() {
    // An empty scope filter, the pattern type, then a trailer of two tags
    // whose second tag is below the first.
    let bytes = vec![0u8, 1, 2, 9, 1, 0xaa, 3, 1, 0xbb];
    assert_eq!(
        DescribeTopicFreezesRequest::decode(&bytes, 0, 0),
        Err(ProtocolError::Malformed)
    );
    let in_order = vec![0u8, 1, 2, 3, 1, 0xaa, 9, 1, 0xbb];
    let (request, end) = DescribeTopicFreezesRequest::decode(&in_order, 0, 0).unwrap();
    assert_eq!(end, in_order.len());
    assert_eq!(request.unknown_tagged_fields.0.len(), 2);
}
