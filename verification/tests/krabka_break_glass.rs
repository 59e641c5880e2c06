//! Round trips, defaults and version checks of the break-glass messages.

use std::fmt::Debug;

use krabka::error::ProtocolError;
use krabka::krabka::break_glass::approve::{
    self, ApproveBreakGlassRequest, ApproveBreakGlassResponse,
};
use krabka::krabka::break_glass::describe::{
    self, BreakGlassApproval, DescribeBreakGlassRequest, DescribeBreakGlassResponse,
    DescribedBreakGlassProposal,
};
use krabka::krabka::break_glass::propose::{
    self, ProposeBreakGlassRequest, ProposeBreakGlassResponse,
};
use krabka::krabka::common::Wire;
use krabka::primitives::Uuid;
use krabka::tagged_fields::{UnknownTaggedField, UnknownTaggedFields};

/// [`roundtrip`] for one row of a table-driven test, named by `label`.
fn roundtrip_case<T: Wire + PartialEq + Debug>(label: &str, message: &T, version: i16) {
    let mut buf = Vec::new();
    message.encode(&mut buf, version).unwrap();
    assert_eq!(message.encoded_len(version), buf.len(), "{label}");
    let (decoded, end) = T::decode(&buf, 0, version).unwrap();
    assert_eq!(end, buf.len(), "{label}");
    assert_eq!(&decoded, message, "{label}");
    let mut reencoded = Vec::new();
    decoded.encode(&mut reencoded, version).unwrap();
    assert_eq!(reencoded, buf, "{label}");
}

/// Checks that a decode of any short prefix of `message` fails.
fn reject_truncated<T: Wire + Debug>(message: &T, version: i16) {
    let mut buf = Vec::new();
    message.encode(&mut buf, version).unwrap();
    for end in 0..buf.len() {
        assert!(T::decode(&buf[..end], 0, version).is_err());
    }
}

/// Versions that sit outside the range `min..=max`.
fn unsupported_versions(min: i16, max: i16) -> Vec<i16> {
    vec![min - 1, max + 1]
}

/// Two unknown tagged fields, in the ascending tag order that a decode needs.
fn sample_tagged_fields() -> UnknownTaggedFields {
    UnknownTaggedFields(vec![
        UnknownTaggedField { tag: 7, bytes: vec![1, 2, 3] },
        UnknownTaggedField { tag: 11, bytes: vec![4] },
    ])
}

fn proposal_id() -> Uuid {
    Uuid([200, 201, 202, 203, 204, 205, 206, 207, 208, 209, 210, 211, 212, 213, 214, 215])
}

fn propose_request_populated() -> ProposeBreakGlassRequest {
    ProposeBreakGlassRequest {
        action: 6,
        target: "doomed".to_string(),
        reason: "topic holds test data only".to_string(),
        ttl_ms: 1_800_000,
        unknown_tagged_fields: sample_tagged_fields(),
    }
}

fn propose_response_populated() -> ProposeBreakGlassResponse {
    ProposeBreakGlassResponse {
        throttle_time_ms: 4,
        error_code: 0,
        error_message: None,
        proposal_id: proposal_id(),
        expires_at_ms: 1_770_000_180_000,
        unknown_tagged_fields: sample_tagged_fields(),
    }
}

#[test]
fn propose_requests_roundtrip() {
    let cases = [
        ("default", ProposeBreakGlassRequest::default()),
        ("delete a topic", propose_request_populated()),
        (
            "configured lifetime and no reason",
            ProposeBreakGlassRequest {
                action: 1,
                target: "literal:orders".to_string(),
                reason: String::new(),
                ttl_ms: 0,
                unknown_tagged_fields: UnknownTaggedFields::default(),
            },
        ),
    ];
    for (label, request) in &cases {
        for version in propose::MIN_VERSION..=propose::MAX_VERSION {
            roundtrip_case(label, request, version);
        }
    }
}

#[test]
fn propose_responses_roundtrip() {
    let cases = [
        ("default", ProposeBreakGlassResponse::default()),
        ("accepted proposal", propose_response_populated()),
        (
            "refusal carries no proposal",
            ProposeBreakGlassResponse {
                throttle_time_ms: 0,
                error_code: 1008,
                error_message: Some("principal is not an approver".to_string()),
                proposal_id: Uuid::zero(),
                expires_at_ms: 0,
                unknown_tagged_fields: UnknownTaggedFields::default(),
            },
        ),
    ];
    for (label, response) in &cases {
        for version in propose::MIN_VERSION..=propose::MAX_VERSION {
            roundtrip_case(label, response, version);
        }
    }
}

#[test]
fn a_default_request_asks_for_the_configured_lifetime() {
    assert!(ProposeBreakGlassRequest::default().ttl_ms == 0);
}

#[test]
fn propose_truncated_input_is_rejected() {
    reject_truncated(&propose_request_populated(), propose::MIN_VERSION);
    reject_truncated(&propose_response_populated(), propose::MIN_VERSION);
}

#[test]
fn propose_rejects_unsupported_versions() {
    for version in unsupported_versions(propose::MIN_VERSION, propose::MAX_VERSION) {
        let request = propose_request_populated();
        assert!(matches!(
            request.encode(&mut Vec::<u8>::new(), version),
            Err(ProtocolError::UnsupportedVersion { api_key: propose::API_KEY, .. })
        ));
        let response = propose_response_populated();
        assert!(matches!(
            response.encode(&mut Vec::<u8>::new(), version),
            Err(ProtocolError::UnsupportedVersion { api_key: propose::API_KEY, .. })
        ));
    }
}

fn approve_request_populated() -> ApproveBreakGlassRequest {
    ApproveBreakGlassRequest {
        proposal_id: proposal_id(),
        key_id: "bob-yubi".to_string(),
        signature: (0..64).collect(),
        withdraw: false,
        unknown_tagged_fields: sample_tagged_fields(),
    }
}

fn approve_response_populated() -> ApproveBreakGlassResponse {
    ApproveBreakGlassResponse {
        throttle_time_ms: 9,
        error_code: 1007,
        error_message: Some("principal already approved this proposal".to_string()),
        approvals_held: 1,
        approvals_required: 2,
        unknown_tagged_fields: sample_tagged_fields(),
    }
}

#[test]
fn approve_requests_roundtrip() {
    let cases = [
        ("default", ApproveBreakGlassRequest::default()),
        ("signed approval", approve_request_populated()),
        (
            "unsigned approval",
            ApproveBreakGlassRequest {
                key_id: String::new(),
                signature: Vec::new(),
                unknown_tagged_fields: UnknownTaggedFields::default(),
                ..approve_request_populated()
            },
        ),
        (
            "withdraw",
            ApproveBreakGlassRequest {
                key_id: String::new(),
                signature: Vec::new(),
                withdraw: true,
                ..approve_request_populated()
            },
        ),
    ];
    for (label, request) in &cases {
        for version in approve::MIN_VERSION..=approve::MAX_VERSION {
            roundtrip_case(label, request, version);
        }
    }
}

#[test]
fn approve_responses_roundtrip() {
    let cases = [
        ("default", ApproveBreakGlassResponse::default()),
        ("refusal with a message", approve_response_populated()),
        (
            "second approval reaches the quorum",
            ApproveBreakGlassResponse {
                throttle_time_ms: 0,
                error_code: 0,
                error_message: None,
                approvals_held: 2,
                approvals_required: 2,
                unknown_tagged_fields: UnknownTaggedFields::default(),
            },
        ),
    ];
    for (label, response) in &cases {
        for version in approve::MIN_VERSION..=approve::MAX_VERSION {
            roundtrip_case(label, response, version);
        }
    }
}

#[test]
fn a_default_request_approves_and_does_not_withdraw() {
    assert!(!ApproveBreakGlassRequest::default().withdraw);
}

#[test]
fn approve_truncated_input_is_rejected() {
    reject_truncated(&approve_request_populated(), approve::MIN_VERSION);
    reject_truncated(&approve_response_populated(), approve::MIN_VERSION);
}

#[test]
fn approve_rejects_unsupported_versions() {
    for version in unsupported_versions(approve::MIN_VERSION, approve::MAX_VERSION) {
        let request = approve_request_populated();
        assert!(matches!(
            request.encode(&mut Vec::<u8>::new(), version),
            Err(ProtocolError::UnsupportedVersion { api_key: approve::API_KEY, .. })
        ));
        let response = approve_response_populated();
        assert!(matches!(
            response.encode(&mut Vec::<u8>::new(), version),
            Err(ProtocolError::UnsupportedVersion { api_key: approve::API_KEY, .. })
        ));
    }
}

fn describe_request_populated() -> DescribeBreakGlassRequest {
    DescribeBreakGlassRequest {
        pending_only: true,
        proposal_id: proposal_id(),
        unknown_tagged_fields: sample_tagged_fields(),
    }
}

fn describe_response_populated() -> DescribeBreakGlassResponse {
    DescribeBreakGlassResponse {
        throttle_time_ms: 6,
        error_code: 0,
        error_message: None,
        proposals: vec![
            DescribedBreakGlassProposal {
                proposal_id: proposal_id(),
                action: 6,
                target: "doomed".to_string(),
                proposer: "User:alice".to_string(),
                reason: "topic holds test data only".to_string(),
                created_at_ms: 1_770_000_000_000,
                expires_at_ms: 1_770_000_180_000,
                consumed_at_ms: 0,
                withdrawn: false,
                approvals: vec![
                    BreakGlassApproval {
                        principal: "User:bob".to_string(),
                        approved_at_ms: 1_770_000_060_000,
                        key_id: "bob-yubi".to_string(),
                        signature: (0..64).collect(),
                        unknown_tagged_fields: sample_tagged_fields(),
                    },
                    BreakGlassApproval {
                        principal: "User:carol".to_string(),
                        approved_at_ms: 1_770_000_090_000,
                        ..BreakGlassApproval::default()
                    },
                ],
                unknown_tagged_fields: sample_tagged_fields(),
            },
            DescribedBreakGlassProposal {
                proposal_id: Uuid([1; 16]),
                action: 1,
                target: "literal:orders".to_string(),
                proposer: "User:dave".to_string(),
                reason: "DR cutover finished".to_string(),
                created_at_ms: 1_769_000_000_000,
                expires_at_ms: 1_769_000_180_000,
                consumed_at_ms: 1_769_000_120_000,
                withdrawn: true,
                approvals: Vec::new(),
                unknown_tagged_fields: UnknownTaggedFields::default(),
            },
        ],
        unknown_tagged_fields: sample_tagged_fields(),
    }
}

#[test]
fn describe_requests_roundtrip() {
    let cases = [
        ("default asks for every proposal", DescribeBreakGlassRequest::default()),
        ("one pending proposal", describe_request_populated()),
        (
            "every pending proposal",
            DescribeBreakGlassRequest {
                pending_only: true,
                proposal_id: Uuid::zero(),
                unknown_tagged_fields: UnknownTaggedFields::default(),
            },
        ),
    ];
    for (label, request) in &cases {
        for version in describe::MIN_VERSION..=describe::MAX_VERSION {
            roundtrip_case(label, request, version);
        }
    }
}

#[test]
fn describe_responses_roundtrip() {
    let cases = [
        ("default", DescribeBreakGlassResponse::default()),
        ("two proposals", describe_response_populated()),
        (
            "refusal with no proposals",
            DescribeBreakGlassResponse {
                throttle_time_ms: 2,
                error_code: 31,
                error_message: Some("cluster authorization failed".to_string()),
                proposals: Vec::new(),
                unknown_tagged_fields: UnknownTaggedFields::default(),
            },
        ),
        (
            "proposal with no approvals",
            DescribeBreakGlassResponse {
                proposals: vec![DescribedBreakGlassProposal::default()],
                ..DescribeBreakGlassResponse::default()
            },
        ),
    ];
    for (label, response) in &cases {
        for version in describe::MIN_VERSION..=describe::MAX_VERSION {
            roundtrip_case(label, response, version);
        }
    }
}

#[test]
fn a_nil_proposal_id_asks_for_every_proposal() {
    assert!(
        DescribeBreakGlassRequest::default()
            == DescribeBreakGlassRequest {
                pending_only: false,
                proposal_id: Uuid::zero(),
                unknown_tagged_fields: UnknownTaggedFields::default(),
            }
    );
}

#[test]
fn an_unsigned_approval_carries_an_empty_signature() {
    let response = describe_response_populated();
    let unsigned = &response.proposals[0].approvals[1];
    assert!(unsigned.key_id.is_empty());
    assert!(unsigned.signature.is_empty());
}

#[test]
fn describe_truncated_input_is_rejected() {
    reject_truncated(&describe_request_populated(), describe::MIN_VERSION);
    reject_truncated(&describe_response_populated(), describe::MIN_VERSION);
}

#[test]
fn describe_rejects_unsupported_versions() {
    for version in unsupported_versions(describe::MIN_VERSION, describe::MAX_VERSION) {
        let request = describe_request_populated();
        assert!(matches!(
            request.encode(&mut Vec::<u8>::new(), version),
            Err(ProtocolError::UnsupportedVersion { api_key: describe::API_KEY, .. })
        ));
        let response = describe_response_populated();
        assert!(matches!(
            response.encode(&mut Vec::<u8>::new(), version),
            Err(ProtocolError::UnsupportedVersion { api_key: describe::API_KEY, .. })
        ));
    }
}

#[test]
fn break_glass_api_keys_follow_the_barrier_keys() {
    assert_eq!((propose::API_KEY, approve::API_KEY, describe::API_KEY), (1017, 1018, 1019));
    assert!(propose::is_flexible(0) && approve::is_flexible(0) && describe::is_flexible(0));
}

#[test]
fn a_request_writes_its_uuid_as_sixteen_raw_bytes() {
    let request = DescribeBreakGlassRequest {
        pending_only: true,
        proposal_id: proposal_id(),
        unknown_tagged_fields: UnknownTaggedFields::default(),
    };
    let mut buf = Vec::new();
    request.encode(&mut buf, 0).unwrap();
    let mut want = vec![1u8];
    want.extend_from_slice(&proposal_id().0);
    want.push(0);
    assert_eq!(buf, want);
}
