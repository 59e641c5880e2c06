//! The messages of the metadata error.

use krabka::metadata::break_glass::{BreakGlassAction, BreakGlassApproval, BreakGlassProposalRecord};
use krabka::metadata::error::MetadataError;
use krabka::metadata::write_freeze::{PatternType, TopicFreezeRecord};
use krabka::primitives::Uuid;

/// The UUID of the 128-bit value `v`, most significant byte first.
fn uuid_from_u128(v: u128) -> Uuid {
    Uuid(v.to_be_bytes())
}

#[test]
fn display_topic_exists() {
    let e = MetadataError::TopicExists("my-topic".into());
    assert!(e.to_string() == "topic 'my-topic' already exists");
}

#[test]
fn display_invalid_partition() {
    let e = MetadataError::InvalidPartition { topic: "t".into(), partition: 7 };
    assert!(e.to_string().contains("partition 7"));
}

#[test]
fn display_freeze_and_break_glass_rejections() {
    let id = uuid_from_u128(0xB1);
    let text = "00000000-0000-0000-0000-0000000000b1";
    for (label, error, want) in [
        ("empty freeze scope", MetadataError::EmptyFreezeScope, "topic freeze scope is empty".to_string()),
        (
            "approvals that do not extend",
            MetadataError::BreakGlassApprovalsNotAnExtension(id),
            format!("break-glass proposal {text} does not extend the stored approvals"),
        ),
        (
            "consumed proposal",
            MetadataError::BreakGlassProposalConsumed(id),
            format!("break-glass proposal {text} is already consumed"),
        ),
        (
            "withdrawn proposal",
            MetadataError::BreakGlassProposalWithdrawn(id),
            format!("break-glass proposal {text} is withdrawn"),
        ),
    ] {
        assert!(error.to_string() == want, "{label}");
    }
}

#[test]
fn every_metadata_message_names_its_subject() {
    assert_eq!(MetadataError::UnknownTopic("x".into()).to_string(), "unknown topic 'x'");
    assert_eq!(
        MetadataError::InvalidPartition { topic: "t".into(), partition: -3 }.to_string(),
        "invalid partition -3 on topic 't'"
    );
    assert_eq!(MetadataError::InvalidRecord("no scope").to_string(), "invalid record: no scope");
    assert_eq!(
        MetadataError::BreakGlassProposalConsumed(Uuid([
            0x12, 0x34, 0x56, 0x78, 0x9a, 0xbc, 0xde, 0xf0, 0x0f, 0xed, 0xcb, 0xa9, 0x87, 0x65,
            0x43, 0x21
        ]))
        .to_string(),
        "break-glass proposal 12345678-9abc-def0-0fed-cba987654321 is already consumed"
    );
}

#[test]
fn records_hold_their_fields() {
    let approval = BreakGlassApproval {
        principal: "User:bob".into(),
        approved_at_ms: 1,
        key_id: String::new(),
        signature: Vec::new(),
    };
    let record = BreakGlassProposalRecord {
        proposal_id: Uuid::zero(),
        action: BreakGlassAction::DeleteTopic,
        target: "doomed".into(),
        proposer: "User:alice".into(),
        reason: "test data".into(),
        created_at_ms: 0,
        expires_at_ms: 10,
        approvals: vec![approval.clone()],
        consumed_at_ms: 0,
        withdrawn: false,
    };
    assert_eq!(record.approvals, vec![approval]);
    let freeze = TopicFreezeRecord {
        scope: "orders".into(),
        pattern_type: PatternType::Literal,
        frozen: true,
        reason: "DR".into(),
        set_by: "User:alice".into(),
        set_at_ms: 5,
        proposal_id: Uuid::zero(),
        key_id: String::new(),
        signature: Vec::new(),
    };
    assert_eq!(freeze.clone(), freeze);
}
