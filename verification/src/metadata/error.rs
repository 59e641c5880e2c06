//! The error of the metadata layer.

use vstd::prelude::*;
use vstd::string::StringExecFns;

use crate::primitives::Uuid;
use crate::text::{push_signed_decimal, push_uuid, signed_decimal, uuid_text};

verus! {

/// Why the metadata layer refused a change.
#[derive(Debug, Clone, PartialEq, Eq)]
#[non_exhaustive]
pub enum MetadataError {
    TopicExists(String),
    UnknownTopic(String),
    InvalidPartition { topic: String, partition: i32 },
    InvalidRecord(&'static str),
    /// A topic-freeze record carried an empty scope. A literal scope names one
    /// topic and a prefix scope names a namespace, so neither can be empty.
    /// An empty prefix would cover every topic in the cluster.
    EmptyFreezeScope,
    /// A break-glass proposal record replaced, reordered, or dropped an
    /// approval already stored for the proposal. Two approvers who read the
    /// same image each submit the list they read plus their own entry, so
    /// only an append keeps both.
    BreakGlassApprovalsNotAnExtension(Uuid),
    /// A break-glass proposal record changed a proposal whose approval is
    /// already spent. One approval authorizes one transition.
    BreakGlassProposalConsumed(Uuid),
    /// A break-glass proposal record changed a proposal that the proposer
    /// withdrew.
    BreakGlassProposalWithdrawn(Uuid),
}

/// The message that names the cause of `e`.
pub open spec fn metadata_error_message(e: MetadataError) -> Seq<char> {
    match e {
        MetadataError::TopicExists(t) => "topic '"@ + t@ + "' already exists"@,
        MetadataError::UnknownTopic(t) => "unknown topic '"@ + t@ + "'"@,
        MetadataError::InvalidPartition { topic, partition } => "invalid partition "@
            + signed_decimal(partition as int) + " on topic '"@ + topic@ + "'"@,
        MetadataError::InvalidRecord(why) => "invalid record: "@ + why@,
        MetadataError::EmptyFreezeScope => "topic freeze scope is empty"@,
        MetadataError::BreakGlassApprovalsNotAnExtension(id) => "break-glass proposal "@
            + uuid_text(id@) + " does not extend the stored approvals"@,
        MetadataError::BreakGlassProposalConsumed(id) => "break-glass proposal "@ + uuid_text(
            id@,
        ) + " is already consumed"@,
        MetadataError::BreakGlassProposalWithdrawn(id) => "break-glass proposal "@ + uuid_text(
            id@,
        ) + " is withdrawn"@,
    }
}

impl MetadataError {
    /// The message that names the cause.
    pub fn to_string(&self) -> (s: String)
        ensures
            s@ == metadata_error_message(*self),
    {
        let mut s = String::new();
        match self {
            MetadataError::TopicExists(t) => {
                s.append("topic '");
                s.append(t.as_str());
                s.append("' already exists");
            },
            MetadataError::UnknownTopic(t) => {
                s.append("unknown topic '");
                s.append(t.as_str());
                s.append("'");
            },
            MetadataError::InvalidPartition { topic, partition } => {
                s.append("invalid partition ");
                push_signed_decimal(&mut s, *partition as i64);
                s.append(" on topic '");
                s.append(topic.as_str());
                s.append("'");
            },
            MetadataError::InvalidRecord(why) => {
                s.append("invalid record: ");
                s.append(why);
            },
            MetadataError::EmptyFreezeScope => {
                s.append("topic freeze scope is empty");
            },
            MetadataError::BreakGlassApprovalsNotAnExtension(id) => {
                s.append("break-glass proposal ");
                push_uuid(&mut s, &id.0);
                s.append(" does not extend the stored approvals");
            },
            MetadataError::BreakGlassProposalConsumed(id) => {
                s.append("break-glass proposal ");
                push_uuid(&mut s, &id.0);
                s.append(" is already consumed");
            },
            MetadataError::BreakGlassProposalWithdrawn(id) => {
                s.append("break-glass proposal ");
                push_uuid(&mut s, &id.0);
                s.append(" is withdrawn");
            },
        }
        assert(s@ =~= metadata_error_message(*self));
        s
    }
}

} // verus!
