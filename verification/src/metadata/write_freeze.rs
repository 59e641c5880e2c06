//! Topic write-freeze registry entries.
//!
//! A freeze is a cluster state in which a topic stays readable and stays
//! replicated, but the broker refuses every append that puts new
//! externally-authored data into its log.

use vstd::prelude::*;

use crate::primitives::Uuid;

verus! {

/// The pattern types of Kafka's ACL vocabulary, which a freeze scope shares.
#[derive(Debug, Clone, Copy, PartialEq, Eq, Structural)]
pub enum PatternType {
    Unknown,
    Any,
    Match,
    /// A scope that names one whole topic.
    Literal,
    /// A scope that is a topic-name prefix.
    Prefixed,
}

/// One entry in the write-freeze registry.
///
/// The entry is authoritative for its `(pattern_type, scope)` key: a later
/// record with the same key replaces the earlier one. `frozen` is the removal
/// sentinel, so a thaw stays attributed in the raft log rather than vanishing
/// as a tombstone.
#[derive(Debug, Clone, PartialEq, Eq)]
pub struct TopicFreezeRecord {
    /// A literal topic name, or a topic-name prefix, as `pattern_type`
    /// selects.
    pub scope: String,
    /// [`PatternType::Literal`] names one topic and [`PatternType::Prefixed`]
    /// names a namespace.
    pub pattern_type: PatternType,
    /// `true` adds or replaces the entry. `false` removes it, and is the
    /// thaw.
    pub frozen: bool,
    /// Free text that says why the freeze exists.
    pub reason: String,
    /// The principal that set the entry, in `KafkaPrincipal` string form.
    pub set_by: String,
    /// Epoch milliseconds at which the operator built the record. It is part
    /// of the signed bytes, so an old signed thaw cannot be replayed.
    pub set_at_ms: i64,
    /// The break-glass approval that authorized a thaw. It is nil on a
    /// freeze, because a freeze needs no approval.
    pub proposal_id: Uuid,
    /// The operator key that signed the record. It is empty when the record
    /// is unsigned.
    pub key_id: String,
    /// Detached Ed25519 signature over the canonical bytes of the record. It
    /// is empty when the record is unsigned.
    pub signature: Vec<u8>,
}

} // verus!
