//! Break-glass proposal records.
//!
//! A break-glass workflow needs two different people to agree before the
//! broker does a privileged operation. An approved proposal is a standing
//! authorization for a bounded window, and not a field on the request it
//! authorizes, so no Kafka wire message changes. An operator gets the
//! approval out of band, then runs the ordinary tool, and the broker reads
//! the proposal out of the metadata image.

use vstd::prelude::*;

use crate::primitives::Uuid;

verus! {

/// The privileged transitions that a break-glass proposal can authorize.
///
/// Each one can lose committed data, or can lift the protection that stops
/// another one from losing committed data.
#[derive(Debug, Clone, Copy, PartialEq, Eq, Structural)]
pub enum BreakGlassAction {
    /// Remove a write-freeze registry entry.
    ThawTopicFreeze,
    /// Elect a leader that is not in the ISR.
    UncleanElectLeaders,
    /// Recover a partition whose whole ISR is gone.
    UncleanRecovery,
    /// Drop the registration of a broker.
    UnregisterBroker,
    /// Cancel a partition reassignment that is in flight.
    CancelReassignment,
    /// Delete a topic.
    DeleteTopic,
    /// Delete records below an offset.
    DeleteRecords,
}

/// One approval on a proposal.
///
/// The broker checks that the principal is in the configured approver set,
/// that it is not the proposer, and that it is not already in the list.
#[derive(Debug, Clone, PartialEq, Eq)]
pub struct BreakGlassApproval {
    /// The approver, in `KafkaPrincipal` string form, for example
    /// `"User:bob"`.
    pub principal: String,
    /// Epoch milliseconds at which the approval was made.
    pub approved_at_ms: i64,
    /// The operator key that signed the approval. It is empty when the
    /// approval is unsigned.
    pub key_id: String,
    /// Detached Ed25519 signature over the canonical bytes of the proposal.
    /// It is empty when the approval is unsigned.
    pub signature: Vec<u8>,
}

/// One break-glass proposal, keyed by its `proposal_id`.
///
/// The record is authoritative for that id: a later record with the same id
/// replaces the earlier one, which is how an approval and a consumption are
/// both written.
#[derive(Debug, Clone, PartialEq, Eq)]
pub struct BreakGlassProposalRecord {
    pub proposal_id: Uuid,
    pub action: BreakGlassAction,
    /// What the action applies to. The shape depends on the action: a
    /// `"<pattern>:<scope>"` pair, a `"<topic>-<partition>"` pair, a topic
    /// name, or a broker id.
    pub target: String,
    /// The principal that proposed the action, in `KafkaPrincipal` string
    /// form. It cannot also approve.
    pub proposer: String,
    /// Free text that says why the action is needed. It goes to the audit
    /// log.
    pub reason: String,
    pub created_at_ms: i64,
    /// Epoch milliseconds after which the proposal no longer authorizes
    /// anything. It bounds how long a stale approval stays usable.
    pub expires_at_ms: i64,
    /// The approvals collected so far, in the order they were made. A record
    /// can only append to this list.
    pub approvals: Vec<BreakGlassApproval>,
    /// Epoch milliseconds at which the approval was spent on the transition
    /// it authorized. `0` means unconsumed.
    pub consumed_at_ms: i64,
    /// `true` when the proposer withdrew the proposal. A withdrawn proposal
    /// authorizes nothing.
    pub withdrawn: bool,
}

} // verus!
