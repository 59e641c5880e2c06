//! Identifiers that the wire carries as plain integers.

use vstd::prelude::*;

verus! {

/// The id of a node in the cluster.
#[derive(Debug, Clone, Copy, Default, PartialEq, Eq, PartialOrd, Ord, Hash, Structural)]
pub struct NodeId(pub u64);

impl NodeId {
    /// The inner `u64`.
    pub fn get(self) -> (r: u64)
        ensures
            r == self.0,
    {
        self.0
    }
}

/// The api key of a Kafka request: which request type it is.
#[derive(Debug, Clone, Copy, Default, PartialEq, Eq, PartialOrd, Ord, Hash, Structural)]
pub struct ApiKey(pub i16);

/// The version of a Kafka request type.
#[derive(Debug, Clone, Copy, Default, PartialEq, Eq, PartialOrd, Ord, Hash, Structural)]
pub struct ApiVersion(pub i16);

} // verus!
