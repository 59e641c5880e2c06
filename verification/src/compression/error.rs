//! The error that a compression codec returns.

use vstd::prelude::*;

verus! {

/// Why a compression operation failed.
#[derive(Debug, Clone, PartialEq, Eq)]
pub enum CompressionError {
    /// A compression level outside the levels of the codec, with Kafka's
    /// message in `reason`.
    InvalidLevel { codec: &'static str, level: i32, reason: String },
    /// The payload is not valid for the codec, or the codec failed on it.
    InvalidData(String),
    /// The decompressed payload is longer than the caller's limit.
    TooLarge { limit: usize },
}

} // verus!
