//! The error that a protocol codec returns.

use vstd::prelude::*;

verus! {

/// Why an encode or a decode failed.
#[derive(Debug, Clone, Copy, PartialEq, Eq, Structural)]
pub enum ProtocolError {
    /// The message type does not speak `version`.
    UnsupportedVersion { api_key: i16, version: i16 },
    /// The bytes do not hold a message of the expected shape: they end too
    /// early, or a length, a varint, a string or a tag order is invalid.
    Malformed,
}

} // verus!
