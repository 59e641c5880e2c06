//! The error type that every fallible hybrid logical clock operation returns.

use vstd::prelude::*;

use vstd::string::StringExecFns;

use crate::text::{decimal, push_decimal, push_signed_decimal, signed_decimal};

verus! {

/// Why a hybrid logical clock operation failed.
///
/// No variant holds the input bytes that failed. A peer controls the value of
/// the `krabka.hlc` header, and a message that keeps those bytes would put
/// hostile input into the log field that shows the error. The variants carry
/// lengths, counts, and time deltas only.
#[derive(Debug, Clone, Copy, PartialEq, Eq, Structural)]
#[non_exhaustive]
pub enum HlcError {
    /// The header value is not exactly sixteen bytes.
    Length(usize),
    /// The node id is wider than the 4 bytes the layout gives it.
    ///
    /// A node id holds a `u64`, and Kafka carries the same value as a 4-byte
    /// wire field. A node id above `u32::MAX` has no place in the layout, so
    /// the encode fails instead of a silent truncation.
    NodeIdTooLarge(u64),
    /// The peer's wall time is further ahead of the local physical clock than
    /// the configured maximum offset, so the clock refused the stamp.
    PeerTooFarAhead {
        /// How far the peer's wall time is ahead of the local physical clock.
        ahead_micros: i64,
        /// The configured maximum offset.
        max_micros: i64,
    },
    /// The logical counter reached `u32::MAX` inside one microsecond.
    ///
    /// The counter separates events that share a wall-time microsecond. It
    /// never wraps, because a wrap would put a later event before an earlier
    /// one.
    CounterOverflow,
}

/// The message that names the cause of `e`.
pub open spec fn hlc_error_message(e: HlcError) -> Seq<char> {
    match e {
        HlcError::Length(n) => "hlc header value must be 16 bytes, got "@ + decimal(n as nat),
        HlcError::NodeIdTooLarge(n) => "node id "@ + decimal(n as nat)
            + " does not fit the 4-byte node-id field"@,
        HlcError::PeerTooFarAhead { ahead_micros, max_micros } => "peer wall time is "@
            + signed_decimal(ahead_micros as int)
            + " microseconds ahead of the local physical clock, over the "@ + signed_decimal(
            max_micros as int,
        ) + " microsecond maximum offset"@,
        HlcError::CounterOverflow => "hlc counter reached u32::MAX inside one microsecond"@,
    }
}

impl HlcError {
    /// The message that names the cause. It holds no input bytes.
    pub fn to_string(&self) -> (s: String)
        ensures
            s@ == hlc_error_message(*self),
    {
        let mut s = String::new();
        match *self {
            HlcError::Length(n) => {
                s.append("hlc header value must be 16 bytes, got ");
                push_decimal(&mut s, n as u64);
            },
            HlcError::NodeIdTooLarge(n) => {
                s.append("node id ");
                push_decimal(&mut s, n);
                s.append(" does not fit the 4-byte node-id field");
            },
            HlcError::PeerTooFarAhead { ahead_micros, max_micros } => {
                s.append("peer wall time is ");
                push_signed_decimal(&mut s, ahead_micros);
                s.append(" microseconds ahead of the local physical clock, over the ");
                push_signed_decimal(&mut s, max_micros);
                s.append(" microsecond maximum offset");
            },
            HlcError::CounterOverflow => {
                s.append("hlc counter reached u32::MAX inside one microsecond");
            },
        }
        assert(s@ =~= hlc_error_message(*self));
        s
    }
}

} // verus!
