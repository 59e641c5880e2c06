//! Hybrid logical clock stamps that ride on Kafka record headers.
//!
//! A hybrid logical clock (HLC) gives every event in the cluster one timestamp
//! that is close to real time and that still respects cause and effect. The
//! stamp holds a wall time, a logical counter, and the node that minted it, so
//! it sorts totally and every node computes the same order. Kulkarni et al.,
//! *Logical Physical Clocks and Consistent Snapshots in Globally Distributed
//! Databases* (OPODIS 2014), define the algorithm.
//!
//! # Carriage
//!
//! A stamp travels on one Kafka record header, [`HLC_HEADER`]. A producer
//! calls [`HlcClock::now`] and attaches [`Hlc::header`]. A consumer calls
//! [`extract_from_headers`] and feeds the result to [`HlcClock::observe`].
//!
//! Four rules govern that boundary:
//!
//! 1. The library never stores a peer's bytes. It parses them into an
//!    [`Hlc`], and it renders the header again from the parsed value.
//! 2. A failure to read a stamp is silent at the carrier layer.
//!    [`extract_from_headers`] gives `None` for an absent, short, or invalid
//!    value, because a consumer that cannot read the stamp must still be able
//!    to apply the record. [`Hlc::decode`] returns a [`Result`] for a caller
//!    that wants the reason.
//! 3. A record with no stamp carries no header, so it costs zero bytes.
//! 4. No [`HlcError`] variant holds input bytes, so hostile input cannot reach
//!    a log line.
//!
//! # Byte layout
//!
//! The header value is 16 bytes, big-endian and fixed-width: 8 bytes of wall
//! time as an `i64`, 4 bytes of counter as a `u32`, and 4 bytes of node id as
//! a `u32`. There is no varint framing.
//!
//! # Self-fence
//!
//! [`HlcClock`] refuses a stamp whose wall time is more than its configured
//! maximum offset ahead of the local physical clock, and it holds
//! [`DEFAULT_MAX_OFFSET`] by default. A stamp behind the local clock is always
//! safe, and the clock always accepts it.

pub mod clock;
pub mod error;
pub mod headers;
pub mod stamp;

pub use self::{
    clock::{
        ClockObservation, ClockState, HlcClock, ManualClock, PhysicalClock, SystemClock,
        DEFAULT_MAX_OFFSET,
    },
    error::HlcError,
    headers::{extract_from_headers, HLC_HEADER},
    stamp::{Hlc, WallMicros, HLC_ENCODED_LEN},
};
