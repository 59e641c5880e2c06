//! A Kafka wire tap: a relay that forwards frames byte for byte to a broker
//! and tees each complete frame to a recorder.
//!
//! The library holds the framing and the decisions of the relay. The sockets
//! and threads that carry the bytes stay with the caller.

pub mod frame;
pub mod relay;
