//! Krabka-private wire messages that Apache Kafka does not define.
//!
//! Apache Kafka assigns api keys from 0 upward. Krabka puts its own control-plane
//! APIs at 1000 and above, so a later Kafka assignment cannot collide with them.
//!
//! Every message here is version 0 only and flexible from version 0, so each one
//! writes compact strings, compact arrays, and a tagged-fields trailer.

pub mod barrier;
pub mod break_glass;
pub mod common;
pub mod freeze;
