//! Records of the metadata log that the break-glass and write-freeze
//! workflows replicate, and the error of the metadata layer.
//!
//! The records stay pure data. The approver set, the distinct-principal rule,
//! the produce-path gate and the signature checks belong to the broker.

pub mod break_glass;
pub mod error;
pub mod write_freeze;
