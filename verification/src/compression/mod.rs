//! Kafka wire-protocol compression: the codec ids of a record batch and their
//! level rules, and the LZ4 frame codec.
//!
//! The LZ4 frame format carries independent 64 KiB blocks, as Kafka writes
//! them. `decompress` takes a `max_output` limit from the caller, which guards
//! against decompression bombs.

pub mod codec_type;
pub mod error;
pub mod lz4;

pub use self::{codec_type::CompressionType, error::CompressionError};
