//! Verified codecs and state machines for the krabka Kafka wire layer.

pub mod codegen;
pub mod compression;
pub mod error;
pub mod hlc;
pub mod ids;
pub mod krabka;
pub mod metadata;
pub mod primitives;
pub mod text;
pub mod tagged_fields;
pub mod tap;
pub mod wire;
