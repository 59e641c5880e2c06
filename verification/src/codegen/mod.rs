//! The schema rules of the protocol code generator.
//!
//! The generator reads the vendored Apache Kafka JSON message schemas. This
//! module holds the model of a schema that the rules read, the validation of
//! the subset that Krabka supports, the schema walk that finds tagged fields,
//! and the ledger of the files that one generator run wrote.

pub mod ir;
pub mod out;
pub mod tagged_fixture;
pub mod validate;
