//! The parts of a Kafka JSON message schema that the generator's rules read.

use vstd::prelude::*;

verus! {

/// An inclusive range of versions. A range whose `max` is below its `min`
/// holds no version, and a range whose `max` is `i16::MAX` is open-ended.
#[derive(Debug, Clone, Copy, PartialEq, Eq, Structural)]
pub struct VersionRange {
    pub min: i16,
    pub max: i16,
}

impl VersionRange {
    /// The range holds no version.
    pub fn is_empty(&self) -> (r: bool)
        ensures
            r == (self.max < self.min),
    {
        self.max < self.min
    }
}

/// The versions in which a message uses the flexible framing of KIP-482.
#[derive(Debug, Clone, Copy, PartialEq, Eq, Structural)]
pub enum FlexibleVersions {
    /// No version is flexible.
    Never,
    /// The versions of the range are flexible.
    Range(VersionRange),
}

/// The kind of a schema file.
#[derive(Debug, Clone, Copy, PartialEq, Eq, Structural)]
pub enum MessageType {
    Request,
    Response,
    Header,
    Data,
}

/// A field's `default` as the schema writes it.
#[derive(Debug)]
pub enum SchemaDefault {
    /// A JSON string.
    Text(String),
    /// A JSON number, in the text that the JSON value prints.
    Number(String),
    /// A JSON boolean.
    Bool(bool),
    /// JSON `null`.
    Null,
    /// A JSON array or object.
    Other,
}

/// One field of a message or a struct.
#[derive(Debug)]
pub struct FieldSpec {
    /// The field's name in the schema.
    pub name: String,
    /// The schema type: a primitive, a struct name, or either behind `[]`.
    pub field_type: String,
    /// The versions in which the field exists.
    pub versions: VersionRange,
    /// The versions in which a tagged field is tagged, when the schema says.
    pub tagged_versions: Option<VersionRange>,
    /// The KIP-482 tag of a tagged field.
    pub tag: Option<i32>,
    /// The schema default, when the schema gives one.
    pub default: Option<SchemaDefault>,
    /// The schema gives the field nullable versions.
    pub nullable: bool,
    /// The field's name in the generated Rust struct.
    pub rust_name: String,
    /// The Rust path of the struct that a struct-typed field holds, as the
    /// resolution of the message's struct names gives it.
    pub struct_path: Option<String>,
    /// The field's name in the JSON form that Kafka's JSON converter reads.
    pub json_name: String,
    /// The JSON expression, as Rust source, of the field's default value in
    /// that JSON form.
    pub json_default: String,
    /// The fields of an inline struct.
    pub fields: Vec<FieldSpec>,
}

/// A struct that several fields of a message share.
#[derive(Debug)]
pub struct StructSpec {
    pub name: String,
    pub fields: Vec<FieldSpec>,
}

/// One schema file.
#[derive(Debug)]
pub struct MessageSpec {
    pub name: String,
    /// The name of the generated Rust type of the message.
    pub rust_type: String,
    pub message_type: MessageType,
    pub api_key: Option<i16>,
    pub valid_versions: VersionRange,
    pub flexible_versions: FlexibleVersions,
    /// The highest valid version of a request is still in development.
    pub latest_version_unstable: bool,
    pub fields: Vec<FieldSpec>,
    pub common_structs: Vec<StructSpec>,
}

} // verus!
