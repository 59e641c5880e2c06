//! The schema rules of the code generator.

use krabka::codegen::ir::{
    FieldSpec, FlexibleVersions, MessageSpec, MessageType, SchemaDefault, StructSpec, VersionRange,
};
use krabka::codegen::out::Written;
use krabka::codegen::tagged_fixture::{
    has_tagged_field, intersect, json_fields, leads_to_tag, range_cond, rust_struct, rust_value,
    scalar, sets,
};
use krabka::codegen::validate::{validate, ValidateError};

fn versions(text: &str) -> VersionRange {
    match text {
        "none" => VersionRange { min: 0, max: -1 },
        "0+" => VersionRange { min: 0, max: i16::MAX },
        "0" => VersionRange { min: 0, max: 0 },
        "0-2" => VersionRange { min: 0, max: 2 },
        "0-6" => VersionRange { min: 0, max: 6 },
        other => panic!("no range {other}"),
    }
}

fn message(message_type: MessageType, valid_versions: &str, unstable: bool) -> MessageSpec {
    MessageSpec {
        name: "TestMessage".to_string(),
        rust_type: "TestMessage".to_string(),
        message_type,
        api_key: Some(22),
        valid_versions: versions(valid_versions),
        flexible_versions: FlexibleVersions::Range(versions("0+")),
        latest_version_unstable: unstable,
        fields: Vec::new(),
        common_structs: Vec::new(),
    }
}

fn unsupported(message: &'static str) -> Result<(), ValidateError> {
    Err(ValidateError::Unsupported { message, context: "TestMessage".to_owned() })
}

fn sample(message_type: MessageType, valid_versions: &str, unstable: bool) -> MessageSpec {
    let suffix = match message_type {
        MessageType::Request => "Request",
        MessageType::Response => "Response",
        MessageType::Header => "Header",
        MessageType::Data => "Data",
    };
    let mut spec = message(message_type, valid_versions, unstable);
    spec.name = format!("Sample{suffix}");
    spec.api_key = Some(1000);
    spec.flexible_versions = FlexibleVersions::Range(VersionRange { min: 2, max: i16::MAX });
    spec.fields = vec![field("TransactionalId", "string")];
    spec
}

fn unsupported_in(message: &'static str, context: &str) -> Result<(), ValidateError> {
    Err(ValidateError::Unsupported { message, context: context.to_owned() })
}

#[test]
fn validator_rules() {
    const NOT_REQUEST: &str = "latestVersionUnstable on a message that is not a request";
    let cases = [
        (MessageType::Request, "0-6", true, Ok(())),
        (MessageType::Request, "0-6", false, Ok(())),
        (MessageType::Request, "0+", false, Ok(())),
        // Kafka accepts a request whose only version is unstable. The API then
        // has no enabled version.
        (MessageType::Request, "0", true, Ok(())),
        (MessageType::Request, "none", false, Ok(())),
        (
            MessageType::Request,
            "none",
            true,
            unsupported_in("latestVersionUnstable with empty validVersions", "SampleRequest"),
        ),
        (
            MessageType::Request,
            "0+",
            true,
            unsupported_in("latestVersionUnstable with open-ended validVersions", "SampleRequest"),
        ),
        (MessageType::Response, "0-6", true, unsupported_in(NOT_REQUEST, "SampleResponse")),
        (MessageType::Header, "0-2", true, unsupported_in(NOT_REQUEST, "SampleHeader")),
        (MessageType::Data, "0", true, unsupported_in(NOT_REQUEST, "SampleData")),
        (MessageType::Response, "0-6", false, Ok(())),
    ];
    for (message_type, valid_versions, unstable, want) in cases {
        let got = validate(&[sample(message_type, valid_versions, unstable)]);
        assert!(
            got == want,
            "type {message_type:?}, validVersions {valid_versions}, unstable {unstable}"
        );
    }
}

fn rust_name(name: &str) -> String {
    let mut out = String::new();
    for (i, c) in name.chars().enumerate() {
        if c.is_uppercase() && i > 0 {
            out.push('_');
        }
        out.extend(c.to_lowercase());
    }
    out
}

fn json_name(name: &str) -> String {
    let mut chars = name.chars();
    match chars.next() {
        Some(first) => first.to_lowercase().chain(chars).collect(),
        None => String::new(),
    }
}

fn field(name: &str, field_type: &str) -> FieldSpec {
    FieldSpec {
        name: name.to_string(),
        field_type: field_type.to_string(),
        versions: versions("0+"),
        tagged_versions: None,
        tag: None,
        default: None,
        nullable: false,
        rust_name: rust_name(name),
        struct_path: None,
        json_name: json_name(name),
        json_default: "::serde_json::json!(0)".to_string(),
        fields: Vec::new(),
    }
}

#[test]
fn a_request_without_an_api_key_is_refused() {
    let mut spec = message(MessageType::Request, "0-6", false);
    spec.api_key = None;
    assert_eq!(validate(&[spec]), unsupported("request/response missing apiKey"));
    let mut data = message(MessageType::Data, "0-6", false);
    data.api_key = None;
    assert_eq!(validate(&[data]), Ok(()));
}

#[test]
fn field_types_are_checked_at_every_depth_with_their_path() {
    let mut spec = message(MessageType::Request, "0-6", false);
    let mut topics = field("Topics", "[]Topic");
    topics.fields = vec![field("Name", "string"), field("Weight", "float32")];
    spec.fields = vec![field("Id", "uuid"), topics];
    assert_eq!(
        validate(&[spec]),
        Err(ValidateError::Unsupported {
            message: "unknown field type",
            context: "TestMessage.Topics.Weight".to_string(),
        })
    );
}

#[test]
fn known_types_and_struct_names_pass() {
    let mut spec = message(MessageType::Response, "0-6", false);
    spec.fields = vec![
        field("A", "bool"),
        field("B", "[]int32"),
        field("C", "[][]string"),
        field("D", "Épée"),
        field("E", "records"),
    ];
    assert_eq!(validate(&[spec]), Ok(()));
    let mut lower = message(MessageType::Response, "0-6", false);
    lower.fields = vec![field("X", "[]thing")];
    assert_eq!(
        validate(&[lower]).unwrap_err().to_string(),
        "unknown field type: in TestMessage.X"
    );
}

#[test]
fn tagged_field_rules() {
    let mut tagged = field("T", "int32");
    tagged.tag = Some(0);
    let mut spec = message(MessageType::Request, "0-6", false);
    spec.flexible_versions = FlexibleVersions::Never;
    spec.fields = vec![tagged];
    assert_eq!(
        validate(&[spec]),
        Err(ValidateError::Unsupported {
            message: "tagged field on non-flexible message",
            context: "TestMessage.T".to_string(),
        })
    );

    let mut closed = field("T", "int32");
    closed.tag = Some(0);
    closed.tagged_versions = Some(versions("0-2"));
    let mut spec = message(MessageType::Request, "0-6", false);
    spec.fields = vec![closed];
    assert_eq!(
        validate(&[spec]),
        Err(ValidateError::Unsupported {
            message: "taggedVersions is not open-ended",
            context: "TestMessage.T".to_string(),
        })
    );

    let mut outside = field("T", "int32");
    outside.tag = Some(0);
    outside.versions = VersionRange { min: 3, max: i16::MAX };
    outside.tagged_versions = Some(versions("0+"));
    let mut spec = message(MessageType::Request, "0-6", false);
    spec.fields = vec![outside];
    assert_eq!(
        validate(&[spec]),
        Err(ValidateError::Unsupported {
            message: "taggedVersions is not a subset of versions",
            context: "TestMessage.T".to_string(),
        })
    );
}

#[test]
fn common_struct_fields_sit_under_the_struct_name() {
    let mut spec = message(MessageType::Request, "0-6", false);
    spec.common_structs =
        vec![StructSpec { name: "Shared".to_string(), fields: vec![field("Bad", "int128")] }];
    assert_eq!(
        validate(&[spec]),
        Err(ValidateError::Unsupported {
            message: "unknown field type",
            context: "TestMessage.Shared.Bad".to_string(),
        })
    );
}

#[test]
fn a_tag_is_found_inline_and_through_a_common_struct() {
    let mut plain = message(MessageType::Request, "0-6", false);
    plain.fields = vec![field("A", "int32")];
    assert!(!has_tagged_field(&plain));

    let mut tagged = field("T", "int32");
    tagged.tag = Some(1);
    let mut inline = message(MessageType::Request, "0-6", false);
    let mut outer = field("Outer", "[]Outer");
    outer.fields = vec![tagged];
    inline.fields = vec![outer];
    assert!(has_tagged_field(&inline));

    let mut tagged = field("T", "int32");
    tagged.tag = Some(1);
    let mut through = message(MessageType::Request, "0-6", false);
    through.fields = vec![field("Ref", "[]Shared")];
    through.common_structs = vec![StructSpec { name: "Shared".to_string(), fields: vec![tagged] }];
    assert!(has_tagged_field(&through));
}

#[test]
fn version_ranges_intersect_and_render_their_checks() {
    let r = intersect(VersionRange { min: 2, max: 9 }, VersionRange { min: 4, max: 12 });
    assert_eq!(r, VersionRange { min: 4, max: 9 });
    let outer = VersionRange { min: 0, max: 12 };
    assert_eq!(range_cond(VersionRange { min: 5, max: 5 }, outer), "version == 5");
    assert_eq!(range_cond(VersionRange { min: 5, max: 12 }, outer), "version >= 5");
    assert_eq!(range_cond(VersionRange { min: 0, max: 7 }, outer), "version <= 7");
    assert_eq!(range_cond(VersionRange { min: 3, max: 7 }, outer), "(3..=7).contains(&version)");
}

#[test]
fn the_ledger_records_each_path_once_and_prunes_only_stale_generated_files() {
    let mut written = Written::default();
    written.record("out/Kept.owned.rs".to_string());
    written.record("out/Kept.owned.rs".to_string());
    assert!(written.contains("out/Kept.owned.rs"));
    assert!(!written.contains("out/Removed.owned.rs"));
    assert!(!written.should_prune("out/Kept.owned.rs", true));
    assert!(written.should_prune("out/Removed.owned.rs", true));
    assert!(!written.should_prune("out/hand_written.rs", false));
}

fn with_default(field_type: &str, default: SchemaDefault) -> FieldSpec {
    let mut f = field("F", field_type);
    f.default = Some(default);
    f
}

#[test]
fn fixture_scalars_differ_from_the_schema_default() {
    let epoch = with_default("int64", SchemaDefault::Text("1".to_string()));
    let s = scalar("int64", &epoch);
    assert_eq!(s.rust, "2i64");
    assert_eq!(s.json, "::serde_json::json!(2)");

    let ready = with_default("bool", SchemaDefault::Text("true".to_string()));
    let s = scalar("bool", &ready);
    assert_eq!(s.rust, "false");
    assert_eq!(s.json, "::serde_json::Value::Bool(false)");

    let cluster = with_default("string", SchemaDefault::Null);
    let s = scalar("string", &cluster);
    assert_eq!(s.rust, "\"x\".to_string()");
    assert_eq!(s.json, "::serde_json::Value::String(\"x\".to_string())");

    let rack = with_default("string", SchemaDefault::Text("x".to_string()));
    assert_eq!(scalar("string", &rack).rust, "\"y\".to_string()");
    let padded = with_default("string", SchemaDefault::Text("  x \n".to_string()));
    assert_eq!(scalar("string", &padded).rust, "\"y\".to_string()");

    let epoch_minus = with_default("int32", SchemaDefault::Text("-1".to_string()));
    assert_eq!(scalar("int32", &epoch_minus).rust, "1i32");
    let number = with_default("int16", SchemaDefault::Number("1".to_string()));
    assert_eq!(scalar("int16", &number).rust, "2i16");
    let flag = with_default("bool", SchemaDefault::Bool(true));
    assert_eq!(scalar("bool", &flag).rust, "false");
    let other = with_default("bool", SchemaDefault::Other);
    assert_eq!(scalar("bool", &other).rust, "true");

    let plain = field("F", "uint16");
    assert_eq!(scalar("uint16", &plain).rust, "1u16");
    assert_eq!(scalar("int8", &plain).rust, "1i8");
    assert_eq!(scalar("uint32", &plain).rust, "1u32");
    assert_eq!(scalar("float64", &plain).rust, "1.5f64");
    assert_eq!(scalar("float64", &plain).json, "::serde_json::json!(1.5)");
    assert_eq!(scalar("bytes", &plain).rust, "::bytes::Bytes::from_static(b\"x\")");
    assert_eq!(
        scalar("bytes", &plain).json,
        "::serde_json::Value::String(\"eA==\".to_string())"
    );
    assert_eq!(scalar("uuid", &plain).rust, "crate::primitives::uuid::Uuid([1u8; 16])");
    assert_eq!(
        scalar("uuid", &plain).json,
        "::serde_json::Value::String(\"AQEBAQEBAQEBAQEBAQEBAQ\".to_string())"
    );
}

#[test]
fn the_fixture_sets_tags_paths_to_tags_and_filled_scalars() {
    let mut tagged = field("T", "int32");
    tagged.tag = Some(0);
    let mut leader = field("Leader", "Leader");
    leader.fields = vec![field("LeaderId", "int32"), tagged];
    let spec = {
        let mut spec = message(MessageType::Response, "0-6", false);
        spec.common_structs =
            vec![StructSpec { name: "Endpoint".to_string(), fields: vec![field("Host", "string")] }];
        spec
    };
    assert!(leads_to_tag(&leader, &spec));
    assert!(sets(&leader, &spec, false));
    let endpoint = field("Endpoints", "[]Endpoint");
    assert!(!leads_to_tag(&endpoint, &spec));
    assert!(!sets(&endpoint, &spec, true));
    let name = field("Name", "string");
    assert!(!sets(&name, &spec, false));
    assert!(sets(&name, &spec, true));
    let mut records = field("Records", "records");
    records.tag = Some(1);
    assert!(!sets(&records, &spec, true));
}

#[test]
fn the_fixture_json_holds_each_field_only_at_its_declared_versions() {
    let mut spec = message(MessageType::Response, "0-6", false);
    spec.valid_versions = VersionRange { min: 0, max: 3 };
    let mut error_code = field("ErrorCode", "int16");
    error_code.versions = VersionRange { min: 1, max: 2 };
    let mut name = field("Name", "string");
    name.json_default = "::serde_json::Value::String(String::new())".to_string();
    let mut leader_id = field("LeaderId", "int32");
    leader_id.versions = VersionRange { min: 2, max: i16::MAX };
    let mut leader_epoch = field("LeaderEpoch", "int32");
    leader_epoch.versions = VersionRange { min: 3, max: i16::MAX };
    leader_epoch.default = Some(SchemaDefault::Text("-1".to_string()));
    let mut leader = field("Leader", "Leader");
    leader.versions = VersionRange { min: 2, max: i16::MAX };
    leader.tagged_versions = Some(VersionRange { min: 2, max: i16::MAX });
    leader.tag = Some(0);
    leader.fields = vec![leader_id, leader_epoch];
    let mut topics = field("Topics", "[]Topic");
    topics.fields = vec![name, leader];
    spec.fields = vec![field("ThrottleTimeMs", "int32"), error_code, topics];

    let got = json_fields(&spec, &spec.fields, false, spec.valid_versions);
    let want = [
        "m.insert(\"throttleTimeMs\".to_string(), ::serde_json::json!(0)); ",
        "if (1..=2).contains(&version) { ",
        "m.insert(\"errorCode\".to_string(), ::serde_json::json!(0)); } ",
        "m.insert(\"topics\".to_string(), ::serde_json::Value::Array(vec![",
        "{ let mut m = ::serde_json::Map::new(); ",
        "m.insert(\"name\".to_string(), ::serde_json::Value::String(String::new())); ",
        "if version >= 2 { m.insert(\"leader\".to_string(), ",
        "{ let mut m = ::serde_json::Map::new(); ",
        "m.insert(\"leaderId\".to_string(), ::serde_json::json!(1)); ",
        "if version == 3 { m.insert(\"leaderEpoch\".to_string(), ::serde_json::json!(1)); } ",
        " ::serde_json::Value::Object(m) }); } ",
        " ::serde_json::Value::Object(m) }])); ",
    ]
    .concat();
    assert_eq!(got, want);

    let mut closed = field("Closed", "int32");
    closed.versions = VersionRange { min: 5, max: 6 };
    let mut tagged_unset = field("Extra", "int32");
    tagged_unset.tag = Some(1);
    tagged_unset.versions = VersionRange { min: 0, max: i16::MAX };
    assert_eq!(json_fields(&spec, &[closed], false, spec.valid_versions), "");
    assert_eq!(
        json_fields(&spec, &[tagged_unset], false, spec.valid_versions),
        "m.insert(\"extra\".to_string(), ::serde_json::json!(1)); "
    );
}

#[test]
fn the_fixture_value_sets_every_tag_and_the_paths_to_it() {
    let mut spec = message(MessageType::Response, "0-6", false);
    spec.name = "SampleResponse".to_string();
    spec.rust_type = "SampleResponse".to_string();
    let mut leader_epoch = field("LeaderEpoch", "int32");
    leader_epoch.default = Some(SchemaDefault::Text("-1".to_string()));
    let mut leader = field("Leader", "Leader");
    leader.tag = Some(0);
    leader.struct_path = Some("Leader".to_string());
    leader.fields = vec![field("LeaderId", "int32"), leader_epoch];
    let mut topics = field("Topics", "[]Topic");
    topics.struct_path = Some("Topic".to_string());
    topics.fields = vec![field("Name", "string"), leader];
    let mut endpoints = field("Endpoints", "[]Endpoint");
    endpoints.tag = Some(1);
    endpoints.struct_path =
        Some("super::common::sample_response::endpoint::Endpoint".to_string());
    let mut rack = field("Rack", "string");
    rack.nullable = true;
    rack.default = Some(SchemaDefault::Text("x".to_string()));
    spec.common_structs =
        vec![StructSpec { name: "Endpoint".to_string(), fields: vec![field("Host", "string"), rack] }];
    let mut epoch = field("Epoch", "int64");
    epoch.tag = Some(2);
    epoch.default = Some(SchemaDefault::Text("1".to_string()));
    let mut cluster_id = field("ClusterId", "string");
    cluster_id.tag = Some(4);
    cluster_id.nullable = true;
    cluster_id.default = Some(SchemaDefault::Null);
    let mut replicas = field("Replicas", "[]int32");
    replicas.tag = Some(8);
    spec.fields = vec![field("ThrottleTimeMs", "int32"), topics, endpoints, epoch, cluster_id, replicas];

    let got = rust_struct(&spec, "SampleResponse", &spec.fields, false);
    let want = [
        "SampleResponse { ",
        "topics: vec![Topic { leader: Leader { leader_id: 1i32, leader_epoch: 1i32, ..Leader::default() }, ..Topic::default() }], ",
        "endpoints: vec![super::common::sample_response::endpoint::Endpoint { host: \"x\".to_string(), rack: Some(\"y\".to_string()), ..super::common::sample_response::endpoint::Endpoint::default() }], ",
        "epoch: 2i64, ",
        "cluster_id: Some(\"x\".to_string()), ",
        "replicas: vec![1i32], ",
        "..SampleResponse::default() }",
    ]
    .concat();
    assert_eq!(got, want);
    assert_eq!(rust_struct(&spec, "Plain", &[field("Name", "string")], false), "Plain::default()");
    assert_eq!(rust_value(&spec, &spec.fields[3]), "2i64");
}

#[test]
fn the_ledger_compares_paths_by_their_components() {
    let mut written = Written::default();
    written.record("out/x.rs".to_string());
    assert!(written.contains("out//x.rs"));
    assert!(written.contains("out/./x.rs"));
    assert!(written.contains("out/x.rs/"));
    assert!(!written.contains("./out/x.rs"));
    assert!(!written.contains("/out/x.rs"));
    assert!(!written.contains("out/y.rs"));
    assert!(!written.contains("out/../x.rs"));
    written.record("out//x.rs".to_string());
    assert!(!written.should_prune("out/./x.rs", true));
    assert!(written.should_prune("out/y.rs", true));
    let mut dot = Written::default();
    dot.record(".".to_string());
    assert!(dot.contains("./"));
    assert!(!dot.contains(""));
}
