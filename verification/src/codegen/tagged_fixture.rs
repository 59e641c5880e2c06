//! The schema walk that finds KIP-482 tagged fields, and the version ranges
//! and checks that the tagged fixtures of the generated code use.

use vstd::prelude::*;
use vstd::string::StringExecFns;

use crate::codegen::ir::{FieldSpec, MessageSpec, SchemaDefault, VersionRange};
use crate::codegen::validate::{
    base_of, base_type, is_array_type, is_struct_name, is_struct_type, starts_with_array_marker,
};
use crate::text::{push_signed_decimal, signed_decimal, str_eq};

verus! {

/// The field carries a KIP-482 tag.
pub open spec fn is_tagged(f: FieldSpec) -> bool {
    f.tag is Some
}

/// The fields of the common struct named `name`, or none.
pub open spec fn common_fields(css: Seq<crate::codegen::ir::StructSpec>, name: Seq<char>) -> Seq<FieldSpec>
    decreases css.len(),
{
    if css.len() == 0 {
        Seq::empty()
    } else if css[0].name@ == name {
        css[0].fields@
    } else {
        common_fields(css.drop_first(), name)
    }
}

/// The fields of a struct-typed field: inline, or from the message's
/// common structs. A primitive field has none.
pub open spec fn struct_fields_of(f: FieldSpec, spec: MessageSpec) -> Seq<FieldSpec> {
    if f.fields@.len() > 0 {
        f.fields@
    } else {
        common_fields(spec.common_structs@, base_of(f.field_type@))
    }
}

/// A tagged field sits among `fs` or below them, looking through at most
/// `hops` common-struct references on the way down.
///
/// A schema whose common structs refer to each other in a cycle has no finite
/// walk, so the walk counts its hops: a schema without such a cycle never
/// needs more hops than it has common structs.
pub open spec fn tag_below(fs: Seq<FieldSpec>, spec: MessageSpec, hops: nat) -> bool
    decreases hops, fs,
{
    exists|i: int|
        0 <= i < fs.len() && (is_tagged(fs[i]) || if fs[i].fields@.len() > 0 {
            tag_below(fs[i].fields@, spec, hops)
        } else if hops > 0 {
            tag_below(
                common_fields(spec.common_structs@, base_of(fs[i].field_type@)),
                spec,
                (hops - 1) as nat,
            )
        } else {
            false
        })
}

/// A message has a tagged field at some depth.
pub open spec fn message_has_tag(spec: MessageSpec) -> bool {
    tag_below(spec.fields@, spec, spec.common_structs@.len())
}

fn common_struct_fields<'a>(spec: &'a MessageSpec, name: &str) -> (r: &'a [FieldSpec])
    ensures
        r@ == common_fields(spec.common_structs@, name@),
{
    let css = spec.common_structs.as_slice();
    let mut i: usize = 0;
    assert(css@.skip(0) =~= css@);
    while i < css.len()
        invariant
            i <= css@.len(),
            css@ == spec.common_structs@,
            common_fields(css@, name@) == common_fields(css@.skip(i as int), name@),
        decreases css@.len() - i,
    {
        assert(css@.skip(i as int)[0] == css@[i as int]);
        assert(css@.skip(i as int).drop_first() =~= css@.skip(i + 1));
        if str_eq(css[i].name.as_str(), name) {
            return css[i].fields.as_slice();
        }
        i = i + 1;
    }
    assert(css@.skip(i as int) =~= Seq::<crate::codegen::ir::StructSpec>::empty());
    &[]
}

/// The fields of a struct-typed field: inline, or from the message's common
/// structs. A primitive field has none.
pub fn struct_fields<'a>(f: &'a FieldSpec, spec: &'a MessageSpec) -> (r: &'a [FieldSpec])
    ensures
        r@ == struct_fields_of(*f, *spec),
{
    if f.fields.len() > 0 {
        return f.fields.as_slice();
    }
    common_struct_fields(spec, base_type(f.field_type.as_str()))
}

/// Whether a tagged field sits among `fields` or below them, through at most
/// `hops` common-struct references.
pub fn fields_have_tag(fields: &[FieldSpec], spec: &MessageSpec, hops: usize) -> (r: bool)
    ensures
        r == tag_below(fields@, *spec, hops as nat),
    decreases hops, fields@,
{
    let mut i: usize = 0;
    while i < fields.len()
        invariant
            i <= fields@.len(),
            forall|j: int|
                0 <= j < i ==> !(is_tagged(#[trigger] fields@[j]) || if fields@[j].fields@.len()
                    > 0 {
                    tag_below(fields@[j].fields@, *spec, hops as nat)
                } else if hops > 0 {
                    tag_below(
                        common_fields(spec.common_structs@, base_of(fields@[j].field_type@)),
                        *spec,
                        (hops - 1) as nat,
                    )
                } else {
                    false
                }),
        decreases fields@.len() - i,
    {
        let f = &fields[i];
        if f.tag.is_some() {
            return true;
        }
        if f.fields.len() > 0 {
            proof {
                assert(decreases_to!(fields@ => fields@[i as int]));
            }
            if fields_have_tag(f.fields.as_slice(), spec, hops) {
                return true;
            }
        } else if hops > 0 {
            let below = common_struct_fields(spec, base_type(f.field_type.as_str()));
            if fields_have_tag(below, spec, hops - 1) {
                return true;
            }
        }
        i = i + 1;
    }
    false
}

/// Return true when the message has a tagged field at any depth.
pub fn has_tagged_field(spec: &MessageSpec) -> (r: bool)
    ensures
        r == message_has_tag(*spec),
{
    fields_have_tag(spec.fields.as_slice(), spec, spec.common_structs.len())
}

/// The versions that two ranges share.
pub fn intersect(a: VersionRange, b: VersionRange) -> (r: VersionRange)
    ensures
        r == intersect_of(a, b),
        r.min == if a.min >= b.min {
            a.min
        } else {
            b.min
        },
        r.max == if a.max <= b.max {
            a.max
        } else {
            b.max
        },
{
    VersionRange {
        min: if a.min >= b.min {
            a.min
        } else {
            b.min
        },
        max: if a.max <= b.max {
            a.max
        } else {
            b.max
        },
    }
}

/// The versions that two ranges share.
pub open spec fn intersect_of(a: VersionRange, b: VersionRange) -> VersionRange {
    VersionRange {
        min: if a.min >= b.min {
            a.min
        } else {
            b.min
        },
        max: if a.max <= b.max {
            a.max
        } else {
            b.max
        },
    }
}

/// The text of a run-time check that a `version` inside `outer` is also inside
/// `r`. `r` is a strict sub-range of `outer`, so a bound that they share
/// needs no check.
pub open spec fn range_check_text(r: VersionRange, outer: VersionRange) -> Seq<char> {
    if r.min == r.max {
        "version == "@ + signed_decimal(r.min as int)
    } else if r.max == outer.max {
        "version >= "@ + signed_decimal(r.min as int)
    } else if r.min == outer.min {
        "version <= "@ + signed_decimal(r.max as int)
    } else {
        "("@ + signed_decimal(r.min as int) + "..="@ + signed_decimal(r.max as int)
            + ").contains(&version)"@
    }
}

/// A run-time check that a `version` inside `outer` is also inside `r`, as
/// Rust source text.
pub fn range_cond(r: VersionRange, outer: VersionRange) -> (s: String)
    ensures
        s@ == range_check_text(r, outer),
{
    let mut s = String::new();
    if r.min == r.max {
        s.append("version == ");
        push_signed_decimal(&mut s, r.min as i64);
    } else if r.max == outer.max {
        s.append("version >= ");
        push_signed_decimal(&mut s, r.min as i64);
    } else if r.min == outer.min {
        s.append("version <= ");
        push_signed_decimal(&mut s, r.max as i64);
    } else {
        s.append("(");
        push_signed_decimal(&mut s, r.min as i64);
        s.append("..=");
        push_signed_decimal(&mut s, r.max as i64);
        s.append(").contains(&version)");
    }
    s
}


/// The message has a tagged field below `f`, inside the struct that `f`
/// holds.
pub open spec fn leads_to(f: FieldSpec, spec: MessageSpec) -> bool {
    tag_below(struct_fields_of(f, spec), spec, spec.common_structs@.len())
}

/// Whether the fixture gives `f` a non-default value: a tagged field, a
/// field that leads to a tag, and, with `fill`, every field that holds no
/// struct. A record set never gets one.
pub open spec fn fixture_sets(f: FieldSpec, spec: MessageSpec, fill: bool) -> bool {
    let base = base_of(f.field_type@);
    if base == "records"@ {
        false
    } else {
        is_tagged(f) || leads_to(f, spec) || (fill && !is_struct_name(base))
    }
}

/// Whether a tagged field sits inside the struct that `f` holds.
pub fn leads_to_tag(f: &FieldSpec, spec: &MessageSpec) -> (r: bool)
    ensures
        r == leads_to(*f, *spec),
{
    fields_have_tag(struct_fields(f, spec), spec, spec.common_structs.len())
}

/// Whether the fixture gives `f` a non-default value.
pub fn sets(f: &FieldSpec, spec: &MessageSpec, fill: bool) -> (r: bool)
    ensures
        r == fixture_sets(*f, *spec, fill),
{
    let base = base_type(f.field_type.as_str());
    if str_eq(base, "records") {
        return false;
    }
    f.tag.is_some() || leads_to_tag(f, spec) || (fill && !is_struct_type(base))
}

/// A character with the Unicode `White_Space` property, which `str::trim`
/// removes: the ASCII controls from tab to carriage return, the space,
/// U+0085, the no-break space, U+1680, U+2000 to U+200A, the line and
/// paragraph separators, U+202F, U+205F and U+3000.
pub open spec fn white_space(c: char) -> bool {
    let n = c as u32;
    ||| 0x09 <= n <= 0x0D
    ||| n == 0x20
    ||| n == 0x85
    ||| n == 0xA0
    ||| n == 0x1680
    ||| 0x2000 <= n <= 0x200A
    ||| n == 0x2028
    ||| n == 0x2029
    ||| n == 0x202F
    ||| n == 0x205F
    ||| n == 0x3000
}

/// `s` without its leading white space.
pub open spec fn trim_start(s: Seq<char>) -> Seq<char>
    decreases s.len(),
{
    if s.len() > 0 && white_space(s[0]) {
        trim_start(s.drop_first())
    } else {
        s
    }
}

/// `s` without its trailing white space.
pub open spec fn trim_end(s: Seq<char>) -> Seq<char>
    decreases s.len(),
{
    if s.len() > 0 && white_space(s.last()) {
        trim_end(s.drop_last())
    } else {
        s
    }
}

/// The text of `s` without its leading and trailing white space.
pub open spec fn trimmed(s: Seq<char>) -> Seq<char> {
    trim_end(trim_start(s))
}

/// `str::trim`: the contract claims what its documentation says, that the
/// result is `s` without its leading and trailing `White_Space` characters.
#[verifier::external_body]
fn str_trim(s: &str) -> (r: &str)
    ensures
        r@ == trimmed(s@),
{
    s.trim()
}

/// The schema default as the text that the fixture compares with: a string
/// without its surrounding white space, a number as JSON prints it, a
/// boolean as `true` or `false`. `null`, an array or an object gives none.
pub open spec fn default_text(d: Option<SchemaDefault>) -> Option<Seq<char>> {
    match d {
        Some(SchemaDefault::Text(s)) => Some(trimmed(s@)),
        Some(SchemaDefault::Number(n)) => Some(n@),
        Some(SchemaDefault::Bool(b)) => Some(
            if b {
                "true"@
            } else {
                "false"@
            },
        ),
        _ => None,
    }
}

/// `a`, unless the default is `a`; then `b`.
pub open spec fn pick(default: Option<Seq<char>>, a: Seq<char>, b: Seq<char>) -> Seq<char> {
    if default == Some(a) {
        b
    } else {
        a
    }
}

/// The integer types of the schema.
pub open spec fn is_int_base(base: Seq<char>) -> bool {
    ||| base == "int8"@
    ||| base == "int16"@
    ||| base == "int32"@
    ||| base == "int64"@
    ||| base == "uint16"@
    ||| base == "uint32"@
}

/// The scalar types for which the fixture has a non-default value.
pub open spec fn fixture_scalar(base: Seq<char>) -> bool {
    ||| base == "bool"@
    ||| is_int_base(base)
    ||| base == "float64"@
    ||| base == "string"@
    ||| base == "bytes"@
    ||| base == "uuid"@
}

/// The Rust suffix of an integer literal of the schema type `base`.
pub open spec fn int_suffix(base: Seq<char>) -> Seq<char> {
    if base == "int8"@ {
        "i8"@
    } else if base == "int16"@ {
        "i16"@
    } else if base == "int32"@ {
        "i32"@
    } else if base == "int64"@ {
        "i64"@
    } else if base == "uint16"@ {
        "u16"@
    } else {
        "u32"@
    }
}

/// The Rust expression of the fixture's value for a field of type `base`
/// whose default text is `d`.
pub open spec fn scalar_rust(base: Seq<char>, d: Option<Seq<char>>) -> Seq<char> {
    if base == "bool"@ {
        pick(d, "true"@, "false"@)
    } else if is_int_base(base) {
        pick(d, "1"@, "2"@) + int_suffix(base)
    } else if base == "float64"@ {
        "1.5f64"@
    } else if base == "string"@ {
        "\""@ + pick(d, "x"@, "y"@) + "\".to_string()"@
    } else if base == "bytes"@ {
        "::bytes::Bytes::from_static(b\"x\")"@
    } else {
        "crate::primitives::uuid::Uuid([1u8; 16])"@
    }
}

/// The JSON expression of the same value, as Kafka's JSON converter reads
/// it: bytes as base64, a UUID as unpadded URL-safe base64 of its bytes.
pub open spec fn scalar_json(base: Seq<char>, d: Option<Seq<char>>) -> Seq<char> {
    if base == "bool"@ {
        "::serde_json::Value::Bool("@ + pick(d, "true"@, "false"@) + ")"@
    } else if is_int_base(base) {
        "::serde_json::json!("@ + pick(d, "1"@, "2"@) + ")"@
    } else if base == "float64"@ {
        "::serde_json::json!(1.5)"@
    } else if base == "string"@ {
        "::serde_json::Value::String(\""@ + pick(d, "x"@, "y"@) + "\".to_string())"@
    } else if base == "bytes"@ {
        "::serde_json::Value::String(\"eA==\".to_string())"@
    } else {
        "::serde_json::Value::String(\"AQEBAQEBAQEBAQEBAQEBAQ\".to_string())"@
    }
}

/// One non-default scalar, as a Rust expression and as a JSON expression.
pub struct Scalar {
    pub rust: String,
    pub json: String,
}

/// The view of an optional text.
pub open spec fn opt_text(o: Option<&str>) -> Option<Seq<char>> {
    match o {
        Some(t) => Some(t@),
        None => None,
    }
}

fn default_of(d: &Option<SchemaDefault>) -> (r: Option<&str>)
    ensures
        opt_text(r) == default_text(*d),
{
    match d {
        Some(SchemaDefault::Text(s)) => Some(str_trim(s.as_str())),
        Some(SchemaDefault::Number(n)) => Some(n.as_str()),
        Some(SchemaDefault::Bool(b)) => {
            if *b {
                Some("true")
            } else {
                Some("false")
            }
        },
        _ => None,
    }
}

fn pick_of<'a>(default: Option<&str>, a: &'a str, b: &'a str) -> (r: &'a str)
    ensures
        r@ == pick(opt_text(default), a@, b@),
{
    match default {
        Some(d) => {
            if str_eq(d, a) {
                b
            } else {
                a
            }
        },
        None => a,
    }
}

fn int_suffix_of(base: &str) -> (r: &'static str)
    ensures
        r@ == int_suffix(base@),
{
    if str_eq(base, "int8") {
        "i8"
    } else if str_eq(base, "int16") {
        "i16"
    } else if str_eq(base, "int32") {
        "i32"
    } else if str_eq(base, "int64") {
        "i64"
    } else if str_eq(base, "uint16") {
        "u16"
    } else {
        "u32"
    }
}

fn joined(a: &str, b: &str, c: &str) -> (r: String)
    ensures
        r@ == a@ + b@ + c@,
{
    let mut s = String::from_str(a);
    s.append(b);
    s.append(c);
    s
}

/// A value that differs from the schema default of `f`, for a field whose
/// type, or element type, is the scalar `base`.
pub fn scalar(base: &str, f: &FieldSpec) -> (r: Scalar)
    requires
        fixture_scalar(base@),
    ensures
        r.rust@ == scalar_rust(base@, default_text(f.default)),
        r.json@ == scalar_json(base@, default_text(f.default)),
{
    let default = default_of(&f.default);
    let is_int = str_eq(base, "int8") || str_eq(base, "int16") || str_eq(base, "int32")
        || str_eq(base, "int64") || str_eq(base, "uint16") || str_eq(base, "uint32");
    if str_eq(base, "bool") {
        let v = pick_of(default, "true", "false");
        Scalar { rust: String::from_str(v), json: joined("::serde_json::Value::Bool(", v, ")") }
    } else if is_int {
        let v = pick_of(default, "1", "2");
        let mut rust = String::from_str(v);
        rust.append(int_suffix_of(base));
        Scalar { rust, json: joined("::serde_json::json!(", v, ")") }
    } else if str_eq(base, "float64") {
        Scalar {
            rust: String::from_str("1.5f64"),
            json: String::from_str("::serde_json::json!(1.5)"),
        }
    } else if str_eq(base, "string") {
        let v = pick_of(default, "x", "y");
        Scalar {
            rust: joined("\"", v, "\".to_string()"),
            json: joined("::serde_json::Value::String(\"", v, "\".to_string())"),
        }
    } else if str_eq(base, "bytes") {
        Scalar {
            rust: String::from_str("::bytes::Bytes::from_static(b\"x\")"),
            json: String::from_str("::serde_json::Value::String(\"eA==\".to_string())"),
        }
    } else {
        Scalar {
            rust: String::from_str("crate::primitives::uuid::Uuid([1u8; 16])"),
            json: String::from_str("::serde_json::Value::String(\"AQEBAQEBAQEBAQEBAQEBAQ\".to_string())"),
        }
    }
}


// ---------------------------------------------------------------------------
// The JSON form of the fixture
// ---------------------------------------------------------------------------

/// The text that `{:?}` prints for the string `s`: `s` quoted, with the
/// escapes of `str`'s `Debug`.
pub uninterp spec fn debug_quoted(s: Seq<char>) -> Seq<char>;

/// `str`'s `Debug`, through `format!("{:?}")`. The contract claims the text
/// that `debug_quoted` names.
#[verifier::external_body]
fn str_debug(s: &str) -> (r: String)
    ensures
        r@ == debug_quoted(s@),
{
    format!("{s:?}")
}

/// The versions in which `f` exists in the JSON form: its versions, and for
/// a tagged field only those inside its `taggedVersions`.
pub open spec fn declared_range(f: FieldSpec) -> VersionRange {
    if is_tagged(f) {
        intersect_of(
            f.versions,
            match f.tagged_versions {
                Some(t) => t,
                None => f.versions,
            },
        )
    } else {
        f.versions
    }
}

/// The range holds no version.
pub open spec fn range_empty(r: VersionRange) -> bool {
    r.max < r.min
}

/// One `m.insert` statement for `f` with the JSON expression `value`, behind
/// a version check when `range` is a strict part of `outer`, and a space.
pub open spec fn insert_text(
    f: FieldSpec,
    value: Seq<char>,
    range: VersionRange,
    outer: VersionRange,
) -> Seq<char> {
    let insert = "m.insert("@ + debug_quoted(f.json_name@) + ".to_string(), "@ + value + ");"@;
    (if range == outer {
        insert
    } else {
        "if "@ + range_check_text(range, outer) + " { "@ + insert + " }"@
    }) + " "@
}

/// The `m.insert` statements, at the run-time `version` inside `outer`, of the
/// fields `fs` of a JSON object, looking through at most `hops` common-struct
/// references on the way down.
///
/// A field is present exactly in the versions that it shares with `outer`:
/// it is left out when it shares none, and its statement is guarded by a
/// version check when it shares only part of `outer`. A field that the
/// fixture sets gets its fixture value. A tagged field that the fixture does
/// not set is left out, and any other field gets its default.
pub open spec fn json_fields_text(
    spec: MessageSpec,
    fs: Seq<FieldSpec>,
    fill: bool,
    outer: VersionRange,
    hops: nat,
) -> Seq<char>
    decreases hops, fs, 0nat,
{
    if fs.len() == 0 {
        Seq::empty()
    } else {
        json_fields_text(spec, fs.subrange(0, fs.len() - 1), fill, outer, hops) + json_field_text(
            spec,
            fs[fs.len() - 1],
            fill,
            outer,
            hops,
        )
    }
}

/// The statement of one field of a JSON object; see [`json_fields_text`].
pub open spec fn json_field_text(
    spec: MessageSpec,
    f: FieldSpec,
    fill: bool,
    outer: VersionRange,
    hops: nat,
) -> Seq<char>
    decreases hops, f, 1nat,
{
    let range = intersect_of(declared_range(f), outer);
    if range_empty(range) {
        Seq::empty()
    } else if fixture_sets(f, spec, fill) {
        insert_text(f, json_value_text(spec, f, range, hops), range, outer)
    } else if is_tagged(f) {
        Seq::empty()
    } else {
        insert_text(f, f.json_default@, range, outer)
    }
}

/// The JSON expression of the fixture value of `f`, present in `range`: a
/// scalar's JSON, or an object of the struct's fields, and an array of one
/// element for an array field.
pub open spec fn json_value_text(spec: MessageSpec, f: FieldSpec, range: VersionRange, hops: nat) -> Seq<
    char,
>
    decreases hops, f, 0nat,
{
    let base = base_of(f.field_type@);
    let elem = if is_struct_name(base) {
        let inner = if f.fields@.len() > 0 {
            json_fields_text(spec, f.fields@, is_tagged(f), range, hops)
        } else if hops > 0 {
            json_fields_text(
                spec,
                common_fields(spec.common_structs@, base),
                is_tagged(f),
                range,
                (hops - 1) as nat,
            )
        } else {
            Seq::empty()
        };
        "{ let mut m = ::serde_json::Map::new(); "@ + inner + " ::serde_json::Value::Object(m) }"@
    } else {
        scalar_json(base, default_text(f.default))
    };
    if is_array_type(f.field_type@) {
        "::serde_json::Value::Array(vec!["@ + elem + "])"@
    } else {
        elem
    }
}

/// The walk of [`json_fields_text`] meets only scalars for which the fixture
/// has a value.
pub open spec fn json_walk_ok(
    spec: MessageSpec,
    fs: Seq<FieldSpec>,
    fill: bool,
    outer: VersionRange,
    hops: nat,
) -> bool
    decreases hops, fs, 2nat,
{
    forall|i: int| 0 <= i < fs.len() ==> json_field_ok(spec, #[trigger] fs[i], fill, outer, hops)
}

/// The walk of one field meets only scalars for which the fixture has a
/// value.
pub open spec fn json_field_ok(
    spec: MessageSpec,
    f: FieldSpec,
    fill: bool,
    outer: VersionRange,
    hops: nat,
) -> bool
    decreases hops, f, 1nat,
{
    let range = intersect_of(declared_range(f), outer);
    range_empty(range) || !fixture_sets(f, spec, fill) || json_value_ok(spec, f, range, hops)
}

/// The walk of the fixture value of `f` meets only scalars for which the
/// fixture has a value.
pub open spec fn json_value_ok(spec: MessageSpec, f: FieldSpec, range: VersionRange, hops: nat) -> bool
    decreases hops, f, 0nat,
{
    let base = base_of(f.field_type@);
    if is_struct_name(base) {
        if f.fields@.len() > 0 {
            json_walk_ok(spec, f.fields@, is_tagged(f), range, hops)
        } else if hops > 0 {
            json_walk_ok(
                spec,
                common_fields(spec.common_structs@, base),
                is_tagged(f),
                range,
                (hops - 1) as nat,
            )
        } else {
            true
        }
    } else {
        fixture_scalar(base)
    }
}

proof fn lemma_json_fields_push(
    spec: MessageSpec,
    fs: Seq<FieldSpec>,
    i: int,
    fill: bool,
    outer: VersionRange,
    hops: nat,
)
    requires
        0 <= i < fs.len(),
    ensures
        json_fields_text(spec, fs.take(i + 1), fill, outer, hops) == json_fields_text(
            spec,
            fs.take(i),
            fill,
            outer,
            hops,
        ) + json_field_text(spec, fs[i], fill, outer, hops),
{
    let t = fs.take(i + 1);
    assert(t.subrange(0, t.len() - 1) =~= fs.take(i));
    assert(t[t.len() - 1] == fs[i]);
}

fn walk_fields_json(
    spec: &MessageSpec,
    fields: &[FieldSpec],
    fill: bool,
    outer: VersionRange,
    hops: usize,
) -> (r: Option<String>)
    ensures
        match r {
            Some(t) => json_walk_ok(*spec, fields@, fill, outer, hops as nat) && t@
                == json_fields_text(*spec, fields@, fill, outer, hops as nat),
            None => !json_walk_ok(*spec, fields@, fill, outer, hops as nat),
        },
    decreases hops, fields@, 0nat,
{
    let mut out = String::new();
    let mut i: usize = 0;
    assert(fields@.take(0) =~= Seq::<FieldSpec>::empty());
    while i < fields.len()
        invariant
            i <= fields@.len(),
            forall|j: int|
                0 <= j < i ==> json_field_ok(*spec, #[trigger] fields@[j], fill, outer, hops as nat),
            out@ == json_fields_text(*spec, fields@.take(i as int), fill, outer, hops as nat),
        decreases fields@.len() - i,
    {
        proof {
            lemma_json_fields_push(*spec, fields@, i as int, fill, outer, hops as nat);
            assert(decreases_to!(fields@ => fields@[i as int]));
        }
        match walk_field_json(spec, &fields[i], fill, outer, hops) {
            Some(piece) => out.append(piece.as_str()),
            None => return None,
        }
        i = i + 1;
    }
    assert(fields@.take(i as int) =~= fields@);
    Some(out)
}

fn insert_statement(f: &FieldSpec, value: &str, range: VersionRange, outer: VersionRange) -> (r:
    String)
    ensures
        r@ == insert_text(*f, value@, range, outer),
{
    let mut insert = String::from_str("m.insert(");
    let name = str_debug(f.json_name.as_str());
    insert.append(name.as_str());
    insert.append(".to_string(), ");
    insert.append(value);
    insert.append(");");
    let mut out = String::new();
    if range == outer {
        out.append(insert.as_str());
    } else {
        out.append("if ");
        let cond = range_cond(range, outer);
        out.append(cond.as_str());
        out.append(" { ");
        out.append(insert.as_str());
        out.append(" }");
    }
    out.append(" ");
    out
}

fn walk_field_json(spec: &MessageSpec, f: &FieldSpec, fill: bool, outer: VersionRange, hops: usize) -> (r:
    Option<String>)
    ensures
        match r {
            Some(t) => json_field_ok(*spec, *f, fill, outer, hops as nat) && t@ == json_field_text(
                *spec,
                *f,
                fill,
                outer,
                hops as nat,
            ),
            None => !json_field_ok(*spec, *f, fill, outer, hops as nat),
        },
    decreases hops, *f, 1nat,
{
    let declared = if f.tag.is_some() {
        let tagged = match f.tagged_versions {
            Some(t) => t,
            None => f.versions,
        };
        intersect(f.versions, tagged)
    } else {
        f.versions
    };
    let range = intersect(declared, outer);
    if range.is_empty() {
        return Some(String::new());
    }
    if sets(f, spec, fill) {
        match walk_value_json(spec, f, range, hops) {
            Some(value) => Some(insert_statement(f, value.as_str(), range, outer)),
            None => None,
        }
    } else if f.tag.is_some() {
        Some(String::new())
    } else {
        Some(insert_statement(f, f.json_default.as_str(), range, outer))
    }
}

fn is_fixture_scalar(base: &str) -> (r: bool)
    ensures
        r == fixture_scalar(base@),
{
    str_eq(base, "bool") || str_eq(base, "int8") || str_eq(base, "int16") || str_eq(base, "int32")
        || str_eq(base, "int64") || str_eq(base, "uint16") || str_eq(base, "uint32") || str_eq(
        base,
        "float64",
    ) || str_eq(base, "string") || str_eq(base, "bytes") || str_eq(base, "uuid")
}

fn walk_value_json(spec: &MessageSpec, f: &FieldSpec, range: VersionRange, hops: usize) -> (r:
    Option<String>)
    ensures
        match r {
            Some(t) => json_value_ok(*spec, *f, range, hops as nat) && t@ == json_value_text(
                *spec,
                *f,
                range,
                hops as nat,
            ),
            None => !json_value_ok(*spec, *f, range, hops as nat),
        },
    decreases hops, *f, 0nat,
{
    let base = base_type(f.field_type.as_str());
    let elem = if is_struct_type(base) {
        let inner = if f.fields.len() > 0 {
            proof {
                assert(decreases_to!(*f => f.fields@));
            }
            walk_fields_json(spec, f.fields.as_slice(), f.tag.is_some(), range, hops)
        } else if hops > 0 {
            let common = common_struct_fields(spec, base);
            walk_fields_json(spec, common, f.tag.is_some(), range, hops - 1)
        } else {
            Some(String::new())
        };
        let inner = match inner {
            Some(t) => t,
            None => return None,
        };
        let mut obj = String::from_str("{ let mut m = ::serde_json::Map::new(); ");
        obj.append(inner.as_str());
        obj.append(" ::serde_json::Value::Object(m) }");
        obj
    } else if is_fixture_scalar(base) {
        scalar(base, f).json
    } else {
        return None;
    };
    if starts_with_array_marker(f.field_type.as_str()) {
        let mut arr = String::from_str("::serde_json::Value::Array(vec![");
        arr.append(elem.as_str());
        arr.append("])");
        Some(arr)
    } else {
        Some(elem)
    }
}

/// The `m.insert` statements of the fields `fields` of a JSON object, for a
/// run-time `version` inside `outer`. With `fill`, every scalar field gets a
/// non-default value; without it, only the fields that lead to a tag do.
///
/// A field is present exactly in the versions that it shares with `outer`,
/// and a tagged field only inside its `taggedVersions`; a field present in
/// only part of `outer` gets a version check.
pub fn json_fields(spec: &MessageSpec, fields: &[FieldSpec], fill: bool, outer: VersionRange) -> (r:
    String)
    requires
        json_walk_ok(*spec, fields@, fill, outer, spec.common_structs@.len()),
    ensures
        r@ == json_fields_text(*spec, fields@, fill, outer, spec.common_structs@.len()),
{
    match walk_fields_json(spec, fields, fill, outer, spec.common_structs.len()) {
        Some(t) => t,
        None => String::new(),
    }
}

/// [`json_fields`], or `None` when the walk meets a scalar type for which the
/// fixture has no value.
pub fn checked_json_fields(
    spec: &MessageSpec,
    fields: &[FieldSpec],
    fill: bool,
    outer: VersionRange,
) -> (r: Option<String>)
    ensures
        match r {
            Some(t) => json_walk_ok(*spec, fields@, fill, outer, spec.common_structs@.len()) && t@
                == json_fields_text(*spec, fields@, fill, outer, spec.common_structs@.len()),
            None => !json_walk_ok(*spec, fields@, fill, outer, spec.common_structs@.len()),
        },
{
    walk_fields_json(spec, fields, fill, outer, spec.common_structs.len())
}

// ---------------------------------------------------------------------------
// The Rust form of the fixture
// ---------------------------------------------------------------------------

/// The owned field type is `Option`: the field is nullable, or it is a
/// tagged field whose schema default is `null`.
pub open spec fn owned_is_option(f: FieldSpec) -> bool {
    f.nullable || (is_tagged(f) && f.default matches Some(SchemaDefault::Null))
}

/// The struct literal of type `path` whose set fields are the assignments
/// `assigns`; with none, the type's default.
pub open spec fn rust_struct_text(path: Seq<char>, assigns: Seq<char>) -> Seq<char> {
    if assigns.len() == 0 {
        path + "::default()"@
    } else {
        path + " { "@ + assigns + ", .."@ + path + "::default() }"@
    }
}

/// The assignments `name: value`, joined by `, `, of the fields among `fs`
/// that the fixture sets, looking through at most `hops` common-struct
/// references on the way down.
pub open spec fn rust_assigns_text(spec: MessageSpec, fs: Seq<FieldSpec>, fill: bool, hops: nat) -> Seq<
    char,
>
    decreases hops, fs, 1nat,
{
    if fs.len() == 0 {
        Seq::empty()
    } else {
        let prev = rust_assigns_text(spec, fs.subrange(0, fs.len() - 1), fill, hops);
        let f = fs[fs.len() - 1];
        if !fixture_sets(f, spec, fill) {
            prev
        } else {
            let assign = f.rust_name@ + ": "@ + rust_value_text(spec, f, hops);
            if prev.len() == 0 {
                assign
            } else {
                prev + ", "@ + assign
            }
        }
    }
}

/// The non-default Rust value of `f`: a scalar, or a struct literal whose
/// scalars are all set when `f` is tagged; in `vec![..]` for an array field
/// and in `Some(..)` for an `Option` field.
pub open spec fn rust_value_text(spec: MessageSpec, f: FieldSpec, hops: nat) -> Seq<char>
    decreases hops, f, 0nat,
{
    let base = base_of(f.field_type@);
    let elem = if is_struct_name(base) {
        let path = match f.struct_path {
            Some(p) => p@,
            None => Seq::empty(),
        };
        let assigns = if f.fields@.len() > 0 {
            rust_assigns_text(spec, f.fields@, is_tagged(f), hops)
        } else if hops > 0 {
            rust_assigns_text(
                spec,
                common_fields(spec.common_structs@, base),
                is_tagged(f),
                (hops - 1) as nat,
            )
        } else {
            Seq::empty()
        };
        rust_struct_text(path, assigns)
    } else {
        scalar_rust(base, default_text(f.default))
    };
    let inner = if is_array_type(f.field_type@) {
        "vec!["@ + elem + "]"@
    } else {
        elem
    };
    if owned_is_option(f) {
        "Some("@ + inner + ")"@
    } else {
        inner
    }
}

/// The Rust walk over `fs` meets only scalars for which the fixture has a
/// value, and only structs whose path is resolved.
pub open spec fn rust_walk_ok(spec: MessageSpec, fs: Seq<FieldSpec>, fill: bool, hops: nat) -> bool
    decreases hops, fs, 1nat,
{
    forall|i: int|
        0 <= i < fs.len() ==> (fixture_sets(#[trigger] fs[i], spec, fill) ==> rust_value_ok(
            spec,
            fs[i],
            hops,
        ))
}

/// The Rust walk of the value of `f` meets only scalars for which the
/// fixture has a value, and only structs whose path is resolved.
pub open spec fn rust_value_ok(spec: MessageSpec, f: FieldSpec, hops: nat) -> bool
    decreases hops, f, 0nat,
{
    let base = base_of(f.field_type@);
    if is_struct_name(base) {
        f.struct_path is Some && if f.fields@.len() > 0 {
            rust_walk_ok(spec, f.fields@, is_tagged(f), hops)
        } else if hops > 0 {
            rust_walk_ok(
                spec,
                common_fields(spec.common_structs@, base),
                is_tagged(f),
                (hops - 1) as nat,
            )
        } else {
            true
        }
    } else {
        fixture_scalar(base)
    }
}

proof fn lemma_rust_assigns_push(spec: MessageSpec, fs: Seq<FieldSpec>, i: int, fill: bool, hops: nat)
    requires
        0 <= i < fs.len(),
    ensures
        rust_assigns_text(spec, fs.take(i + 1), fill, hops) == ({
            let prev = rust_assigns_text(spec, fs.take(i), fill, hops);
            if !fixture_sets(fs[i], spec, fill) {
                prev
            } else {
                let assign = fs[i].rust_name@ + ": "@ + rust_value_text(spec, fs[i], hops);
                if prev.len() == 0 {
                    assign
                } else {
                    prev + ", "@ + assign
                }
            }
        }),
{
    let t = fs.take(i + 1);
    assert(t.subrange(0, t.len() - 1) =~= fs.take(i));
    assert(t[t.len() - 1] == fs[i]);
}

fn struct_literal(path: &str, assigns: &str, any: bool) -> (r: String)
    requires
        any <==> assigns@.len() > 0,
    ensures
        r@ == rust_struct_text(path@, assigns@),
{
    let mut out = String::from_str(path);
    if any {
        out.append(" { ");
        out.append(assigns);
        out.append(", ..");
        out.append(path);
        out.append("::default() }");
    } else {
        out.append("::default()");
    }
    out
}

fn walk_rust_assigns(spec: &MessageSpec, fields: &[FieldSpec], fill: bool, hops: usize) -> (r: Option<
    String,
>)
    ensures
        match r {
            Some(t) => rust_walk_ok(*spec, fields@, fill, hops as nat) && t@ == rust_assigns_text(
                *spec,
                fields@,
                fill,
                hops as nat,
            ),
            None => !rust_walk_ok(*spec, fields@, fill, hops as nat),
        },
    decreases hops, fields@, 1nat,
{
    let mut out = String::new();
    let mut any = false;
    let mut i: usize = 0;
    assert(fields@.take(0) =~= Seq::<FieldSpec>::empty());
    while i < fields.len()
        invariant
            i <= fields@.len(),
            forall|j: int|
                0 <= j < i ==> (fixture_sets(#[trigger] fields@[j], *spec, fill) ==> rust_value_ok(
                    *spec,
                    fields@[j],
                    hops as nat,
                )),
            out@ == rust_assigns_text(*spec, fields@.take(i as int), fill, hops as nat),
            any <==> out@.len() > 0,
        decreases fields@.len() - i,
    {
        proof {
            lemma_rust_assigns_push(*spec, fields@, i as int, fill, hops as nat);
            assert(decreases_to!(fields@ => fields@[i as int]));
        }
        let f = &fields[i];
        if sets(f, spec, fill) {
            let value = match walk_rust_value(spec, f, hops) {
                Some(v) => v,
                None => return None,
            };
            if any {
                out.append(", ");
            }
            out.append(f.rust_name.as_str());
            proof {
                reveal_strlit(": ");
            }
            out.append(": ");
            out.append(value.as_str());
            any = true;
        }
        i = i + 1;
    }
    assert(fields@.take(i as int) =~= fields@);
    Some(out)
}

fn walk_rust_value(spec: &MessageSpec, f: &FieldSpec, hops: usize) -> (r: Option<String>)
    ensures
        match r {
            Some(t) => rust_value_ok(*spec, *f, hops as nat) && t@ == rust_value_text(
                *spec,
                *f,
                hops as nat,
            ),
            None => !rust_value_ok(*spec, *f, hops as nat),
        },
    decreases hops, *f, 0nat,
{
    let base = base_type(f.field_type.as_str());
    let elem = if is_struct_type(base) {
        let path = match &f.struct_path {
            Some(p) => p.as_str(),
            None => return None,
        };
        let assigns = if f.fields.len() > 0 {
            proof {
                assert(decreases_to!(*f => f.fields@));
            }
            walk_rust_assigns(spec, f.fields.as_slice(), f.tag.is_some(), hops)
        } else if hops > 0 {
            let common = common_struct_fields(spec, base);
            walk_rust_assigns(spec, common, f.tag.is_some(), hops - 1)
        } else {
            Some(String::new())
        };
        let assigns = match assigns {
            Some(a) => a,
            None => return None,
        };
        let any = !assigns.as_str().is_empty();
        struct_literal(path, assigns.as_str(), any)
    } else if is_fixture_scalar(base) {
        scalar(base, f).rust
    } else {
        return None;
    };
    let inner = if starts_with_array_marker(f.field_type.as_str()) {
        let mut v = String::from_str("vec![");
        v.append(elem.as_str());
        v.append("]");
        v
    } else {
        elem
    };
    let option = f.nullable || (f.tag.is_some() && match &f.default {
        Some(SchemaDefault::Null) => true,
        _ => false,
    });
    if option {
        let mut o = String::from_str("Some(");
        o.append(inner.as_str());
        o.append(")");
        Some(o)
    } else {
        Some(inner)
    }
}

/// A struct literal of type `path`. With `fill`, every scalar field gets a
/// non-default value; without it, only the fields that lead to a tag do.
pub fn rust_struct(spec: &MessageSpec, path: &str, fields: &[FieldSpec], fill: bool) -> (r: String)
    requires
        rust_walk_ok(*spec, fields@, fill, spec.common_structs@.len()),
    ensures
        r@ == rust_struct_text(
            path@,
            rust_assigns_text(*spec, fields@, fill, spec.common_structs@.len()),
        ),
{
    match checked_rust_struct(spec, path, fields, fill) {
        Some(t) => t,
        None => String::new(),
    }
}

/// [`rust_struct`], or `None` when the walk meets a scalar type for which
/// the fixture has no value or a struct whose path is not resolved.
pub fn checked_rust_struct(spec: &MessageSpec, path: &str, fields: &[FieldSpec], fill: bool) -> (r:
    Option<String>)
    ensures
        match r {
            Some(t) => rust_walk_ok(*spec, fields@, fill, spec.common_structs@.len()) && t@
                == rust_struct_text(
                path@,
                rust_assigns_text(*spec, fields@, fill, spec.common_structs@.len()),
            ),
            None => !rust_walk_ok(*spec, fields@, fill, spec.common_structs@.len()),
        },
{
    let assigns = match walk_rust_assigns(spec, fields, fill, spec.common_structs.len()) {
        Some(a) => a,
        None => return None,
    };
    let any = !assigns.as_str().is_empty();
    Some(struct_literal(path, assigns.as_str(), any))
}

/// The non-default Rust value of `f`.
pub fn rust_value(spec: &MessageSpec, f: &FieldSpec) -> (r: String)
    requires
        rust_value_ok(*spec, *f, spec.common_structs@.len()),
    ensures
        r@ == rust_value_text(*spec, *f, spec.common_structs@.len()),
{
    match walk_rust_value(spec, f, spec.common_structs.len()) {
        Some(t) => t,
        None => String::new(),
    }
}

// ---------------------------------------------------------------------------
// The two forms of the fixture describe one value
// ---------------------------------------------------------------------------

/// `t` holds `p` as a contiguous piece.
pub open spec fn holds_text(t: Seq<char>, p: Seq<char>) -> bool {
    exists|i: int| 0 <= i && i + p.len() <= t.len() && #[trigger] t.subrange(i, i + p.len()) == p
}

proof fn lemma_holds_itself(p: Seq<char>)
    ensures
        holds_text(p, p),
{
    assert(p.subrange(0int, 0int + p.len()) =~= p);
}

proof fn lemma_holds_left(a: Seq<char>, b: Seq<char>, p: Seq<char>)
    requires
        holds_text(a, p),
    ensures
        holds_text(a + b, p),
{
    let i = choose|i: int| 0 <= i && i + p.len() <= a.len() && #[trigger] a.subrange(i, i + p.len()) == p;
    assert((a + b).subrange(i, i + p.len()) =~= a.subrange(i, i + p.len()));
}

proof fn lemma_holds_right(a: Seq<char>, b: Seq<char>, p: Seq<char>)
    requires
        holds_text(b, p),
    ensures
        holds_text(a + b, p),
{
    let i = choose|i: int| 0 <= i && i + p.len() <= b.len() && #[trigger] b.subrange(i, i + p.len()) == p;
    let j = i + a.len();
    assert((a + b).subrange(j, j + p.len()) =~= b.subrange(i, i + p.len()));
}

proof fn lemma_holds_within(t: Seq<char>, p: Seq<char>, q: Seq<char>)
    requires
        holds_text(t, p),
        holds_text(p, q),
    ensures
        holds_text(t, q),
{
    let i = choose|i: int| 0 <= i && i + p.len() <= t.len() && #[trigger] t.subrange(i, i + p.len()) == p;
    let j = choose|j: int| 0 <= j && j + q.len() <= p.len() && #[trigger] p.subrange(j, j + q.len()) == q;
    assert(t.subrange(i + j, i + j + q.len()) =~= p.subrange(j, j + q.len()));
}

/// `a` wrapped between `l` and `r` still holds what `a` holds.
proof fn lemma_holds_between(l: Seq<char>, a: Seq<char>, r: Seq<char>, p: Seq<char>)
    requires
        holds_text(a, p),
    ensures
        holds_text(l + a + r, p),
{
    lemma_holds_right(l, a, p);
    lemma_holds_left(l + a, r, p);
}

proof fn lemma_json_fields_hold(
    spec: MessageSpec,
    fs: Seq<FieldSpec>,
    fill: bool,
    outer: VersionRange,
    hops: nat,
    k: int,
)
    requires
        0 <= k < fs.len(),
    ensures
        holds_text(
            json_fields_text(spec, fs, fill, outer, hops),
            json_field_text(spec, fs[k], fill, outer, hops),
        ),
    decreases fs.len(),
{
    let init = fs.subrange(0, fs.len() - 1);
    let last = json_field_text(spec, fs[fs.len() - 1], fill, outer, hops);
    if k == fs.len() - 1 {
        lemma_holds_itself(last);
        lemma_holds_right(json_fields_text(spec, init, fill, outer, hops), last, last);
    } else {
        lemma_json_fields_hold(spec, init, fill, outer, hops, k);
        assert(init[k] == fs[k]);
        lemma_holds_left(
            json_fields_text(spec, init, fill, outer, hops),
            last,
            json_field_text(spec, fs[k], fill, outer, hops),
        );
    }
}

proof fn lemma_rust_assigns_hold(spec: MessageSpec, fs: Seq<FieldSpec>, fill: bool, hops: nat, k: int)
    requires
        0 <= k < fs.len(),
        fixture_sets(fs[k], spec, fill),
    ensures
        holds_text(
            rust_assigns_text(spec, fs, fill, hops),
            fs[k].rust_name@ + ": "@ + rust_value_text(spec, fs[k], hops),
        ),
    decreases fs.len(),
{
    let init = fs.subrange(0, fs.len() - 1);
    let prev = rust_assigns_text(spec, init, fill, hops);
    let f = fs[fs.len() - 1];
    let assign = f.rust_name@ + ": "@ + rust_value_text(spec, f, hops);
    if k == fs.len() - 1 {
        lemma_holds_itself(assign);
        if prev.len() > 0 {
            lemma_holds_right(prev + ", "@, assign, assign);
        }
    } else {
        lemma_rust_assigns_hold(spec, init, fill, hops, k);
        assert(init[k] == fs[k]);
        let want = fs[k].rust_name@ + ": "@ + rust_value_text(spec, fs[k], hops);
        if fixture_sets(f, spec, fill) {
            reveal_strlit(": ");
            assert(want.len() > 0);
            assert(prev.len() > 0);
            lemma_holds_left(prev, ", "@ + assign, want);
            assert(prev + ", "@ + assign =~= prev + (", "@ + assign));
        }
    }
}

/// The fixture value of a scalar field, with fill, holds its scalar in both
/// forms: the JSON statement of the field, where the field is present, and the
/// Rust assignment.
proof fn lemma_scalar_field_holds(
    spec: MessageSpec,
    g: FieldSpec,
    outer: VersionRange,
    hops: nat,
)
    requires
        !is_struct_name(base_of(g.field_type@)),
        fixture_scalar(base_of(g.field_type@)),
        !range_empty(intersect_of(declared_range(g), outer)),
    ensures
        fixture_sets(g, spec, true),
        holds_text(
            json_field_text(spec, g, true, outer, hops),
            scalar_json(base_of(g.field_type@), default_text(g.default)),
        ),
        holds_text(
            g.rust_name@ + ": "@ + rust_value_text(spec, g, hops),
            scalar_rust(base_of(g.field_type@), default_text(g.default)),
        ),
{
    let base = base_of(g.field_type@);
    reveal_strlit("records");
    reveal_strlit("bool");
    reveal_strlit("int8");
    reveal_strlit("int16");
    reveal_strlit("int32");
    reveal_strlit("int64");
    reveal_strlit("uint16");
    reveal_strlit("uint32");
    reveal_strlit("float64");
    reveal_strlit("string");
    reveal_strlit("bytes");
    reveal_strlit("uuid");
    assert(base != "records"@);
    let range = intersect_of(declared_range(g), outer);
    let sj = scalar_json(base, default_text(g.default));
    let sr = scalar_rust(base, default_text(g.default));
    let value = json_value_text(spec, g, range, hops);
    lemma_holds_itself(sj);
    if is_array_type(g.field_type@) {
        lemma_holds_between("::serde_json::Value::Array(vec!["@, sj, "])"@, sj);
    }
    assert(holds_text(value, sj));
    let name = "m.insert("@ + debug_quoted(g.json_name@) + ".to_string(), "@;
    let insert = name + value + ");"@;
    lemma_holds_between(name, value, ");"@, sj);
    if range == outer {
        lemma_holds_left(insert, " "@, sj);
    } else {
        lemma_holds_between("if "@ + range_check_text(range, outer) + " { "@, insert, " }"@, sj);
        lemma_holds_left(
            "if "@ + range_check_text(range, outer) + " { "@ + insert + " }"@,
            " "@,
            sj,
        );
    }
    lemma_holds_itself(sr);
    let inner = if is_array_type(g.field_type@) {
        "vec!["@ + sr + "]"@
    } else {
        sr
    };
    if is_array_type(g.field_type@) {
        lemma_holds_between("vec!["@, sr, "]"@, sr);
    }
    lemma_holds_itself(inner);
    if owned_is_option(g) {
        lemma_holds_between("Some("@, inner, ")"@, sr);
    } else {
        lemma_holds_within(inner, inner, sr);
    }
    lemma_holds_right(g.rust_name@ + ": "@, rust_value_text(spec, g, hops), sr);
}

/// The JSON fixture and the Rust fixture describe one value: in a tagged
/// struct field, every scalar field of its struct, inline or from the common
/// structs, carries its non-default fixture value in both forms (in the JSON
/// form wherever the field is present).
pub proof fn lemma_tagged_struct_fills_both_forms(
    spec: MessageSpec,
    f: FieldSpec,
    range: VersionRange,
    hops: nat,
    k: int,
)
    requires
        is_tagged(f),
        is_struct_name(base_of(f.field_type@)),
        f.fields@.len() == 0 ==> hops > 0,
        0 <= k < (if f.fields@.len() > 0 {
            f.fields@
        } else {
            common_fields(spec.common_structs@, base_of(f.field_type@))
        }).len(),
        ({
            let g = (if f.fields@.len() > 0 {
                f.fields@
            } else {
                common_fields(spec.common_structs@, base_of(f.field_type@))
            })[k];
            &&& !is_struct_name(base_of(g.field_type@))
            &&& fixture_scalar(base_of(g.field_type@))
            &&& !range_empty(intersect_of(declared_range(g), range))
        }),
    ensures
        ({
            let g = (if f.fields@.len() > 0 {
                f.fields@
            } else {
                common_fields(spec.common_structs@, base_of(f.field_type@))
            })[k];
            &&& holds_text(
                json_value_text(spec, f, range, hops),
                scalar_json(base_of(g.field_type@), default_text(g.default)),
            )
            &&& holds_text(
                rust_value_text(spec, f, hops),
                scalar_rust(base_of(g.field_type@), default_text(g.default)),
            )
        }),
{
    let base = base_of(f.field_type@);
    let inline = f.fields@.len() > 0;
    let fs = if inline {
        f.fields@
    } else {
        common_fields(spec.common_structs@, base)
    };
    let h: nat = if inline {
        hops
    } else {
        (hops - 1) as nat
    };
    let g = fs[k];
    let sj = scalar_json(base_of(g.field_type@), default_text(g.default));
    let sr = scalar_rust(base_of(g.field_type@), default_text(g.default));
    lemma_scalar_field_holds(spec, g, range, h);
    // The JSON form.
    lemma_json_fields_hold(spec, fs, true, range, h, k);
    let inner = json_fields_text(spec, fs, true, range, h);
    lemma_holds_within(inner, json_field_text(spec, g, true, range, h), sj);
    let obj = "{ let mut m = ::serde_json::Map::new(); "@ + inner + " ::serde_json::Value::Object(m) }"@;
    lemma_holds_between(
        "{ let mut m = ::serde_json::Map::new(); "@,
        inner,
        " ::serde_json::Value::Object(m) }"@,
        sj,
    );
    if is_array_type(f.field_type@) {
        lemma_holds_between("::serde_json::Value::Array(vec!["@, obj, "])"@, sj);
    }
    // The Rust form.
    lemma_rust_assigns_hold(spec, fs, true, h, k);
    let assigns = rust_assigns_text(spec, fs, true, h);
    let assign = g.rust_name@ + ": "@ + rust_value_text(spec, g, h);
    lemma_holds_within(assigns, assign, sr);
    let path = match f.struct_path {
        Some(p) => p@,
        None => Seq::empty(),
    };
    reveal_strlit(": ");
    assert(assign.len() > 0);
    assert(assigns.len() > 0);
    lemma_holds_between(path + " { "@, assigns, ", .."@ + path + "::default() }"@, sr);
    assert(path + " { "@ + assigns + ", .."@ + path + "::default() }"@ =~= path + " { "@ + assigns
        + (", .."@ + path + "::default() }"@));
    let elem = rust_struct_text(path, assigns);
    assert(holds_text(elem, sr));
    let wrapped = if is_array_type(f.field_type@) {
        "vec!["@ + elem + "]"@
    } else {
        elem
    };
    if is_array_type(f.field_type@) {
        lemma_holds_between("vec!["@, elem, "]"@, sr);
    }
    if owned_is_option(f) {
        lemma_holds_between("Some("@, wrapped, ")"@, sr);
    }
}

} // verus!
