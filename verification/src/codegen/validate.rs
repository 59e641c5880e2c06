//! The schema subset that the generator supports.
//!
//! [`specs_problem`] says which problem, if any, a list of schemas has, and
//! [`validate`] is proved to report exactly that problem.

use vstd::prelude::*;
use vstd::string::{StrSliceExecFns, StringExecFns};

use crate::codegen::ir::{FieldSpec, FlexibleVersions, MessageSpec, MessageType, VersionRange};
use crate::text::str_eq;

verus! {

/// Why a schema is outside the supported subset.
#[derive(Debug, PartialEq, Eq)]
pub enum ValidateError {
    /// `message` names the rule, and `context` the message, struct, or field
    /// path that broke it.
    Unsupported { message: &'static str, context: String },
}

impl ValidateError {
    /// The rule, then the path that broke it.
    pub fn to_string(&self) -> (s: String)
        ensures
            match self {
                ValidateError::Unsupported { message, context } => s@ == message@ + ": in "@
                    + context@,
            },
    {
        match self {
            ValidateError::Unsupported { message, context } => {
                let mut s = String::new();
                s.append(message);
                s.append(": in ");
                s.append(context.as_str());
                s
            },
        }
    }
}

// ---------------------------------------------------------------------------
// Field types
// ---------------------------------------------------------------------------

/// Whether `c` has the Unicode `Uppercase` property, as `char::is_uppercase`
/// computes it.
pub uninterp spec fn unicode_uppercase(c: char) -> bool;

/// `char::is_uppercase`. The contract claims the result that
/// `unicode_uppercase` names, and the ASCII part of it that the documentation
/// gives: among ASCII characters, exactly `A` to `Z` are uppercase.
#[verifier::external_body]
fn char_is_uppercase(c: char) -> (r: bool)
    ensures
        r == unicode_uppercase(c),
        (c as u32) < 128 ==> (r <==> 'A' <= c <= 'Z'),
{
    c.is_uppercase()
}

/// The primitive field types that the generator understands: the eleven of
/// the Kafka 4.2.0 schema corpus, and `uint32`, which older or future schemas
/// use.
pub open spec fn known_primitive(t: Seq<char>) -> bool {
    ||| t == "bool"@
    ||| t == "int8"@
    ||| t == "int16"@
    ||| t == "int32"@
    ||| t == "int64"@
    ||| t == "uint16"@
    ||| t == "uint32"@
    ||| t == "float64"@
    ||| t == "string"@
    ||| t == "bytes"@
    ||| t == "uuid"@
    ||| t == "records"@
}

/// `t` opens with the array marker `[]`.
pub open spec fn is_array_type(t: Seq<char>) -> bool {
    t.len() >= 2 && t[0] == '[' && t[1] == ']'
}

/// The element type of an array type, or the type itself.
pub open spec fn base_of(t: Seq<char>) -> Seq<char> {
    if is_array_type(t) {
        t.skip(2)
    } else {
        t
    }
}

/// A struct reference: by the schema convention, a name whose first
/// character is uppercase.
pub open spec fn is_struct_name(t: Seq<char>) -> bool {
    t.len() > 0 && unicode_uppercase(t[0])
}

/// A field type that the generator understands: a known primitive, a nested
/// array, or a struct reference, each possibly behind one `[]`.
pub open spec fn type_known(field_type: Seq<char>) -> bool {
    let base = base_of(field_type);
    known_primitive(base) || is_array_type(base) || is_struct_name(base)
}

fn is_known_primitive(t: &str) -> (r: bool)
    ensures
        r == known_primitive(t@),
{
    str_eq(t, "bool") || str_eq(t, "int8") || str_eq(t, "int16") || str_eq(t, "int32") || str_eq(
        t,
        "int64",
    ) || str_eq(t, "uint16") || str_eq(t, "uint32") || str_eq(t, "float64") || str_eq(
        t,
        "string",
    ) || str_eq(t, "bytes") || str_eq(t, "uuid") || str_eq(t, "records")
}

pub fn starts_with_array_marker(t: &str) -> (r: bool)
    ensures
        r == is_array_type(t@),
{
    let n = t.unicode_len();
    n >= 2 && t.get_char(0) == '[' && t.get_char(1) == ']'
}

/// The element type of an array type, or the type itself.
pub fn base_type(t: &str) -> (r: &str)
    ensures
        r@ == base_of(t@),
{
    if starts_with_array_marker(t) {
        let n = t.unicode_len();
        t.substring_char(2, n)
    } else {
        t
    }
}

/// Whether `t` names a struct: its first character is uppercase.
pub fn is_struct_type(t: &str) -> (r: bool)
    ensures
        r == is_struct_name(t@),
{
    if t.is_empty() {
        false
    } else {
        char_is_uppercase(t.get_char(0))
    }
}

fn is_type_known(field_type: &str) -> (r: bool)
    ensures
        r == type_known(field_type@),
{
    let base = base_type(field_type);
    is_known_primitive(base) || starts_with_array_marker(base) || is_struct_type(base)
}

// ---------------------------------------------------------------------------
// The rules
// ---------------------------------------------------------------------------

/// Some version of the message is flexible.
pub open spec fn some_flexible(f: FlexibleVersions) -> bool {
    f is Range
}

/// The versions in which the field `f` is tagged: its `taggedVersions`, or
/// its `versions` when the schema gives none.
pub open spec fn tagged_range(f: FieldSpec) -> VersionRange {
    match f.tag_versions_spec() {
        Some(r) => r,
        None => f.versions,
    }
}

impl FieldSpec {
    /// The field's `taggedVersions`.
    pub open spec fn tag_versions_spec(self) -> Option<VersionRange> {
        self.tagged_versions
    }
}

/// The first problem of the field `f` at path `ctx`, as the rule's message and
/// the field's path, or `None` when `f` and its inline fields keep every rule.
///
/// Kafka's generator enforces the two rules on `taggedVersions` in its
/// `FieldSpec`: a tagged range is open-ended, and it sits inside `versions`,
/// which is open-ended too.
pub open spec fn field_error(f: FieldSpec, flexible: FlexibleVersions, ctx: Seq<char>) -> Option<
    (Seq<char>, Seq<char>),
>
    decreases f, 0nat,
{
    let context = ctx + "."@ + f.name@;
    if !type_known(f.field_type@) {
        Some(("unknown field type"@, context))
    } else if f.tag is Some && !some_flexible(flexible) {
        Some(("tagged field on non-flexible message"@, context))
    } else if f.tag is Some && tagged_range(f).max != i16::MAX {
        Some(("taggedVersions is not open-ended"@, context))
    } else if f.tag is Some && (tagged_range(f).min < f.versions.min || f.versions.max
        != i16::MAX) {
        Some(("taggedVersions is not a subset of versions"@, context))
    } else if f.fields@.len() > 0 {
        fields_error(f.fields@, flexible, context)
    } else {
        None
    }
}

/// The first problem among the fields `fs` at path `ctx`, in field order.
pub open spec fn fields_error(fs: Seq<FieldSpec>, flexible: FlexibleVersions, ctx: Seq<char>) -> Option<
    (Seq<char>, Seq<char>),
>
    decreases fs, 1nat,
{
    if fs.len() == 0 {
        None
    } else {
        match field_error(fs[0], flexible, ctx) {
            Some(e) => Some(e),
            None => fields_error(fs.drop_first(), flexible, ctx),
        }
    }
}

/// Kafka's `MessageSpec` accepts `latestVersionUnstable` only on a request.
/// The flag marks the highest version in `validVersions`, so the range must
/// have a highest version: an empty range has no version to mark, and an
/// open-ended range has no fixed highest version.
pub open spec fn unstable_problem(s: MessageSpec) -> Option<Seq<char>> {
    if !s.latest_version_unstable {
        None
    } else if s.message_type != MessageType::Request {
        Some("latestVersionUnstable on a message that is not a request"@)
    } else if s.valid_versions.max < s.valid_versions.min {
        Some("latestVersionUnstable with empty validVersions"@)
    } else if s.valid_versions.max == i16::MAX {
        Some("latestVersionUnstable with open-ended validVersions"@)
    } else {
        None
    }
}

/// The first problem among the common structs `cs` of a message at path
/// `ctx`: each struct's fields sit at the path `ctx.name`.
pub open spec fn structs_error(
    cs: Seq<crate::codegen::ir::StructSpec>,
    flexible: FlexibleVersions,
    ctx: Seq<char>,
) -> Option<(Seq<char>, Seq<char>)>
    decreases cs.len(),
{
    if cs.len() == 0 {
        None
    } else {
        match fields_error(cs[0].fields@, flexible, ctx + "."@ + cs[0].name@) {
            Some(e) => Some(e),
            None => structs_error(cs.drop_first(), flexible, ctx),
        }
    }
}

/// The first problem of the schema `s`: a request or response without an api
/// key, a misplaced `latestVersionUnstable`, then the fields, then the common
/// structs.
pub open spec fn spec_problem(s: MessageSpec) -> Option<(Seq<char>, Seq<char>)> {
    let ctx = s.name@;
    if (s.message_type == MessageType::Request || s.message_type == MessageType::Response)
        && s.api_key is None {
        Some(("request/response missing apiKey"@, ctx))
    } else if unstable_problem(s) is Some {
        Some((unstable_problem(s)->Some_0, ctx))
    } else {
        match fields_error(s.fields@, s.flexible_versions, ctx) {
            Some(e) => Some(e),
            None => structs_error(s.common_structs@, s.flexible_versions, ctx),
        }
    }
}

/// The first problem among the schemas `ss`, in order.
pub open spec fn specs_problem(ss: Seq<MessageSpec>) -> Option<(Seq<char>, Seq<char>)>
    decreases ss.len(),
{
    if ss.len() == 0 {
        None
    } else {
        match spec_problem(ss[0]) {
            Some(e) => Some(e),
            None => specs_problem(ss.drop_first()),
        }
    }
}

/// `r` reports the problem `p`: `Ok` for none, and the rule's message and the
/// path for one.
pub open spec fn reports(r: Result<(), ValidateError>, p: Option<(Seq<char>, Seq<char>)>) -> bool {
    match p {
        None => r is Ok,
        Some((m, c)) => r matches Err(ValidateError::Unsupported { message, context })
            && message@ == m && context@ == c,
    }
}

fn path(ctx: &str, name: &str) -> (p: String)
    ensures
        p@ == ctx@ + "."@ + name@,
{
    let mut p = String::new();
    p.append(ctx);
    p.append(".");
    p.append(name);
    p
}

fn unsupported(message: &'static str, context: String) -> (r: Result<(), ValidateError>)
    ensures
        r matches Err(ValidateError::Unsupported { message: m, context: c }) && m@ == message@
            && c@ == context@,
{
    Err(ValidateError::Unsupported { message, context })
}

/// Checks the schemas against the supported subset, and reports the first
/// problem.
///
/// Returns [`ValidateError::Unsupported`] with the rule that failed and the
/// path of the message, struct, or field that broke it.
pub fn validate(specs: &[MessageSpec]) -> (r: Result<(), ValidateError>)
    ensures
        reports(r, specs_problem(specs@)),
{
    let mut i: usize = 0;
    assert(specs@.skip(0) =~= specs@);
    while i < specs.len()
        invariant
            i <= specs@.len(),
            specs_problem(specs@) == specs_problem(specs@.skip(i as int)),
        decreases specs@.len() - i,
    {
        let spec = &specs[i];
        assert(specs@.skip(i as int)[0] == specs@[i as int]);
        assert(specs@.skip(i as int).drop_first() =~= specs@.skip(i + 1));
        let ctx = spec.name.as_str();
        if (spec.message_type == MessageType::Request || spec.message_type == MessageType::Response)
            && spec.api_key.is_none() {
            let mut context = String::new();
            context.append(ctx);
            return unsupported("request/response missing apiKey", context);
        }
        if let Some(message) = latest_version_unstable_error(spec) {
            let mut context = String::new();
            context.append(ctx);
            return unsupported(message, context);
        }
        let r = validate_fields(spec.fields.as_slice(), spec.flexible_versions, ctx);
        if r.is_err() {
            return r;
        }
        let mut j: usize = 0;
        let css = spec.common_structs.as_slice();
        assert(css@.skip(0) =~= css@);
        while j < css.len()
            invariant
                j <= css@.len(),
                css@ == spec.common_structs@,
                structs_error(css@, spec.flexible_versions, spec.name@) == structs_error(
                    css@.skip(j as int),
                    spec.flexible_versions,
                    spec.name@,
                ),
                ctx@ == spec.name@,
                i < specs@.len(),
                specs@[i as int] == *spec,
                specs_problem(specs@) == specs_problem(specs@.skip(i as int)),
                specs@.skip(i as int)[0] == specs@[i as int],
                specs@.skip(i as int).drop_first() == specs@.skip(i + 1),
                spec_problem(*spec) == structs_error(css@, spec.flexible_versions, spec.name@),
            decreases css@.len() - j,
        {
            let cs = &css[j];
            assert(css@.skip(j as int)[0] == css@[j as int]);
            assert(css@.skip(j as int).drop_first() =~= css@.skip(j + 1));
            let context = path(ctx, cs.name.as_str());
            let r = validate_fields(cs.fields.as_slice(), spec.flexible_versions, context.as_str());
            if r.is_err() {
                return r;
            }
            j = j + 1;
        }
        assert(css@.skip(j as int) =~= Seq::<crate::codegen::ir::StructSpec>::empty());
        i = i + 1;
    }
    assert(specs@.skip(i as int) =~= Seq::<MessageSpec>::empty());
    Ok(())
}

/// The rule of `latestVersionUnstable`, as [`unstable_problem`] says it.
pub fn latest_version_unstable_error(spec: &MessageSpec) -> (r: Option<&'static str>)
    ensures
        match unstable_problem(*spec) {
            Some(m) => r matches Some(x) && x@ == m,
            None => r is None,
        },
{
    if !spec.latest_version_unstable {
        return None;
    }
    if spec.message_type != MessageType::Request {
        return Some("latestVersionUnstable on a message that is not a request");
    }
    if spec.valid_versions.is_empty() {
        return Some("latestVersionUnstable with empty validVersions");
    }
    if spec.valid_versions.max == i16::MAX {
        return Some("latestVersionUnstable with open-ended validVersions");
    }
    None
}

/// Checks the fields `fields` at path `ctx`, and their inline fields at
/// deeper paths, and reports the first problem.
pub fn validate_fields(fields: &[FieldSpec], flexible: FlexibleVersions, ctx: &str) -> (r: Result<
    (),
    ValidateError,
>)
    ensures
        reports(r, fields_error(fields@, flexible, ctx@)),
    decreases fields@,
{
    let mut i: usize = 0;
    assert(fields@.skip(0) =~= fields@);
    while i < fields.len()
        invariant
            i <= fields@.len(),
            fields_error(fields@, flexible, ctx@) == fields_error(
                fields@.skip(i as int),
                flexible,
                ctx@,
            ),
        decreases fields@.len() - i,
    {
        let f = &fields[i];
        proof {
            reveal_with_fuel(fields_error, 2);
        }
        assert(fields@.skip(i as int)[0] == fields@[i as int]);
        assert(fields@.skip(i as int).drop_first() =~= fields@.skip(i + 1));
        let context = path(ctx, f.name.as_str());
        if !is_type_known(f.field_type.as_str()) {
            return unsupported("unknown field type", context);
        }
        if f.tag.is_some() && !is_some_flexible(flexible) {
            return unsupported("tagged field on non-flexible message", context);
        }
        if f.tag.is_some() {
            let tagged = match f.tagged_versions {
                Some(t) => t,
                None => f.versions,
            };
            if tagged.max != i16::MAX {
                return unsupported("taggedVersions is not open-ended", context);
            }
            if tagged.min < f.versions.min || f.versions.max != i16::MAX {
                return unsupported("taggedVersions is not a subset of versions", context);
            }
        }
        if f.fields.len() > 0 {
            proof {
                assert(decreases_to!(fields@ => fields@[i as int]));
            }
            let r = validate_fields(f.fields.as_slice(), flexible, context.as_str());
            if r.is_err() {
                return r;
            }
        }
        i = i + 1;
    }
    assert(fields@.skip(i as int) =~= Seq::<FieldSpec>::empty());
    Ok(())
}

/// Some version of the message is flexible.
pub fn is_some_flexible(f: FlexibleVersions) -> (r: bool)
    ensures
        r == some_flexible(f),
{
    match f {
        FlexibleVersions::Range(_) => true,
        FlexibleVersions::Never => false,
    }
}

/// The field types of Kafka's schemas that the generator supports: the
/// primitives of the Kafka 4.2.0 schema corpus, and `uint32`.
pub open spec fn documented_primitives() -> Seq<Seq<char>> {
    seq![
        "bool"@,
        "int8"@,
        "int16"@,
        "int32"@,
        "int64"@,
        "uint16"@,
        "uint32"@,
        "float64"@,
        "string"@,
        "bytes"@,
        "uuid"@,
        "records"@,
    ]
}

/// Every documented primitive type, and an array of it, is a field type that
/// the generator understands, so a schema whose fields use only these types
/// passes the type check of [`validate`] at every depth.
pub proof fn lemma_documented_primitives_are_known(i: int)
    requires
        0 <= i < documented_primitives().len(),
    ensures
        known_primitive(documented_primitives()[i]),
        type_known(documented_primitives()[i]),
        type_known("[]"@ + documented_primitives()[i]),
{
    let t = documented_primitives()[i];
    let a = "[]"@ + t;
    reveal_strlit("[]");
    assert(is_array_type(a));
    assert(a.skip(2) =~= t);
    if is_array_type(t) {
        reveal_strlit("bool");
        reveal_strlit("int8");
        reveal_strlit("int16");
        reveal_strlit("int32");
        reveal_strlit("int64");
        reveal_strlit("uint16");
        reveal_strlit("uint32");
        reveal_strlit("float64");
        reveal_strlit("string");
        reveal_strlit("bytes");
        reveal_strlit("uuid");
        reveal_strlit("records");
    }
}

} // verus!
