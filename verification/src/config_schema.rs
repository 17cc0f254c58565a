//! The configuration helpers' texts: an example configuration, the
//! hand-written description of the file format, and the description rendered
//! from the configuration's JSON Schema.

use vstd::prelude::*;
use crate::json::{JsonValue, JsonView};
use crate::service::lookup;
use crate::config::opt_str_view;
use crate::text::{
    chars_of, contains_name, join_seqs, join_strings, spec_trim, str_eq, string_from_chars,
    strs_view, trim_whitespace,
};

verus! {

/// A minimal, modern, copy-pasteable example config.
///
/// It leans on group defaults instead of repeating the per-tool override knobs,
/// and showcases the modern parameter features: `type`, `default`, `enum`,
/// numeric `minimum`, a flagged param, and a tool with `output = "json"`.
pub const EXAMPLE_CONFIG_TOML: &'static str = r#"# gen-mcp example config. Generate with: gen-mcp config example > config.toml
#
# Tools are grouped; the group's `default_*` keys supply timeouts/output limits
# so individual tools stay clean. See `gen-mcp config schema` for every field.

# Advertise the runtime-override knobs (timeout, stop_after, output_*_lines,
# stderr_lines) in each tool's input schema. They are honored either way; this
# only controls whether clients see them. Defaults to false.
expose_runtime_overrides = false

[groups.files]
default_timeout = 30
default_timeout_max = 300
default_output_head_lines = 100
default_output_tail_lines = 100

  # A tool with a typed, defaulted, flagged parameter.
  [[groups.files.tools]]
  name = "head"
  description = "Print the first lines of a file"
  command = "/usr/bin/head"
  arg_order = ["lines", "file"]

    [groups.files.tools.parameters.lines]
    description = "Number of lines to print"
    type = "integer"      # string | integer | number | boolean | enum (default: inferred)
    default = 10
    minimum = 1
    flag = "-n"           # emitted as: -n <lines>
    takes_value = true

    [groups.files.tools.parameters.file]
    description = "Path to the file to read"
    required = true       # positional argument

  # A tool that returns structured JSON (parsed from stdout) and uses an enum.
  [[groups.files.tools]]
  name = "list"
  description = "List items in a known format"
  command = "/usr/bin/mylister"
  output = "json"         # text (default) | json
  arg_order = ["format"]

    [groups.files.tools.parameters.format]
    description = "Output format"
    type = "enum"
    enum = ["json", "yaml"]
    default = "json"
    flag = "--format"
    takes_value = true
"#;

/// Markdown documentation for the configuration file format (hand-written).
pub const CURATED_DOCS: &'static str = r#"# gen-mcp Configuration Schema

## Overview

The gen-mcp configuration file uses TOML format and organizes tools into groups.

## Top-level keys

- `expose_runtime_overrides` (optional, boolean): Advertise the runtime-override
  knobs (`timeout`, `stop_after`, `output_head_lines`, `output_tail_lines`,
  `stderr_lines`) in every tool's input schema. Defaults to `false`. The
  overrides are always honored when a client sends them; this only controls
  whether they appear in the schema.

## Group Configuration

Each group can have default values that apply to all tools in that group:

- `default_timeout`: Default timeout in seconds
- `default_timeout_max`: Maximum timeout (LLM cannot exceed)
- `default_stop_after`: Default stop_after duration (0 = disabled)
- `default_stop_after_max`: Maximum stop_after duration
- `default_termination_signal`: Default signal (SIGTERM or SIGINT)
- `default_termination_grace_period`: Grace period in seconds
- `default_output_head_lines`: Default head lines limit
- `default_output_tail_lines`: Default tail lines limit
- `default_output_head_lines_max`: Maximum head lines
- `default_output_tail_lines_max`: Maximum tail lines
- `default_stderr_lines`: Default stderr lines to capture
- `default_stderr_lines_max`: Maximum stderr lines

## Tool Configuration

Each tool can override group defaults:

- `name`: Base tool name (final name: `{group_name}_{tool_name}`)
- `description`: Description for LLM
- `command`: Command to execute
- `output` (optional): `text` (default — classic "Exit code / STDOUT / STDERR" block) or `json` (parse stdout as JSON on success and return it as `structuredContent`; falls back to text on a parse failure or non-zero exit)
- `arg_order` (optional): Explicit parameter evaluation order when building CLI args
- `timeout`, `timeout_max`: Override group timeout settings
- `stop_after`, `stop_after_max`: Override group stop_after settings
- `termination_signal`: Override group termination signal
- `termination_grace_period`: Override group grace period
- `output_head_lines`, `output_head_lines_max`: Override output limits
- `output_tail_lines`, `output_tail_lines_max`: Override output limits
- `stderr_lines`, `stderr_lines_max`: Override stderr limits
- `parameters`: Tool-specific parameters

## Parameters

Each parameter has:
- `description`: Parameter description
- `type` (optional): JSON Schema type advertised to the client — `string`, `integer`, `number`, `boolean`, or `enum`. Defaults to inference (flag-only → `boolean`, otherwise `string`). Orthogonal to the CLI emission knobs below.
- `enum` (optional, list of strings): Allowed values; emits a JSON Schema `enum` constraint (use with `type = "enum"`)
- `default` (optional): Default value advertised in the schema
- `minimum` / `maximum` (optional, numbers): Numeric bounds advertised in the schema
- `example`: Example value (optional)
- `flag` (optional): Emit this CLI flag when the parameter is provided (e.g. `-r`, `-n`)
- `takes_value` (optional, boolean): If `true`, emit `flag` followed by the parameter value (e.g. `-n 50`)
- `required`: Whether parameter is required (default: false)
- `split_args` (optional, boolean): If `true`, split a positional parameter's value into multiple arguments using shell-style parsing (quotes, escapes, multi-line). Defaults to `false` (the value is passed through as a single argument). Only meaningful when `flag` is not set.

## WebSocket Authentication Configuration

Optional `[websocket_auth]` section for WebSocket mode:

- `enabled` (optional, boolean): Enable JWT authentication. Default: `true` if section exists
- `secret` (optional, string): JWT secret key for token validation. Required if `enabled = true`

**To disable authentication entirely**, omit the `[websocket_auth]` section from your configuration file.

**CLI Override**: The `--jwt-secret` CLI option takes precedence over the config file setting.
"#;

/// The example TOML configuration file.
pub fn output_example_config() -> (r: String)
    ensures
        r@ == EXAMPLE_CONFIG_TOML@,
{
    output_generated_example_config()
}

/// A minimal, modern TOML configuration file: a couple of realistic tools that
/// lean on group defaults and showcase typed, defaulted, enumerated and
/// flagged parameters and the JSON output format.
pub fn output_generated_example_config() -> (r: String)
    ensures
        r@ == EXAMPLE_CONFIG_TOML@,
{
    String::from_str(EXAMPLE_CONFIG_TOML)
}

/// The hand-written Markdown documentation of the configuration format.
pub fn output_docs_curated() -> (r: String)
    ensures
        r@ == CURATED_DOCS@,
{
    String::from_str(CURATED_DOCS)
}


/// A JSON Schema instance type.
#[derive(Clone, Copy, Debug, PartialEq, Eq, Structural)]
pub enum InstanceType {
    Null,
    Boolean,
    Object,
    Array,
    Number,
    String,
    Integer,
}

/// The `type` of a schema: one instance type or several.
#[derive(Debug)]
pub enum InstanceTypes {
    Single(InstanceType),
    Vec(Vec<InstanceType>),
}

/// A JSON Schema, as far as the documentation reads it.
#[derive(Debug)]
pub enum SchemaDoc {
    /// `true` (anything) or `false` (nothing).
    Bool(bool),
    Object(SchemaObjectDoc),
}

/// A schema object, as far as the documentation reads it.
#[derive(Debug)]
pub struct SchemaObjectDoc {
    /// The metadata's description.
    pub description: Option<String>,
    pub instance_type: Option<InstanceTypes>,
    pub enum_values: Option<Vec<JsonValue>>,
    /// The `anyOf` subschemas.
    pub any_of: Option<Vec<SchemaDoc>>,
    /// Whether number, string and array validation is present.
    pub has_number: bool,
    pub has_string: bool,
    pub has_array: bool,
    /// The object validation: properties in order, and the required names.
    pub object: Option<ObjectDoc>,
    /// A `$ref`.
    pub reference: Option<String>,
}

/// The object part of a schema.
#[derive(Debug)]
pub struct ObjectDoc {
    pub properties: Vec<(String, SchemaDoc)>,
    pub required: Vec<String>,
}

/// A root schema: the schema itself and its named definitions.
#[derive(Debug)]
pub struct RootSchemaDoc {
    pub schema: SchemaObjectDoc,
    pub definitions: Vec<(String, SchemaDoc)>,
}

/// The name shown for an instance type.
pub open spec fn instance_type_label(t: InstanceType) -> Seq<char> {
    match t {
        InstanceType::Null => "null"@,
        InstanceType::Boolean => "bool"@,
        InstanceType::Object => "object"@,
        InstanceType::Array => "array"@,
        InstanceType::Number => "number"@,
        InstanceType::String => "string"@,
        InstanceType::Integer => "integer"@,
    }
}

/// The names shown for a `type`: several are separated by ` | `.
pub open spec fn types_text(it: InstanceTypes) -> Seq<char> {
    match it {
        InstanceTypes::Single(t) => instance_type_label(t),
        InstanceTypes::Vec(v) => join_seqs(v@.map_values(|t: InstanceType| instance_type_label(t)), " | "@),
    }
}

/// The definitions by name, as plain names.
pub open spec fn defs_view(defs: Seq<(String, SchemaDoc)>) -> Seq<(Seq<char>, SchemaDoc)> {
    defs.map_values(|d: (String, SchemaDoc)| (d.0@, d.1))
}

/// The definition a schema refers to: an object whose `$ref` is
/// `#/definitions/NAME` with `NAME` defined.
pub open spec fn deref_target(root: RootSchemaDoc, s: SchemaDoc) -> Option<SchemaDoc> {
    match s {
        SchemaDoc::Object(o) => match o.reference {
            Some(r) => if r@.len() >= 14 && r@.take(14) == "#/definitions/"@ {
                lookup(defs_view(root.definitions@), r@.skip(14))
            } else {
                None
            },
            None => None,
        },
        SchemaDoc::Bool(_) => None,
    }
}

/// The schema a reference stands for: its definition when it has one, else itself.
pub open spec fn spec_deref(root: RootSchemaDoc, s: SchemaDoc) -> SchemaDoc {
    match deref_target(root, s) {
        Some(d) => d,
        None => s,
    }
}

/// The string values among `vals`, in order.
pub open spec fn string_values(vals: Seq<JsonView>) -> Seq<Seq<char>>
    decreases vals.len(),
{
    if vals.len() == 0 {
        seq![]
    } else {
        let r = string_values(vals.drop_last());
        match vals.last() {
            JsonView::String(s) => r.push(s),
            _ => r,
        }
    }
}

/// `s` with later repetitions left out.
pub open spec fn unique_in_order(s: Seq<Seq<char>>) -> Seq<Seq<char>>
    decreases s.len(),
{
    if s.len() == 0 {
        seq![]
    } else {
        let u = unique_in_order(s.drop_last());
        if u.contains(s.last()) {
            u
        } else {
            u.push(s.last())
        }
    }
}

/// A schema's type, description and allowed values.
pub type Description = (Seq<char>, Option<Seq<char>>, Seq<Seq<char>>);

pub open spec fn bool_description(b: bool) -> Description {
    (if b {
        "any"@
    } else {
        "never"@
    }, None, seq![])
}

/// The types of the first `n` alternatives of `members`.
pub open spec fn member_types(root: RootSchemaDoc, members: Seq<SchemaDoc>, jumps: nat, n: int) -> Seq<Seq<char>>
    decreases jumps, members,
{
    Seq::new(
        n as nat,
        |i: int|
            if 0 <= i < members.len() {
                describe_spec(root, members[i], jumps).0
            } else {
                seq![]
            },
    )
}

/// How a schema is described: through its reference to a definition, if any,
/// then by its own keys. Following a reference uses up one of `jumps`; a
/// chain of references longer than that can only go round a cycle, and is
/// described as `any`.
pub open spec fn describe_spec(root: RootSchemaDoc, s: SchemaDoc, jumps: nat) -> Description
    decreases jumps, s,
{
    match deref_target(root, s) {
        Some(d) => if jumps == 0 {
            bool_description(true)
        } else {
            match d {
                SchemaDoc::Bool(b) => bool_description(b),
                SchemaDoc::Object(o) => describe_object_spec(root, o, (jumps - 1) as nat),
            }
        },
        None => match s {
            SchemaDoc::Bool(b) => bool_description(b),
            SchemaDoc::Object(o) => describe_object_spec(root, o, jumps),
        },
    }
}

/// A schema object's type, description and allowed values: its `type` when
/// given, else `object`, `array`, `string` or `number` by the validation it
/// carries, else the distinct types of its `anyOf` alternatives, else `any`;
/// its trimmed description unless empty; and its string enum values.
pub open spec fn describe_object_spec(root: RootSchemaDoc, o: SchemaObjectDoc, jumps: nat) -> Description
    decreases jumps, o,
{
    let desc = match o.description {
        Some(d) => if spec_trim(d@).len() > 0 {
            Some(spec_trim(d@))
        } else {
            None
        },
        None => None,
    };
    let enum_vals = match o.enum_values {
        Some(v) => string_values(v@.map_values(|x: JsonValue| x@)),
        None => seq![],
    };
    let ty = if o.instance_type is Some {
        types_text(o.instance_type->0)
    } else if o.object is Some {
        "object"@
    } else if o.has_array {
        "array"@
    } else if o.has_string {
        "string"@
    } else if o.has_number {
        "number"@
    } else if o.any_of is Some {
        let members = o.any_of->0@;
        join_seqs(unique_in_order(member_types(root, members, jumps, members.len() as int)), " | "@)
    } else {
        "any"@
    };
    (ty, desc, enum_vals)
}


/// A computed description, as plain values.
pub open spec fn description_view(d: (String, Option<String>, Vec<String>)) -> Description {
    (d.0@, opt_str_view(d.1), strs_view(d.2@))
}

/// The name shown for an instance type.
pub fn instance_type_one_to_string(t: InstanceType) -> (r: String)
    ensures
        r@ == instance_type_label(t),
{
    let s = match t {
        InstanceType::Null => "null",
        InstanceType::Boolean => "bool",
        InstanceType::Object => "object",
        InstanceType::Array => "array",
        InstanceType::Number => "number",
        InstanceType::String => "string",
        InstanceType::Integer => "integer",
    };
    String::from_str(s)
}

/// The names shown for a `type`, several joined by ` | `.
pub fn instance_type_to_string(it: &InstanceTypes) -> (r: String)
    ensures
        r@ == types_text(*it),
{
    match it {
        InstanceTypes::Single(t) => instance_type_one_to_string(*t),
        InstanceTypes::Vec(v) => {
            let mut names: Vec<String> = Vec::new();
            let mut i: usize = 0;
            while i < v.len()
                invariant
                    i <= v@.len(),
                    strs_view(names@) == v@.take(i as int).map_values(
                        |t: InstanceType| instance_type_label(t),
                    ),
                decreases v@.len() - i,
            {
                let ghost prev = names@;
                names.push(instance_type_one_to_string(v[i]));
                proof {
                    assert(v@.take(i + 1) == v@.take(i as int).push(v@[i as int]));
                    assert(strs_view(names@) =~= strs_view(prev).push(instance_type_label(v@[i as int])));
                    assert(v@.take(i + 1).map_values(|t: InstanceType| instance_type_label(t))
                        =~= v@.take(i as int).map_values(|t: InstanceType| instance_type_label(t)).push(
                        instance_type_label(v@[i as int]),
                    ));
                }
                i = i + 1;
            }
            proof {
                assert(v@.take(v@.len() as int) == v@);
            }
            join_strings(&names, " | ")
        },
    }
}

/// The definition named `name`.
fn find_definition<'a>(defs: &'a Vec<(String, SchemaDoc)>, name: &str) -> (r: Option<&'a SchemaDoc>)
    ensures
        match r {
            Some(d) => lookup(defs_view(defs@), name@) == Some(*d),
            None => lookup(defs_view(defs@), name@) is None,
        },
{
    let ghost dv = defs_view(defs@);
    let mut i: usize = 0;
    proof {
        assert(dv.skip(0) == dv);
    }
    while i < defs.len()
        invariant
            dv == defs_view(defs@),
            i <= defs@.len(),
            lookup(dv, name@) == lookup(dv.skip(i as int), name@),
        decreases defs@.len() - i,
    {
        proof {
            assert(dv.skip(i as int).drop_first() == dv.skip(i + 1));
            assert(dv.skip(i as int)[0] == (defs@[i as int].0@, defs@[i as int].1));
        }
        if str_eq(defs[i].0.as_str(), name) {
            return Some(&defs[i].1);
        }
        i = i + 1;
    }
    None
}

/// The definition a schema refers to, if it is a reference to one.
fn deref_target_of<'a>(root: &'a RootSchemaDoc, schema: &'a SchemaDoc) -> (r: Option<&'a SchemaDoc>)
    ensures
        match r {
            Some(d) => deref_target(*root, *schema) == Some(*d),
            None => deref_target(*root, *schema) is None,
        },
{
    match schema {
        SchemaDoc::Object(obj) => match &obj.reference {
            Some(reference) => {
                let cs = chars_of(reference.as_str());
                if cs.len() < 14 {
                    return None;
                }
                let prefix = string_from_chars(&cs, 0, 14);
                if !str_eq(prefix.as_str(), "#/definitions/") {
                    proof {
                        assert(prefix@ == reference@.take(14));
                    }
                    return None;
                }
                let name = string_from_chars(&cs, 14, cs.len());
                proof {
                    assert(prefix@ == reference@.take(14));
                    assert(name@ == reference@.skip(14));
                }
                find_definition(&root.definitions, name.as_str())
            },
            None => None,
        },
        SchemaDoc::Bool(_) => None,
    }
}

/// The schema a reference stands for: the definition `#/definitions/NAME`
/// names, when there is one; any other schema stands for itself.
pub fn deref_schema<'a>(root: &'a RootSchemaDoc, schema: &'a SchemaDoc) -> (r: &'a SchemaDoc)
    ensures
        *r == spec_deref(*root, *schema),
{
    match deref_target_of(root, schema) {
        Some(d) => d,
        None => schema,
    }
}

fn bool_describe(b: bool) -> (r: (String, Option<String>, Vec<String>))
    ensures
        description_view(r) == bool_description(b),
{
    let r = (String::from_str(if b {
        "any"
    } else {
        "never"
    }), None, Vec::new());
    proof {
        assert(strs_view(r.2@) =~= Seq::<Seq<char>>::empty());
    }
    r
}

/// A schema's type, description and allowed values (see [`describe_spec`]).
pub fn describe_schema(root: &RootSchemaDoc, schema: &SchemaDoc, jumps: usize) -> (r: (
    String,
    Option<String>,
    Vec<String>,
))
    ensures
        description_view(r) == describe_spec(*root, *schema, jumps as nat),
    decreases jumps, schema,
{
    match deref_target_of(root, schema) {
        Some(d) => {
            if jumps == 0 {
                bool_describe(true)
            } else {
                match d {
                    SchemaDoc::Bool(b) => bool_describe(*b),
                    SchemaDoc::Object(o) => describe_schema_object(root, o, jumps - 1),
                }
            }
        },
        None => match schema {
            SchemaDoc::Bool(b) => bool_describe(*b),
            SchemaDoc::Object(o) => describe_schema_object(root, o, jumps),
        },
    }
}

/// The string values among `vals`.
fn string_enum_values(vals: &Vec<JsonValue>) -> (r: Vec<String>)
    ensures
        strs_view(r@) == string_values(vals@.map_values(|x: JsonValue| x@)),
{
    let ghost vv = vals@.map_values(|x: JsonValue| x@);
    let mut r: Vec<String> = Vec::new();
    let mut i: usize = 0;
    while i < vals.len()
        invariant
            vv == vals@.map_values(|x: JsonValue| x@),
            i <= vals@.len(),
            strs_view(r@) == string_values(vv.take(i as int)),
        decreases vals@.len() - i,
    {
        proof {
            assert(vv.take(i + 1).drop_last() == vv.take(i as int));
            assert(vv.take(i + 1).last() == vals@[i as int]@);
        }
        let ghost prev = r@;
        match vals[i].as_str() {
            Some(s) => {
                r.push(String::from_str(s));
                proof {
                    assert(strs_view(r@) =~= strs_view(prev).push(s@));
                }
            },
            None => {},
        }
        i = i + 1;
    }
    proof {
        assert(vv.take(vals@.len() as int) == vv);
    }
    r
}

/// A schema object's type, description and allowed values (see
/// [`describe_object_spec`]).
pub fn describe_schema_object(root: &RootSchemaDoc, obj: &SchemaObjectDoc, jumps: usize) -> (r: (
    String,
    Option<String>,
    Vec<String>,
))
    ensures
        description_view(r) == describe_object_spec(*root, *obj, jumps as nat),
    decreases jumps, obj,
{
    let desc: Option<String> = match &obj.description {
        Some(d) => {
            let t = trim_whitespace(d.as_str());
            if t.as_str().is_empty() {
                None
            } else {
                Some(t)
            }
        },
        None => None,
    };
    let enum_vals: Vec<String> = match &obj.enum_values {
        Some(v) => string_enum_values(v),
        None => {
            let e: Vec<String> = Vec::new();
            proof {
                assert(strs_view(e@) =~= Seq::<Seq<char>>::empty());
            }
            e
        },
    };
    let ty: String = if let Some(it) = &obj.instance_type {
        instance_type_to_string(it)
    } else if obj.object.is_some() {
        String::from_str("object")
    } else if obj.has_array {
        String::from_str("array")
    } else if obj.has_string {
        String::from_str("string")
    } else if obj.has_number {
        String::from_str("number")
    } else if let Some(any_of) = &obj.any_of {
        let ghost members = any_of@;
        let mut parts: Vec<String> = Vec::new();
        let mut i: usize = 0;
        while i < any_of.len()
            invariant
                members == any_of@,
                obj.any_of == Some(*any_of),
                i <= members.len(),
                strs_view(parts@) == unique_in_order(member_types(*root, members, jumps as nat, i as int)),
            decreases members.len() - i,
        {
            proof {
                assert(decreases_to!(obj => obj.any_of));
                assert(decreases_to!(obj.any_of => obj.any_of->0));
                assert(decreases_to!(obj.any_of->0 => obj.any_of->0@));
                assert(decreases_to!(obj.any_of->0@ => obj.any_of->0@[i as int]));
            }
            let (t, _, _) = describe_schema(root, &any_of[i], jumps);
            proof {
                let mt = member_types(*root, members, jumps as nat, i + 1);
                assert(mt.drop_last() =~= member_types(*root, members, jumps as nat, i as int));
                assert(mt.last() == t@);
            }
            if !contains_name(&parts, t.as_str()) {
                let ghost prev = parts@;
                parts.push(t);
                proof {
                    assert(strs_view(parts@) =~= strs_view(prev).push(t@));
                }
            }
            i = i + 1;
        }
        let joined = join_strings(&parts, " | ");
        proof {
            assert(obj.any_of->0@ == members);
        }
        joined
    } else {
        String::from_str("any")
    };
    (ty, desc, enum_vals)
}

/// The Markdown line(s) describing one field.
pub open spec fn field_text(root: RootSchemaDoc, name: Seq<char>, schema: SchemaDoc, required: bool, jumps: nat) -> Seq<char> {
    let d = describe_spec(root, schema, jumps);
    "- **`"@ + name + "`** ("@ + (if required {
        "Required"@
    } else {
        "Optional"@
    }) + ", `"@ + d.0 + "`)"@ + (match d.1 {
        Some(x) => ": "@ + x,
        None => seq![],
    }) + "\n"@ + (if d.2.len() > 0 {
        "  - **Allowed values**: "@ + join_seqs(d.2.map_values(|v: Seq<char>| "`"@ + v + "`"@), ", "@)
            + "\n"@
    } else {
        seq![]
    })
}

/// The Markdown lines of the fields `props`, in order.
pub open spec fn fields_text(
    root: RootSchemaDoc,
    props: Seq<(String, SchemaDoc)>,
    required: Seq<Seq<char>>,
    jumps: nat,
) -> Seq<char>
    decreases props.len(),
{
    if props.len() == 0 {
        seq![]
    } else {
        fields_text(root, props.drop_last(), required, jumps) + field_text(
            root,
            props.last().0@,
            props.last().1,
            required.contains(props.last().0@),
            jumps,
        )
    }
}

/// The Markdown lines of the fields of a (possibly referenced) object schema.
pub open spec fn object_fields_text(root: RootSchemaDoc, schema: SchemaDoc, jumps: nat) -> Seq<char> {
    match spec_deref(root, schema) {
        SchemaDoc::Object(o) => match o.object {
            Some(ov) => if ov.properties@.len() == 0 {
                "_No fields._\n"@
            } else {
                fields_text(root, ov.properties@, strs_view(ov.required@), jumps)
            },
            None => "_Not an object schema._\n"@,
        },
        SchemaDoc::Bool(_) => "_Not an object schema._\n"@,
    }
}

/// The section of definition `name`, when the schema defines it.
pub open spec fn definition_section(root: RootSchemaDoc, name: Seq<char>, jumps: nat) -> Seq<char> {
    match lookup(defs_view(root.definitions@), name) {
        Some(s) => "### `"@ + name + "`\n\n"@ + object_fields_text(root, s, jumps) + "\n"@,
        None => seq![],
    }
}

pub open spec fn docs_preamble() -> Seq<char> {
    "# gen-mcp Configuration (generated)\n\n"@
        + "This documentation is generated from the Rust configuration structs (field doc comments + schema), so it stays in sync with the running binary.\n\n"@
        + "## Quick commands\n\n"@ + "- `gen-mcp config schema` (generated JSON Schema)\n"@
        + "- `gen-mcp config example` (minimal example TOML)\n"@
        + "- `gen-mcp config docs` (generated docs)\n"@
        + "- `gen-mcp config docs --curated` (hand-written docs)\n\n"@
}

/// The Markdown documentation of a configuration schema: the preamble, every
/// top-level key, then the `Group`, `Tool`, `Parameter` and `WebSocketAuth`
/// definitions. References are followed at most as many times in a row as
/// there are definitions.
pub open spec fn markdown_docs(root: RootSchemaDoc) -> Seq<char> {
    let jumps = root.definitions@.len();
    docs_preamble() + "## Top-level keys\n\n"@ + (match root.schema.object {
        Some(ov) => fields_text(root, ov.properties@, strs_view(ov.required@), jumps),
        None => "_Unexpected: root schema is not an object._\n"@,
    }) + "\n## Definitions\n\n"@ + definition_section(root, "Group"@, jumps) + definition_section(
        root,
        "Tool"@,
        jumps,
    ) + definition_section(root, "Parameter"@, jumps) + definition_section(
        root,
        "WebSocketAuth"@,
        jumps,
    )
}

/// The values, each in backquotes, separated by `, `.
fn quoted_list(enum_vals: &Vec<String>) -> (r: String)
    ensures
        r@ == join_seqs(strs_view(enum_vals@).map_values(|v: Seq<char>| "`"@ + v + "`"@), ", "@),
{
    let mut quoted: Vec<String> = Vec::new();
    let mut i: usize = 0;
    while i < enum_vals.len()
        invariant
            i <= enum_vals@.len(),
            strs_view(quoted@) == strs_view(enum_vals@).take(i as int).map_values(
                |v: Seq<char>| "`"@ + v + "`"@,
            ),
        decreases enum_vals@.len() - i,
    {
        let mut q = String::from_str("`");
        q.append(enum_vals[i].as_str());
        q.append("`");
        let ghost prev = quoted@;
        quoted.push(q);
        proof {
            let ev = strs_view(enum_vals@);
            assert(ev.take(i + 1) == ev.take(i as int).push(ev[i as int]));
            assert(strs_view(quoted@) =~= strs_view(prev).push("`"@ + ev[i as int] + "`"@));
            assert(ev.take(i + 1).map_values(|v: Seq<char>| "`"@ + v + "`"@) =~= ev.take(
                i as int,
            ).map_values(|v: Seq<char>| "`"@ + v + "`"@).push("`"@ + ev[i as int] + "`"@));
        }
        i = i + 1;
    }
    proof {
        assert(strs_view(enum_vals@).take(enum_vals@.len() as int) == strs_view(enum_vals@));
    }
    join_strings(&quoted, ", ")
}

/// Append the description of field `name` to `out`.
pub fn render_field(
    out: &mut String,
    root: &RootSchemaDoc,
    name: &str,
    schema: &SchemaDoc,
    required: bool,
    jumps: usize,
)
    ensures
        final(out)@ == old(out)@ + field_text(*root, name@, *schema, required, jumps as nat),
{
    let (ty, desc, enum_vals) = describe_schema(root, schema, jumps);
    out.append("- **`");
    out.append(name);
    out.append("`** (");
    out.append(if required {
        "Required"
    } else {
        "Optional"
    });
    out.append(", `");
    out.append(ty.as_str());
    out.append("`)");
    if let Some(d) = &desc {
        out.append(": ");
        out.append(d.as_str());
    }
    out.append("\n");
    let ghost before_values = out@;
    if enum_vals.len() > 0 {
        out.append("  - **Allowed values**: ");
        let joined = quoted_list(&enum_vals);
        out.append(joined.as_str());
        out.append("\n");
    }
}

/// Append the descriptions of the fields `props` to `out`.
fn render_fields(
    out: &mut String,
    root: &RootSchemaDoc,
    props: &Vec<(String, SchemaDoc)>,
    required: &Vec<String>,
    jumps: usize,
)
    ensures
        final(out)@ == old(out)@ + fields_text(*root, props@, strs_view(required@), jumps as nat),
{
    let ghost start = out@;
    let mut i: usize = 0;
    proof {
        assert(props@.take(0) =~= Seq::<(String, SchemaDoc)>::empty());
        assert(start + fields_text(*root, props@.take(0), strs_view(required@), jumps as nat)
            =~= start);
    }
    while i < props.len()
        invariant
            i <= props@.len(),
            out@ == start + fields_text(*root, props@.take(i as int), strs_view(required@), jumps as nat),
        decreases props@.len() - i,
    {
        let req = contains_name(required, props[i].0.as_str());
        render_field(out, root, props[i].0.as_str(), &props[i].1, req, jumps);
        proof {
            let p = props@.take(i + 1);
            assert(p.drop_last() == props@.take(i as int));
            assert(p.last() == props@[i as int]);
        }
        i = i + 1;
    }
    proof {
        assert(props@.take(props@.len() as int) == props@);
    }
}

/// Append the fields of a (possibly referenced) object schema to `out`.
pub fn render_object_fields(out: &mut String, root: &RootSchemaDoc, schema: &SchemaDoc, jumps: usize)
    ensures
        final(out)@ == old(out)@ + object_fields_text(*root, *schema, jumps as nat),
{
    let schema = deref_schema(root, schema);
    match schema {
        SchemaDoc::Object(obj) => match &obj.object {
            Some(o) => {
                if o.properties.len() == 0 {
                    out.append("_No fields._\n");
                } else {
                    render_fields(out, root, &o.properties, &o.required, jumps);
                }
            },
            None => {
                out.append("_Not an object schema._\n");
            },
        },
        SchemaDoc::Bool(_) => {
            out.append("_Not an object schema._\n");
        },
    }
}

fn render_definition(out: &mut String, root: &RootSchemaDoc, name: &str, jumps: usize)
    ensures
        final(out)@ == old(out)@ + definition_section(*root, name@, jumps as nat),
{
    match find_definition(&root.definitions, name) {
        Some(schema) => {
            out.append("### `");
            out.append(name);
            out.append("`\n\n");
            render_object_fields(out, root, schema, jumps);
            out.append("\n");
        },
        None => {
            proof {
                assert(old(out)@ + Seq::<char>::empty() =~= old(out)@);
            }
        },
    }
}

/// The Markdown documentation of a configuration schema (see [`markdown_docs`]).
pub fn render_markdown_docs_from_schema(root: &RootSchemaDoc) -> (r: String)
    ensures
        r@ == markdown_docs(*root),
{
    let jumps = root.definitions.len();
    let mut out = String::new();
    out.append("# gen-mcp Configuration (generated)\n\n");
    out.append(
        "This documentation is generated from the Rust configuration structs (field doc comments + schema), so it stays in sync with the running binary.\n\n",
    );
    out.append("## Quick commands\n\n");
    out.append("- `gen-mcp config schema` (generated JSON Schema)\n");
    out.append("- `gen-mcp config example` (minimal example TOML)\n");
    out.append("- `gen-mcp config docs` (generated docs)\n");
    out.append("- `gen-mcp config docs --curated` (hand-written docs)\n\n");
    out.append("## Top-level keys\n\n");
    match &root.schema.object {
        Some(o) => {
            render_fields(&mut out, root, &o.properties, &o.required, jumps);
        },
        None => {
            out.append("_Unexpected: root schema is not an object._\n");
        },
    }
    out.append("\n## Definitions\n\n");
    render_definition(&mut out, root, "Group", jumps);
    render_definition(&mut out, root, "Tool", jumps);
    render_definition(&mut out, root, "Parameter", jumps);
    render_definition(&mut out, root, "WebSocketAuth", jumps);
    out
}
} // verus!
