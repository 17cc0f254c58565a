use gen_mcp::config_schema::{
    deref_schema, describe_schema, instance_type_to_string, render_markdown_docs_from_schema,
    InstanceType, InstanceTypes, ObjectDoc, RootSchemaDoc, SchemaDoc, SchemaObjectDoc,
};
use gen_mcp::json::JsonValue;

fn obj() -> SchemaObjectDoc {
    SchemaObjectDoc {
        description: None,
        instance_type: None,
        enum_values: None,
        any_of: None,
        has_number: false,
        has_string: false,
        has_array: false,
        object: None,
        reference: None,
    }
}

fn typed(t: InstanceType, description: Option<&str>) -> SchemaDoc {
    let mut o = obj();
    o.instance_type = Some(InstanceTypes::Single(t));
    o.description = description.map(|d| d.to_string());
    SchemaDoc::Object(o)
}

fn reference(name: &str) -> SchemaDoc {
    let mut o = obj();
    o.reference = Some(format!("#/definitions/{name}"));
    SchemaDoc::Object(o)
}

fn sample_root() -> RootSchemaDoc {
    let mut auth_ref = obj();
    auth_ref.any_of = Some(vec![reference("WebSocketAuth"), typed(InstanceType::Null, None)]);
    auth_ref.description = Some("  WebSocket authentication  ".to_string());

    let mut signal = obj();
    signal.enum_values = Some(vec![
        JsonValue::String("SIGTERM".to_string()),
        JsonValue::Null,
        JsonValue::String("SIGINT".to_string()),
    ]);
    signal.has_string = true;

    let mut secret = obj();
    secret.instance_type = Some(InstanceTypes::Vec(vec![InstanceType::String, InstanceType::Null]));

    let mut auth_def = obj();
    auth_def.instance_type = Some(InstanceTypes::Single(InstanceType::Object));
    auth_def.object = Some(ObjectDoc {
        properties: vec![
            ("enabled".to_string(), typed(InstanceType::Boolean, Some("Enable JWT"))),
            ("secret".to_string(), SchemaDoc::Object(secret)),
            ("signal".to_string(), SchemaDoc::Object(signal)),
        ],
        required: vec!["enabled".to_string()],
    });

    let mut root = obj();
    root.instance_type = Some(InstanceTypes::Single(InstanceType::Object));
    root.object = Some(ObjectDoc {
        properties: vec![
            ("expose_runtime_overrides".to_string(), typed(InstanceType::Boolean, Some("Advertise knobs"))),
            ("websocket_auth".to_string(), SchemaDoc::Object(auth_ref)),
        ],
        required: vec![],
    });
    RootSchemaDoc {
        schema: root,
        definitions: vec![("WebSocketAuth".to_string(), SchemaDoc::Object(auth_def))],
    }
}

#[test]
fn generated_docs_describe_fields_and_definitions() {
    let docs = render_markdown_docs_from_schema(&sample_root());
    let expected = [
        "# gen-mcp Configuration (generated)\n\n",
        "This documentation is generated from the Rust configuration structs (field doc comments + schema), so it stays in sync with the running binary.\n\n",
        "## Quick commands\n\n",
        "- `gen-mcp config schema` (generated JSON Schema)\n",
        "- `gen-mcp config example` (minimal example TOML)\n",
        "- `gen-mcp config docs` (generated docs)\n",
        "- `gen-mcp config docs --curated` (hand-written docs)\n\n",
        "## Top-level keys\n\n",
        "- **`expose_runtime_overrides`** (Optional, `bool`): Advertise knobs\n",
        "- **`websocket_auth`** (Optional, `object | null`): WebSocket authentication\n",
        "\n## Definitions\n\n",
        "### `WebSocketAuth`\n\n",
        "- **`enabled`** (Required, `bool`): Enable JWT\n",
        "- **`secret`** (Optional, `string | null`)\n",
        "- **`signal`** (Optional, `string`)\n",
        "  - **Allowed values**: `SIGTERM`, `SIGINT`\n",
        "\n",
    ]
    .join("");
    assert_eq!(docs, expected);
}

#[test]
fn references_resolve_to_definitions() {
    let root = sample_root();
    let r = reference("WebSocketAuth");
    assert!(matches!(deref_schema(&root, &r), SchemaDoc::Object(o) if o.object.is_some()));
    let missing = reference("Nope");
    assert!(matches!(deref_schema(&root, &missing), SchemaDoc::Object(o) if o.reference.is_some()));
    let (ty, desc, vals) = describe_schema(&root, &r, 1);
    assert_eq!((ty.as_str(), desc, vals.len()), ("object", None, 0));
}

#[test]
fn boolean_schemas_and_fallbacks() {
    let root = sample_root();
    assert_eq!(describe_schema(&root, &SchemaDoc::Bool(true), 0).0, "any");
    assert_eq!(describe_schema(&root, &SchemaDoc::Bool(false), 0).0, "never");
    assert_eq!(describe_schema(&root, &SchemaDoc::Object(obj()), 0).0, "any");
    let mut arr = obj();
    arr.has_array = true;
    arr.description = Some("   ".to_string());
    let (ty, desc, _) = describe_schema(&root, &SchemaDoc::Object(arr), 0);
    assert_eq!((ty.as_str(), desc), ("array", None));
    assert_eq!(
        instance_type_to_string(&InstanceTypes::Vec(vec![InstanceType::Integer, InstanceType::Null])),
        "integer | null"
    );
}

#[test]
fn a_reference_cycle_is_cut_off() {
    // Definition A is anyOf [A]: following it forever would never end.
    let mut a = obj();
    a.any_of = Some(vec![reference("A")]);
    let root = RootSchemaDoc { schema: obj(), definitions: vec![("A".to_string(), SchemaDoc::Object(a))] };
    let (ty, _, _) = describe_schema(&root, &reference("A"), 1);
    assert_eq!(ty, "any");
}

#[test]
fn root_without_object_is_reported() {
    let root = RootSchemaDoc { schema: obj(), definitions: vec![] };
    let docs = render_markdown_docs_from_schema(&root);
    assert!(docs.contains("## Top-level keys\n\n_Unexpected: root schema is not an object._\n\n## Definitions\n\n"));
    assert!(docs.ends_with("## Definitions\n\n"));
}
