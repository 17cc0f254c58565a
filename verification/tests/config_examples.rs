use gen_mcp::config_schema::{
    output_docs_curated, output_example_config, output_generated_example_config, CURATED_DOCS,
    EXAMPLE_CONFIG_TOML,
};

fn find_tool<'a>(tools: &'a [toml::Value], name: &str) -> &'a toml::Value {
    tools
        .iter()
        .find(|t| t.get("name").and_then(|n| n.as_str()) == Some(name))
        .unwrap_or_else(|| panic!("{name} tool"))
}

#[test]
fn test_example_config_parses_and_uses_new_fields() {
    // The published example must always parse.
    let config: toml::Table =
        toml::from_str(&output_example_config()).expect("example config must parse");
    assert_eq!(config.get("expose_runtime_overrides").and_then(|v| v.as_bool()), Some(false));

    let group = config
        .get("groups")
        .and_then(|g| g.get("files"))
        .expect("files group");
    let tools = group.get("tools").and_then(|t| t.as_array()).unwrap();
    let list = find_tool(tools, "list");
    assert_eq!(list.get("output").and_then(|o| o.as_str()), Some("json"));

    let head = find_tool(tools, "head");
    let lines = &head["parameters"]["lines"];
    assert_eq!(lines.get("type").and_then(|t| t.as_str()), Some("integer"));
    assert_eq!(lines.get("minimum").and_then(|m| m.as_integer()).map(|m| m as f64), Some(1.0));
    let format = &list["parameters"]["format"];
    let enum_vals: Vec<String> = format["enum"]
        .as_array()
        .unwrap()
        .iter()
        .map(|v| v.as_str().unwrap().to_string())
        .collect();
    assert_eq!(enum_vals, vec!["json".to_string(), "yaml".to_string()]);
}

#[test]
fn test_output_toml_example() {
    assert_eq!(output_example_config(), EXAMPLE_CONFIG_TOML);
}

#[test]
fn test_output_generated_example_config() {
    let text = output_generated_example_config();
    assert!(text.starts_with("# gen-mcp example config."));
    assert_eq!(text, EXAMPLE_CONFIG_TOML);
}

#[test]
fn test_output_markdown_docs_curated() {
    let docs = output_docs_curated();
    assert!(docs.starts_with("# gen-mcp Configuration Schema"));
    assert_eq!(docs, CURATED_DOCS);
}
