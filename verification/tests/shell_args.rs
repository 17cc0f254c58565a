use gen_mcp::error::{GenMcpError, McpError};
use gen_mcp::server::parse_shell_args;

#[test]
fn test_parse_shell_args_simple() {
    let args = parse_shell_args("hello world").unwrap();
    assert_eq!(args, vec!["hello", "world"]);
}

#[test]
fn test_parse_shell_args_single_quotes() {
    let args = parse_shell_args("hello 'world with spaces'").unwrap();
    assert_eq!(args, vec!["hello", "world with spaces"]);
}

#[test]
fn test_parse_shell_args_double_quotes() {
    let args = parse_shell_args(r#"hello "world with spaces""#).unwrap();
    assert_eq!(args, vec!["hello", "world with spaces"]);
}

#[test]
fn test_parse_shell_args_mixed_quotes() {
    let args = parse_shell_args(r#"hello 'single' "double" test"#).unwrap();
    assert_eq!(args, vec!["hello", "single", "double", "test"]);
}

#[test]
fn test_parse_shell_args_escaped_chars() {
    let args = parse_shell_args(r#"hello\ world test"#).unwrap();
    assert_eq!(args, vec!["hello world", "test"]);
}

#[test]
fn test_parse_shell_args_escaped_quotes() {
    let args = parse_shell_args(r#"hello \"world\" test"#).unwrap();
    assert_eq!(args, vec!["hello", "\"world\"", "test"]);
}

#[test]
fn test_parse_shell_args_multiline() {
    // Newlines are whitespace, so should split into separate arguments
    let multiline = "hello\nworld\ntest";
    let args = parse_shell_args(multiline).unwrap();
    assert_eq!(args, vec!["hello", "world", "test"]);
}

#[test]
fn test_parse_shell_args_heredoc_like() {
    // Heredoc-like with spaces should split
    let heredoc = "cat <<EOF\nhello world\nEOF";
    let args = parse_shell_args(heredoc).unwrap();
    // Should split on whitespace (including newlines)
    assert!(args.len() > 1);
    assert!(args.iter().any(|a| a.contains("<<EOF")));
}

#[test]
fn test_parse_shell_args_quoted_multiline() {
    let multiline = r#"hello "world
with
newlines" test"#;
    let args = parse_shell_args(multiline).unwrap();
    assert_eq!(args.len(), 3);
    assert_eq!(args[0], "hello");
    assert_eq!(args[1], "world\nwith\nnewlines");
    assert_eq!(args[2], "test");
}

#[test]
fn test_parse_shell_args_single_quote_preserves_backslash() {
    // In single quotes, backslash is literal
    let args = parse_shell_args(r#"hello 'world\test' foo"#).unwrap();
    assert_eq!(args, vec!["hello", "world\\test", "foo"]);
}

#[test]
fn test_parse_shell_args_double_quote_escapes() {
    // In double quotes, backslash escapes
    let args = parse_shell_args(r#"hello "world\ttest" foo"#).unwrap();
    assert_eq!(args, vec!["hello", "world\ttest", "foo"]);
}

#[test]
fn test_parse_shell_args_unclosed_quote() {
    let result = parse_shell_args(r#"hello "world"#);
    assert!(result.is_err());
}

#[test]
fn test_parse_shell_args_empty() {
    let args = parse_shell_args("").unwrap();
    assert_eq!(args, Vec::<String>::new());
}

#[test]
fn test_parse_shell_args_whitespace_only() {
    let args = parse_shell_args("   ").unwrap();
    assert_eq!(args, Vec::<String>::new());
}

#[test]
fn test_parse_shell_args_docker_like() {
    // Simulate docker run arguments
    let docker_args = r#"run --name my-container -p 8080:80 -d nginx:latest"#;
    let args = parse_shell_args(docker_args).unwrap();
    assert_eq!(
        args,
        vec!["run", "--name", "my-container", "-p", "8080:80", "-d", "nginx:latest"]
    );
}

#[test]
fn test_parse_shell_args_docker_with_quotes() {
    // Docker args with quoted values
    let docker_args = r#"run --name "my container" -e "NODE_ENV=production" nginx:latest"#;
    let args = parse_shell_args(docker_args).unwrap();
    assert_eq!(
        args,
        vec!["run", "--name", "my container", "-e", "NODE_ENV=production", "nginx:latest"]
    );
}

#[test]
fn parse_shell_args_simple() {
    assert_eq!(
        gen_mcp::shell::parse_shell_args("hello world").unwrap(),
        vec!["hello", "world"]
    );
}

#[test]
fn parse_shell_args_quotes() {
    assert_eq!(
        gen_mcp::shell::parse_shell_args(r#"hello 'world with spaces'"#).unwrap(),
        vec!["hello", "world with spaces"]
    );
    assert_eq!(
        gen_mcp::shell::parse_shell_args(r#"hello "world with spaces""#).unwrap(),
        vec!["hello", "world with spaces"]
    );
}

#[test]
fn parse_shell_args_unclosed_quote_errors() {
    assert!(gen_mcp::shell::parse_shell_args(r#"hello "world"#).is_err());
}

#[test]
fn parse_shell_args_empty() {
    assert_eq!(gen_mcp::shell::parse_shell_args("").unwrap(), Vec::<String>::new());
}

#[test]
fn unclosed_quote_is_an_invalid_tool_parameter_naming_the_input() {
    match parse_shell_args("a 'b") {
        Err(GenMcpError::Mcp(McpError::InvalidToolParameters(m))) => {
            assert_eq!(m, "Unclosed quote in arguments: a 'b")
        }
        other => panic!("expected InvalidToolParameters, got {other:?}"),
    }
    assert_eq!(
        gen_mcp::shell::parse_shell_args("x \"y").unwrap_err(),
        "Unclosed quote in arguments: x \"y"
    );
}

#[test]
fn plain_words_joined_by_spaces_split_back() {
    let words = vec!["alpha", "beta-1", "c:d", "e=f"];
    let joined = words.join(" ");
    assert_eq!(parse_shell_args(&joined).unwrap(), words);
}

#[test]
fn escapes_outside_and_inside_double_quotes() {
    assert_eq!(
        gen_mcp::shell::parse_shell_args(r#"a\'b "c\nd" "e\"f" "g\qh""#).unwrap(),
        vec!["a'b", "c\nd", "e\"f", "gqh"]
    );
    // Adjacent quoted pieces join into one argument; empty quotes give none.
    assert_eq!(
        gen_mcp::shell::parse_shell_args(r#"ab'cd'"ef" '' x"#).unwrap(),
        vec!["abcdef", "x"]
    );
}

#[test]
fn a_trailing_backslash_is_dropped() {
    assert_eq!(gen_mcp::shell::parse_shell_args("abc\\").unwrap(), vec!["abc"]);
    assert_eq!(gen_mcp::shell::parse_shell_args("a \\").unwrap(), vec!["a"]);
    assert_eq!(gen_mcp::shell::parse_shell_args("\"a\\").unwrap_err(), "Unclosed quote in arguments: \"a\\");
}

#[test]
fn single_quoted_word_splits_back_to_itself() {
    let word = r#"a b\c "d" $x"#;
    let quoted = format!("'{}'", word);
    assert_eq!(parse_shell_args(&quoted).unwrap(), vec![word.to_string()]);
}

#[test]
fn plain_words_joined_with_spaces_split_back() {
    let words: Vec<String> = vec!["run".to_string(), "-d".to_string(), "nginx:latest".to_string()];
    let joined = gen_mcp::text::join_strings(&words, " ");
    assert_eq!(joined, "run -d nginx:latest");
    assert_eq!(parse_shell_args(&joined).unwrap(), words);
}
