use blazar::json_repair::{
    extract_json_payload, is_probable_string_terminator, preview_text, repair_control_chars,
    repair_invalid_dollar_escapes, repair_truncated_json_closure, repair_unescaped_inner_quotes,
    strip_thinking_tags,
};
use blazar::planning::parse_or_repair_json;

#[test]
fn parse_or_repair_json_valid_json_fast_path() {
    let raw = r#"{"key": "value"}"#;
    let result = parse_or_repair_json(raw).unwrap();
    assert!(!result.was_repaired);
    assert_eq!(result.value["key"], "value");
}

#[test]
fn parse_or_repair_json_repairs_control_chars_in_strings() {
    let raw = "{\"command\": \"echo\thello\nworld\"}";
    let result = parse_or_repair_json(raw).unwrap();
    assert!(result.was_repaired);
    assert!(result.value["command"].as_str().unwrap().contains("hello"));
}

#[test]
fn parse_or_repair_json_returns_error_for_truly_broken_json() {
    let raw = "{{{{not json at all";
    assert!(parse_or_repair_json(raw).is_err());
}

#[test]
fn repair_control_chars_escapes_tab_newline_cr() {
    let raw = "{\"a\": \"line1\nline2\rline3\tend\"}";
    let repaired = repair_control_chars(raw).unwrap();
    assert!(repaired.contains("\\n"));
    assert!(repaired.contains("\\r"));
    assert!(repaired.contains("\\t"));
    serde_json::from_str::<serde_json::Value>(&repaired).unwrap();
}

#[test]
fn repair_control_chars_escapes_generic_control_char() {
    let raw = format!("{{\"a\": \"hello{}world\"}}", '\x01');
    let repaired = repair_control_chars(&raw).unwrap();
    assert!(repaired.contains("\\u0001"));
    serde_json::from_str::<serde_json::Value>(&repaired).unwrap();
}

#[test]
fn repair_control_chars_returns_none_when_no_change() {
    let raw = r#"{"key": "value"}"#;
    assert!(repair_control_chars(raw).is_none());
}

#[test]
fn repair_truncated_closure_closes_missing_brace() {
    let raw = r#"{"command": "ls""#;
    let repaired = repair_truncated_json_closure(raw).unwrap();
    serde_json::from_str::<serde_json::Value>(&repaired).unwrap();
}

#[test]
fn repair_truncated_closure_closes_missing_bracket() {
    let raw = r#"[{"a": 1}, {"b": 2}"#;
    let repaired = repair_truncated_json_closure(raw).unwrap();
    serde_json::from_str::<serde_json::Value>(&repaired).unwrap();
}

#[test]
fn repair_truncated_closure_deeply_nested() {
    let raw = r#"{"a": {"b": {"c": "val with \" escaped""#;
    let repaired = repair_truncated_json_closure(raw).unwrap();
    serde_json::from_str::<serde_json::Value>(&repaired).unwrap();
}

#[test]
fn repair_truncated_closure_unterminated_string() {
    let raw = r#"{"command": "echo hello"#;
    let repaired = repair_truncated_json_closure(raw).unwrap();
    serde_json::from_str::<serde_json::Value>(&repaired).unwrap();
}

#[test]
fn repair_truncated_closure_returns_none_for_non_json() {
    assert!(repair_truncated_json_closure("not json").is_none());
}

#[test]
fn repair_truncated_closure_returns_none_when_already_complete() {
    let raw = r#"{"key": "value"}"#;
    assert!(repair_truncated_json_closure(raw).is_none());
}

#[test]
fn repair_truncated_closure_returns_none_for_dangling_backslash() {
    let raw = r#"{"a": "val\"#;
    assert!(repair_truncated_json_closure(raw).is_none());
}

#[test]
fn repair_truncated_closure_returns_none_when_delta_too_large() {
    let raw = r#"{"a":[[[[[[[[[["#;
    assert!(repair_truncated_json_closure(raw).is_none());
}

#[test]
fn repair_truncated_closure_returns_none_for_mismatched_brackets() {
    let raw = r#"{"a": 1]"#;
    assert!(repair_truncated_json_closure(raw).is_none());
}

#[test]
fn repair_dollar_escapes_removes_backslash_before_dollar() {
    let raw = r#"{"command": "echo \$HOME"}"#;
    let repaired = repair_invalid_dollar_escapes(raw).unwrap();
    assert!(repaired.contains("$HOME"));
    assert!(!repaired.contains(r"\$HOME"));
    serde_json::from_str::<serde_json::Value>(&repaired).unwrap();
}

#[test]
fn repair_dollar_escapes_returns_none_when_no_change() {
    let raw = r#"{"command": "echo $HOME"}"#;
    assert!(repair_invalid_dollar_escapes(raw).is_none());
}

#[test]
fn repair_unescaped_inner_quotes_escapes_inner_quotes() {
    let raw = r#"{"command": "echo "hello" world"}"#;
    let repaired = repair_unescaped_inner_quotes(raw).unwrap();
    serde_json::from_str::<serde_json::Value>(&repaired).unwrap();
}

#[test]
fn repair_unescaped_inner_quotes_returns_none_when_no_change() {
    let raw = r#"{"key": "value"}"#;
    assert!(repair_unescaped_inner_quotes(raw).is_none());
}

#[test]
fn is_probable_string_terminator_at_end_of_input() {
    let raw = r#"{"a": "hello"}"#;
    let bytes = raw.as_bytes();
    let last_quote = raw.rfind('"').unwrap();
    assert!(is_probable_string_terminator(bytes, last_quote));
}

#[test]
fn is_probable_string_terminator_returns_true_at_eof() {
    let raw = r#""hello""#;
    let bytes = raw.as_bytes();
    let last = raw.len() - 1;
    assert!(is_probable_string_terminator(bytes, last));
}

#[test]
fn combined_control_chars_and_extraction() {
    let raw = "{\"a\": \"val\tue\"}</tool_call>";
    let result = parse_or_repair_json(raw).unwrap();
    assert!(result.was_repaired);
}

#[test]
fn extract_json_payload_strips_leading_trailing_text() {
    let raw = r#"some junk {"key": "value"} more junk"#;
    let extracted = extract_json_payload(raw).unwrap();
    serde_json::from_str::<serde_json::Value>(extracted).unwrap();
}

#[test]
fn extract_json_payload_returns_none_for_concatenated() {
    let raw = r#"{"a":1}{"b":2}"#;
    assert!(extract_json_payload(raw).is_none());
}

#[test]
fn json_repair_strip_thinking_tags_removes_think_block() {
    let raw = r#"<think>reasoning here</think>{"key": "value"}"#;
    let cleaned = strip_thinking_tags(raw);
    assert!(cleaned.starts_with('{'));
}

#[test]
fn strip_thinking_tags_extracts_json_from_prose() {
    let raw = r#"Here is the JSON: {"key": "value"}"#;
    let cleaned = strip_thinking_tags(raw);
    assert!(cleaned.starts_with('{'));
}

#[test]
fn tests_strip_thinking_tags_removes_think_block() {
    let raw = "<think>\nreasoning here\n</think>\n{\"path\": \"hello.py\"}";
    assert_eq!(strip_thinking_tags(raw), "{\"path\": \"hello.py\"}");
}

#[test]
fn strip_thinking_tags_preserves_clean_json() {
    let raw = "{\"command\": \"ls -la\"}";
    assert_eq!(strip_thinking_tags(raw), raw);
}

#[test]
fn strip_thinking_tags_extracts_json_after_garbage() {
    let raw = "some text before {\"key\": \"val\"}";
    assert_eq!(strip_thinking_tags(raw), "{\"key\": \"val\"}");
}

#[test]
fn strip_thinking_tags_handles_empty_think_block() {
    let raw = "<think></think>{\"a\": 1}";
    assert_eq!(strip_thinking_tags(raw), "{\"a\": 1}");
}

#[test]
fn preview_text_truncates_at_char_boundary() {
    let text = "你好世界hello";
    assert_eq!(preview_text(text, 2), "你好");
    assert_eq!(preview_text(text, 100), text);
}

#[test]
fn parse_or_repair_succeeds_on_valid_json() {
    let raw = r#"{"command": "ls"}"#;
    let parsed = parse_or_repair_json(raw).expect("should parse");
    assert!(!parsed.was_repaired);
    assert_eq!(parsed.value["command"], "ls");
}

#[test]
fn parse_or_repair_returns_error_for_unescaped_quotes() {
    let raw = r#"{"path": "hello.py", "content": "print("hello world!\")"}"#;
    let result = parse_or_repair_json(raw);
    assert!(result.is_err());
}

#[test]
fn parse_or_repair_returns_error_for_garbage() {
    let result = parse_or_repair_json("total garbage");
    assert!(result.is_err());
}

#[test]
fn extract_json_strips_trailing_tool_call_tag() {
    let raw = r#"{"path": "a.py", "content": "x = 1"}</tool_call>"#;
    let extracted = extract_json_payload(raw).expect("should extract");
    assert_eq!(extracted, r#"{"path": "a.py", "content": "x = 1"}"#);
}

#[test]
fn extract_json_strips_leading_junk() {
    let raw = r#"some text before {"key": "val"}"#;
    let extracted = extract_json_payload(raw).expect("should extract");
    assert_eq!(extracted, r#"{"key": "val"}"#);
}

#[test]
fn extract_json_handles_nested_braces() {
    let raw = r#"{"a": {"b": 1}} trailing"#;
    let extracted = extract_json_payload(raw).expect("should extract");
    assert_eq!(extracted, r#"{"a": {"b": 1}}"#);
}

#[test]
fn extract_json_ignores_braces_inside_strings() {
    let raw = r#"{"content": "func() { return }"} junk"#;
    let extracted = extract_json_payload(raw).expect("should extract");
    let val: serde_json::Value = serde_json::from_str(extracted).expect("valid JSON");
    assert_eq!(val["content"], "func() { return }");
}

#[test]
fn extract_json_returns_none_for_exact_json() {
    let raw = r#"{"key": "val"}"#;
    assert!(extract_json_payload(raw).is_none());
}

#[test]
fn extract_json_handles_array() {
    let raw = r#"[1, 2, 3] extra"#;
    let extracted = extract_json_payload(raw).expect("should extract");
    assert_eq!(extracted, "[1, 2, 3]");
}

#[test]
fn parse_or_repair_recovers_from_control_chars() {
    let raw = "{\"path\": \"fib.py\", \"content\": \"line1\nline2\"}";
    let parsed = parse_or_repair_json(raw).expect("should recover");
    assert!(parsed.was_repaired);
}

#[test]
fn parse_or_repair_recovers_trailing_tool_call_tag() {
    let raw = r#"{"command": "ls -la"}</tool_call>"#;
    let parsed = parse_or_repair_json(raw).expect("should recover via extraction");
    assert!(parsed.was_repaired);
    assert_eq!(parsed.value["command"], "ls -la");
}

#[test]
fn repair_control_chars_fixes_literal_newlines() {
    let raw = "{\"path\": \"fib.py\", \"content\": \"def f(n):\n    return n\"}";
    let repaired = repair_control_chars(raw).expect("should repair");
    let val: serde_json::Value = serde_json::from_str(&repaired).expect("valid JSON");
    assert_eq!(val["content"], "def f(n):\n    return n");
}

#[test]
fn repair_control_chars_returns_none_for_clean_json() {
    let raw = r#"{"content": "no control chars here"}"#;
    assert!(repair_control_chars(raw).is_none());
}

#[test]
fn repair_control_chars_preserves_structural_newlines() {
    let raw = "{\n  \"key\": \"value\"\n}";
    assert!(repair_control_chars(raw).is_none());
}

#[test]
fn truncated_closure_only_appends_closers() {
    let raw = r#"{"a": [1, {"b": "x"#;
    let repaired = repair_truncated_json_closure(raw).unwrap();
    assert!(repaired.starts_with(raw));
    assert!(repaired[raw.len()..].chars().all(|c| c == '"' || c == '}' || c == ']'));
}

#[test]
fn dollar_repair_keeps_other_escapes() {
    let raw = r#"{"c": "a\nb \$X"}"#;
    assert_eq!(repair_invalid_dollar_escapes(raw).unwrap(), r#"{"c": "a\nb $X"}"#);
}

#[test]
fn parse_or_repair_takes_valid_json_with_surrounding_space_as_is() {
    let parsed = parse_or_repair_json(" {\"key\": 1} ").expect("valid JSON");
    assert!(!parsed.was_repaired);
    assert_eq!(parsed.value["key"], 1);
}

#[test]
fn repair_control_chars_keeps_non_ascii_text() {
    let raw = "{\"a\": \"é\n\"}";
    assert_eq!(repair_control_chars(raw), Some("{\"a\": \"é\\n\"}".to_string()));
}

#[test]
fn repair_control_chars_writes_other_controls_as_unicode_escapes() {
    let raw = "{\"a\": \"x\u{1}y\"}";
    assert_eq!(repair_control_chars(raw), Some("{\"a\": \"x\\u0001y\"}".to_string()));
}

#[test]
fn repair_invalid_dollar_escapes_keeps_non_ascii_text() {
    let raw = r#"{"command": "echo ü \$HOME"}"#;
    assert_eq!(
        repair_invalid_dollar_escapes(raw),
        Some(r#"{"command": "echo ü $HOME"}"#.to_string())
    );
}

#[test]
fn repairing_control_chars_twice_changes_nothing_more() {
    let raw = "{\"a\": \"x\ty\u{2}\", \"b\": \"\n\"}";
    let once = repair_control_chars(raw).expect("controls inside strings");
    assert_eq!(repair_control_chars(&once), None);
}

#[test]
fn repairs_leave_text_without_their_targets_alone() {
    assert_eq!(repair_control_chars("{\"a\": \"plain é\"}"), None);
    assert_eq!(repair_invalid_dollar_escapes("{\"a\": \"$HOME \\\\n\"}"), None);
    assert_eq!(repair_unescaped_inner_quotes("[1, 2]"), None);
}

#[test]
fn extracted_payload_starts_at_the_first_open_bracket() {
    let raw = "note: [1, {\"a\": 2}] done";
    let p = extract_json_payload(raw).unwrap();
    assert_eq!(p, "[1, {\"a\": 2}]");
    assert!(raw.contains(p));
}
