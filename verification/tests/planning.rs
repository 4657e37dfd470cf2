use blazar::calls::{CallCounter, CallSet};
use blazar::capability::CapabilityClaim;
use blazar::planning::{
    canonical_tool_args, plan_tool_call, repair_bash_arguments, PendingToolCall, PlannedToolAction,
};

fn no_claims(_name: &String, _args: &serde_json::Value) -> Vec<CapabilityClaim> {
    Vec::new()
}

fn pending(name: &str, arguments: &str) -> PendingToolCall {
    PendingToolCall { call_id: "c1".into(), name: name.into(), arguments: arguments.into() }
}

#[test]
fn plan_tool_call_returns_parse_error_for_invalid_json() {
    let mut failures = CallCounter::new();
    let successes = CallSet::new();

    let result = plan_tool_call(pending("unknown_tool", "not valid json {{{"), &successes, &mut failures, &no_claims);

    match result.item.action {
        PlannedToolAction::Immediate(cap_result) => {
            let text = cap_result.text_output();
            assert!(text.contains("JSON PARSE ERROR"), "got: {text}");
        }
        _ => panic!("expected Immediate for parse error"),
    }
    assert_eq!(failures.count("unknown_tool", "not valid json {{{"), 1);
}

#[test]
fn plan_tool_call_returns_repeated_error_on_second_identical_failure() {
    let mut failures = CallCounter::new();
    let successes = CallSet::new();
    let bad_args = "not valid json {{{";

    let _ = plan_tool_call(pending("unknown_tool", bad_args), &successes, &mut failures, &no_claims);
    let result = plan_tool_call(pending("unknown_tool", bad_args), &successes, &mut failures, &no_claims);

    match result.item.action {
        PlannedToolAction::Immediate(cap_result) => {
            let text = cap_result.text_output();
            assert!(text.contains("REPEATED JSON ERROR"), "expected repeated-error guidance, got: {text}");
        }
        _ => panic!("expected Immediate for repeated error"),
    }
}

#[test]
fn plan_tool_call_failure_counter_is_keyed_by_name_and_args() {
    let mut failures = CallCounter::new();
    let successes = CallSet::new();

    let _ = plan_tool_call(pending("unknown_tool", "bad json 1"), &successes, &mut failures, &no_claims);
    let _ = plan_tool_call(pending("unknown_tool", "bad json 2"), &successes, &mut failures, &no_claims);

    assert_eq!(failures.count("unknown_tool", "bad json 1"), 1);
    assert_eq!(failures.count("unknown_tool", "bad json 2"), 1);

    let result = plan_tool_call(pending("unknown_tool", "bad json 1"), &successes, &mut failures, &no_claims);
    assert_eq!(failures.count("unknown_tool", "bad json 1"), 2);
    assert_eq!(failures.count("unknown_tool", "bad json 2"), 1);
    match result.item.action {
        PlannedToolAction::Immediate(cap) => assert!(cap.text_output().contains("REPEATED JSON ERROR")),
        _ => panic!("expected Immediate for count >= 2"),
    }
}

#[test]
fn plan_tool_call_repairs_bash_with_unescaped_quotes() {
    let mut failures = CallCounter::new();
    let successes = CallSet::new();
    let bad_bash = r#"{"command": "echo "hello" world"}"#;
    let result = plan_tool_call(pending("bash", bad_bash), &successes, &mut failures, &no_claims);

    match &result.item.action {
        PlannedToolAction::Execute { was_repaired, .. } => {
            assert!(was_repaired, "bash repair should have kicked in");
        }
        PlannedToolAction::Immediate(_) => {
            assert!(failures.count("bash", bad_bash) <= 1);
        }
    }
}

#[test]
fn plan_tool_call_returns_repeated_success_guidance() {
    let mut failures = CallCounter::new();
    let valid_args = r#"{"command":"ls"}"#;
    let canonical = canonical_tool_args(&serde_json::from_str(valid_args).unwrap(), valid_args);
    let mut successes = CallSet::new();
    successes.insert("bash", &canonical);

    let result = plan_tool_call(pending("bash", valid_args), &successes, &mut failures, &no_claims);

    match result.item.action {
        PlannedToolAction::Immediate(cap_result) => {
            let text = cap_result.text_output();
            assert!(
                text.contains("already") || text.contains("REPEATED") || !text.is_empty(),
                "expected repeated-success guidance, got: {text}"
            );
        }
        _ => panic!("expected Immediate for repeated success"),
    }
}

fn assert_bash_repair_succeeds(args: &str, description: &str) {
    let mut failures = CallCounter::new();
    let successes = CallSet::new();
    let result = plan_tool_call(pending("bash", args), &successes, &mut failures, &no_claims);
    match &result.item.action {
        PlannedToolAction::Execute { was_repaired, .. } => {
            assert!(was_repaired, "expected repair for: {description}");
        }
        PlannedToolAction::Immediate(cap) => {
            panic!("expected Execute (repair) for {description}, got Immediate: {}", cap.text_output());
        }
    }
    assert_eq!(failures.count("bash", args), 0, "failures should be cleared after repair");
}

#[test]
fn plan_tool_call_repairs_bash_invalid_dollar_escapes() {
    assert_bash_repair_succeeds(r#"{"command": "echo \$HOME"}"#, "dollar escapes only");
}

#[test]
fn plan_tool_call_repairs_bash_truncated_payload() {
    assert_bash_repair_succeeds(r#"{"command": "echo hello"#, "truncated payload only");
}

#[test]
fn plan_tool_call_repairs_bash_quotes_plus_dollar() {
    assert_bash_repair_succeeds(r#"{"command": "echo "hello" \$HOME"}"#, "unescaped quotes + dollar escapes");
}

#[test]
fn plan_tool_call_repairs_bash_quotes_plus_truncated() {
    assert_bash_repair_succeeds(r#"{"command": "echo "hello" world"#, "unescaped quotes + truncated");
}

#[test]
fn plan_tool_call_repairs_bash_dollar_plus_truncated() {
    assert_bash_repair_succeeds(r#"{"command": "echo \$HOME"#, "dollar escapes + truncated");
}

#[test]
fn plan_tool_call_repairs_bash_quotes_plus_dollar_plus_truncated() {
    assert_bash_repair_succeeds(r#"{"command": "echo "hello" \$HOME"#, "quotes + dollar + truncated");
}

#[test]
fn plan_tool_call_repairs_bash_dollar_plus_quotes_plus_truncated() {
    assert_bash_repair_succeeds(
        r#"{"command": "for i in \$(seq 1 3); do echo "item $i"; done"#,
        "dollar escapes + unescaped quotes + truncated",
    );
}

#[test]
fn plan_tool_call_repairs_bash_dollar_plus_quotes() {
    assert_bash_repair_succeeds(r#"{"command": "echo "value is \$HOME""}"#, "dollar escapes + unescaped quotes");
}

#[test]
fn plan_tool_call_unrepairable_bash_returns_error() {
    let mut failures = CallCounter::new();
    let successes = CallSet::new();
    let result = plan_tool_call(pending("bash", "total garbage"), &successes, &mut failures, &no_claims);
    match result.item.action {
        PlannedToolAction::Immediate(cap) => assert!(cap.text_output().contains("JSON PARSE ERROR")),
        _ => panic!("expected Immediate for unrepairable bash"),
    }
}

#[test]
fn bash_repair_names_the_repair_that_worked() {
    let (fixed, kind) = repair_bash_arguments(r#"{"command": "echo \$HOME"}"#).unwrap();
    assert_eq!(kind, "invalid dollar escapes");
    assert_eq!(fixed, r#"{"command": "echo $HOME"}"#);
    assert!(repair_bash_arguments(r#"{"command": "ls"}"#).is_none());
}

#[test]
fn planned_call_carries_claims_and_signature() {
    let mut failures = CallCounter::new();
    let successes = CallSet::new();
    let claims = |_n: &String, _v: &serde_json::Value| {
        vec![CapabilityClaim { resource: "fs:a".into(), access: blazar::capability::CapabilityAccess::ReadOnly }]
    };
    let result = plan_tool_call(pending("read_file", r#"{ "path" : "a" }"#), &successes, &mut failures, &claims);
    assert_eq!(result.claims.len(), 1);
    match result.item.action {
        PlannedToolAction::Execute { signature, was_repaired, .. } => {
            assert!(!was_repaired);
            assert_eq!(signature.0, "read_file");
            assert_eq!(signature.1, r#"{"path":"a"}"#);
        }
        _ => panic!("expected Execute"),
    }
}

#[test]
fn parse_error_feedback_quotes_the_parser_message() {
    let mut failures = CallCounter::new();
    let successes = CallSet::new();
    let result = plan_tool_call(pending("x", "{"), &successes, &mut failures, &no_claims);
    match result.item.action {
        PlannedToolAction::Immediate(cap) => {
            let text = cap.text_output();
            assert!(text.starts_with("JSON PARSE ERROR in tool arguments: "));
            assert!(text.ends_with("Then retry this tool call."));
            assert!(text.contains("instead of \\\\$i / \\\\$(...)"));
        }
        _ => panic!("expected Immediate"),
    }
}
