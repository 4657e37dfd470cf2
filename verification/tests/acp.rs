use blazar::acp::{agent_entries, run_id_of};
use blazar::acp::{
    admit_discovered, discovery_failure, metadata_from_wire, normalize_endpoint, parse_run_status,
    parse_tool_result, poll_timeout_result, AcpAgentMetadata, AcpClientError, AcpRunStatus,
    AgentMetadataWire, ToolNames,
};
use blazar::calls::CallSet;
use blazar::tools::ContentPart;

fn json(text: &str) -> serde_json::Value {
    serde_json::from_str(text).unwrap()
}

#[test]
fn parse_agent_metadata_falls_back_to_id_for_blank_name() {
    let metadata = metadata_from_wire(AgentMetadataWire {
        id: "auditor".into(),
        name: Some("   ".into()),
        description: Some("Reviews code".into()),
        input_schema: None,
    })
    .expect("metadata should parse");

    assert_eq!(metadata.name, "auditor");
    assert_eq!(metadata.input_schema, json(r#"{"type": "object"}"#));
}

#[test]
fn parse_run_status_rejects_exit_code_overflow() {
    let error = parse_run_status(&json(
        r#"{"status": "completed", "output": {"content": [{"type": "text", "text": "done"}], "exit_code": 2147483648}}"#,
    ))
    .err()
    .expect("overflowing exit code should fail");

    assert!(error.contains("exit code must fit within i32"));
}

#[test]
fn parse_agent_metadata_rejects_empty_id() {
    let err = metadata_from_wire(AgentMetadataWire {
        id: "   ".into(),
        name: Some("agent".into()),
        description: None,
        input_schema: None,
    })
    .err()
    .expect("empty id should fail");
    assert!(err.contains("agent id must not be empty"));
}

#[test]
fn parse_run_status_failed_without_output_generates_message() {
    let status = parse_run_status(&json(r#"{"status": "cancelled"}"#)).ok().expect("cancelled without output should parse");
    let AcpRunStatus::Complete(result) = status else {
        panic!("should be complete");
    };
    assert!(result.is_error);
    assert!(result.text_output().contains("cancelled"));
}

#[test]
fn parse_tool_result_missing_content_and_text_errors() {
    let err = parse_run_status(&json(r#"{"status": "completed", "output": {"exit_code": 0}}"#))
        .err()
        .expect("missing content/text should fail");
    assert!(err.contains("must contain content or text"));
}

#[test]
fn parse_content_parts_rejects_non_array_content() {
    let err = parse_run_status(&json(r#"{"status": "completed", "output": {"content": "not-an-array"}}"#))
        .err()
        .expect("non-array content should fail");
    assert!(err.contains("content must be an array"));
}

#[test]
fn parse_content_parts_rejects_unsupported_type() {
    let err = parse_run_status(&json(
        r#"{"status": "completed", "output": {"content": [{"type": "image", "url": "http://example.com"}]}}"#,
    ))
    .err()
    .expect("unsupported type should fail");
    assert!(err.contains("unsupported ACP content part type: image"));
}

#[test]
fn parse_run_status_rejects_unknown_status_values() {
    let error = parse_run_status(&json(r#"{"status": "mystery-state"}"#))
        .err()
        .expect("unknown statuses should be rejected explicitly");
    assert!(error.contains("mystery-state"));
    assert_eq!(error, "unknown ACP run status 'mystery-state'");
}

#[test]
fn parse_run_status_marks_failed_output_as_error_when_field_missing() {
    let status = parse_run_status(&json(
        r#"{"status": "failed", "output": {"content": [{"type": "text", "text": "validation failed"}]}}"#,
    ))
    .ok()
    .expect("failed payload should parse");

    let AcpRunStatus::Complete(result) = status else {
        panic!("failed runs should be terminal");
    };
    assert!(result.is_error);
    assert_eq!(result.text_output(), "validation failed");
}

#[test]
fn parse_run_status_keeps_cancelled_output_marked_as_error_when_false() {
    let status = parse_run_status(&json(
        r#"{"status": "cancelled", "output": {"content": [{"type": "text", "text": "cancelled by user"}], "is_error": false}}"#,
    ))
    .ok()
    .expect("cancelled payload should parse");

    let AcpRunStatus::Complete(result) = status else {
        panic!("cancelled runs should be terminal");
    };
    assert!(result.is_error);
    assert_eq!(result.text_output(), "cancelled by user");
}

#[test]
fn pending_statuses_are_not_terminal() {
    for s in ["queued", "running", "pending", "in_progress"] {
        let v = json(&format!(r#"{{"status": "{s}"}}"#));
        assert!(matches!(parse_run_status(&v), Ok(AcpRunStatus::Pending)));
    }
    assert_eq!(parse_run_status(&json(r#"{"status": 3}"#)).err().unwrap(), "run status must be a string");
    assert_eq!(
        parse_run_status(&json(r#"{"status": "succeeded"}"#)).err().unwrap(),
        "run with status 'succeeded' must contain output"
    );
}

#[test]
fn tool_result_reads_camel_case_fields_and_resources() {
    let r = parse_tool_result(
        &json(r#"{"isError": true, "outputTruncated": true, "exitCode": 3, "content": [{"type": "resource", "uri": "u", "mimeType": "text/plain"}, {"text": "t"}]}"#),
        false,
    )
    .ok()
    .unwrap();
    assert!(r.is_error);
    assert!(r.output_truncated);
    assert_eq!(r.exit_code, Some(3));
    assert_eq!(
        r.content,
        vec![
            ContentPart::Resource { uri: "u".into(), mime_type: Some("text/plain".into()) },
            ContentPart::Text { text: "t".into() }
        ]
    );
    let plain = parse_tool_result(&json(r#"{"text": "hi"}"#), false).ok().unwrap();
    assert!(!plain.is_error);
    assert_eq!(plain.text_output(), "hi");
}

#[test]
fn endpoints_lose_trailing_slashes() {
    assert_eq!(normalize_endpoint("http://a/b//"), "http://a/b");
    assert_eq!(normalize_endpoint("http://a"), "http://a");
    assert_eq!(normalize_endpoint("///"), "");
}

#[test]
fn discovery_skips_agents_seen_before() {
    let mut seen = CallSet::new();
    let agent = |id: &str| AcpAgentMetadata {
        id: id.into(),
        name: id.into(),
        description: String::new(),
        input_schema: json("{}"),
    };
    assert!(admit_discovered(&mut seen, "http://h/", agent("a")).is_some());
    assert!(admit_discovered(&mut seen, "http://h", agent("a")).is_none());
    let d = admit_discovered(&mut seen, "http://h/", agent("b")).unwrap();
    assert_eq!(d.endpoint, "http://h");
}

#[test]
fn discovery_errors_are_joined() {
    assert_eq!(discovery_failure(&[]), None);
    assert_eq!(
        discovery_failure(&["x".to_string(), "y".to_string()]),
        Some("ACP discovery failed: x; y".to_string())
    );
}

#[test]
fn configured_tool_names_must_be_unique() {
    let mut names = ToolNames::new();
    assert!(names.claim_configured("auditor").is_ok());
    assert_eq!(names.claim_configured("auditor").unwrap_err(), "duplicate ACP tool name: auditor");
    assert!(!names.claim_discovered("auditor"));
    assert!(names.claim_discovered("planner"));
}

#[test]
fn poll_timeout_names_run_and_polls() {
    let r = poll_timeout_result("run-1", 3);
    assert!(r.is_error);
    assert_eq!(r.text_output(), "ACP run run-1 timed out after 3 polls");
}

#[test]
fn client_errors_read_as_before() {
    let e = AcpClientError::HttpStatus {
        endpoint: "http://h".into(),
        action: "GET /agents/x".into(),
        status: "404 Not Found".into(),
    };
    assert_eq!(e.to_display_string(), "GET /agents/x against http://h returned HTTP 404 Not Found");
    let e = AcpClientError::InvalidEndpoint { endpoint: "e".into(), source: "s".into() };
    assert_eq!(e.to_display_string(), "invalid ACP endpoint e: s");
}

#[test]
fn normalizing_an_endpoint_twice_changes_nothing() {
    for e in ["http://h//", "http://h", "", "/"] {
        let once = normalize_endpoint(e);
        assert_eq!(normalize_endpoint(&once), once);
    }
}

#[test]
fn listings_and_run_ids_are_read_from_payloads() {
    assert_eq!(agent_entries(&json(r#"{"agents": [1, 2]}"#)).unwrap().len(), 2);
    assert_eq!(agent_entries(&json(r#"[1]"#)).unwrap().len(), 1);
    assert_eq!(agent_entries(&json(r#"{"agents": {"id": "x"}}"#)).unwrap_err(), "response must contain an array of agents");
    assert_eq!(run_id_of(&json(r#"{"run_id": "r2"}"#)).unwrap(), "r2");
    assert_eq!(run_id_of(&json(r#"{"id": "r1", "run_id": "r2"}"#)).unwrap(), "r1");
    assert_eq!(run_id_of(&json(r#"{"id": 3}"#)).unwrap_err(), "response must contain run id");
}

#[test]
fn metadata_without_schema_gets_exactly_an_object_schema() {
    let metadata = metadata_from_wire(AgentMetadataWire {
        id: "coder".into(),
        name: None,
        description: None,
        input_schema: None,
    })
    .ok()
    .expect("valid id");
    assert_eq!(metadata.input_schema, json(r#"{"type": "object"}"#));
}

#[test]
fn join_url_resolves_paths_under_the_endpoint() {
    assert_eq!(blazar::acp::join_url("http://localhost:8000", "agents").ok().unwrap(), "http://localhost:8000/agents");
    assert_eq!(blazar::acp::join_url("http://h/api//", "runs/r1").ok().unwrap(), "http://h/api/runs/r1");
    match blazar::acp::join_url("not a url", "runs") {
        Err(AcpClientError::InvalidEndpoint { endpoint, source }) => {
            assert_eq!(endpoint, "not a url");
            assert_eq!(source, "relative URL without a base");
        }
        _ => panic!("expected an invalid endpoint"),
    }
}
