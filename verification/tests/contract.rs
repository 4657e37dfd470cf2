use blazar::contract::{
    format_response_contract_retry_prompt, parse_assistant_contract_delta,
    response_contract_enforced, response_contract_schema_prompt, validate_response_contract,
};
use blazar::stream::{contract_open_probe_tail, find_contract_open_marker_start, ContractStream};

const VALID: &str = "<assistant_response>\n<intent>report</intent>\n<summary>done</summary>\n<tool_summary></tool_summary>\n<nextstep>none</nextstep>\n<needs_user_input>false</needs_user_input>\n<question></question>\n<status>ok</status>\n<error></error>\n</assistant_response>";

#[test]
fn echo_model_is_exempt_from_the_contract() {
    assert!(!response_contract_enforced("echo"));
    assert!(!response_contract_enforced("ECHO"));
    assert!(response_contract_enforced("gpt"));
}

#[test]
fn valid_response_passes() {
    assert!(validate_response_contract(VALID).is_ok());
    assert!(validate_response_contract(&format!("  {VALID}\n")).is_ok());
}

#[test]
fn empty_and_rootless_responses_are_rejected() {
    assert_eq!(validate_response_contract("  ").unwrap_err(), vec!["empty_response".to_string()]);
    assert_eq!(
        validate_response_contract("hello").unwrap_err(),
        vec!["missing_assistant_response_root".to_string()]
    );
}

#[test]
fn every_violation_is_listed_in_order() {
    let bad = "<assistant_response><intent>dance</intent><summary> </summary><tool_summary></tool_summary><nextstep></nextstep><needs_user_input>maybe</needs_user_input><question></question><status>failed</status><error></error>x</assistant_response>";
    assert_eq!(
        validate_response_contract(bad).unwrap_err(),
        vec![
            "unexpected_content_after_error",
            "invalid_intent",
            "empty_summary",
            "empty_nextstep",
            "invalid_needs_user_input",
            "error_required_when_status_failed",
        ]
    );
}

#[test]
fn out_of_order_and_unclosed_tags_are_reported() {
    let bad = "<assistant_response><summary>s</summary></assistant_response>";
    let v = validate_response_contract(bad).unwrap_err();
    assert_eq!(v[0], "missing_or_out_of_order_intent");
    let unclosed = "<assistant_response><intent>plan</assistant_response>";
    let v = validate_response_contract(unclosed).unwrap_err();
    assert_eq!(v[0], "missing_closing_intent");
}

#[test]
fn question_is_required_when_input_is_needed() {
    let r = VALID.replace("<needs_user_input>false", "<needs_user_input>true");
    assert_eq!(
        validate_response_contract(&r).unwrap_err(),
        vec!["question_required_when_needs_user_input_true".to_string()]
    );
}

#[test]
fn retry_prompt_lists_violations_then_the_schema() {
    let p = format_response_contract_retry_prompt(&["a".to_string(), "b".to_string()]);
    assert!(p.starts_with("Your previous response violated the required XML response contract.\nViolations:\n- a\n- b\n\nRe-send a full response.\n"));
    assert!(p.ends_with(response_contract_schema_prompt()));
}

#[test]
fn delta_reads_partial_fields() {
    let d = parse_assistant_contract_delta("junk <assistant_response><intent> plan </intent><summary>work in prog")
        .expect("fields readable");
    assert_eq!(d.intent.as_deref(), Some("plan"));
    assert_eq!(d.summary.as_deref(), Some("work in prog"));
    assert!(!d.complete);
    assert_eq!(d.needs_user_input, None);
    let full = parse_assistant_contract_delta(VALID).expect("complete");
    assert!(full.complete);
    assert_eq!(full.needs_user_input, Some(false));
    assert_eq!(full.tool_summary, None);
    assert!(parse_assistant_contract_delta("<assistant_response><intent>").is_none());
    assert!(parse_assistant_contract_delta("no response").is_none());
}

#[test]
fn marker_and_probe_tail_find_split_tags() {
    let t: Vec<char> = "text <assistant_resp".chars().collect();
    assert_eq!(find_contract_open_marker_start(&t), None);
    assert_eq!(contract_open_probe_tail(&t).iter().collect::<String>(), "<assistant_resp");
    let u: Vec<char> = "a<assistant_response>b".chars().collect();
    assert_eq!(find_contract_open_marker_start(&u), Some(1));
    let v: Vec<char> = "plain".chars().collect();
    assert!(contract_open_probe_tail(&v).is_empty());
}

#[test]
fn side_channel_hides_the_structured_response() {
    let mut s = ContractStream::new("gpt");
    let a = s.on_text_delta("Hello <assist");
    assert!(!a.forward);
    let b = s.on_text_delta("ant_response><intent>plan</intent>");
    assert!(!b.forward);
    let d = b.delta.expect("intent readable");
    assert_eq!(d.intent.as_deref(), Some("plan"));
    let c = s.on_text_delta("<summary>x");
    assert!(!c.forward);
    assert!(c.delta.is_some());
    assert!(s.on_turn_complete().is_none());
    let mut plain = ContractStream::new("echo");
    assert!(plain.on_text_delta("<assistant_response>").forward);
}
