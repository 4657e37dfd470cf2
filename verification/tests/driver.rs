use blazar::calls::CallCounter;
use blazar::capability::{CapabilityClaim, CapabilityResult};
use blazar::driver::{
    batch_execution, capability_result_of, executed_call, immediate_call, ProviderMessage,
    TurnDriver, TurnStep,
};
use blazar::planning::PendingToolCall;
use blazar::protocol::RuntimeErrorKind;
use blazar::stream::ProviderPass;
use blazar::tools::ToolResult;
use blazar::turn::{annotate_timeout_failure, TurnOutcome, REPEATED_TIMEOUT_GUIDANCE, TIMEOUT_NOTE};

fn no_claims(_n: &String, _v: &serde_json::Value) -> Vec<CapabilityClaim> {
    Vec::new()
}

fn pending(id: &str, name: &str, args: &str) -> PendingToolCall {
    PendingToolCall { call_id: id.into(), name: name.into(), arguments: args.into() }
}

#[test]
fn echo_answer_completes_the_turn() {
    let mut d = TurnDriver::new("echo");
    let mut pass = ProviderPass::new("echo");
    pass.on_text_delta("hi");
    let mut messages = Vec::new();
    match d.after_pass(pass, &mut messages, &no_claims) {
        TurnStep::Finish(TurnOutcome::Complete) => {}
        _ => panic!("expected completion"),
    }
    assert!(matches!(&messages[0], ProviderMessage::Assistant { content } if content == "hi"));
}

#[test]
fn contract_violation_is_sent_back_then_fails() {
    let mut d = TurnDriver::new("gpt");
    let mut messages = Vec::new();
    for _ in 0..2 {
        let mut pass = ProviderPass::new("gpt");
        pass.on_text_delta("plain text");
        assert!(matches!(d.after_pass(pass, &mut messages, &no_claims), TurnStep::StreamPass));
    }
    assert_eq!(messages.len(), 2);
    let mut pass = ProviderPass::new("gpt");
    pass.on_text_delta("plain text");
    match d.after_pass(pass, &mut messages, &no_claims) {
        TurnStep::Finish(TurnOutcome::FatalError { kind, error }) => {
            assert_eq!(kind, RuntimeErrorKind::ToolExecution);
            assert_eq!(error, "response contract validation failed after 2 retries: missing_assistant_response_root");
        }
        _ => panic!("expected failure after retries"),
    }
}

#[test]
fn tool_calls_are_recorded_and_batched() {
    let mut d = TurnDriver::new("echo");
    let mut pass = ProviderPass::new("echo");
    pass.on_tool_call(pending("c1", "read_file", r#"{"path":"a"}"#));
    pass.on_tool_call(pending("c2", "read_file", "not json"));
    let mut messages = Vec::new();
    let batches = match d.after_pass(pass, &mut messages, &no_claims) {
        TurnStep::RunBatches(b) => b,
        _ => panic!("expected batches"),
    };
    assert_eq!(messages.len(), 2);
    assert_eq!(batches.len(), 1);
    assert_eq!(batches[0].len(), 2);
    assert_eq!(d.before_batch(false, 2).ok(), Some(2));
    assert!(matches!(d.before_batch(true, 2), Err(TurnOutcome::Cancelled)));
}

#[test]
fn executed_calls_count_towards_the_limit_and_repeat_successes_are_blocked() {
    let mut d = TurnDriver::new("echo");
    let mut messages = Vec::new();
    let exec = executed_call(
        pending("c1", "bash", r#"{"command":"ls"}"#),
        CapabilityResult::success("ok"),
        false,
        ("bash".to_string(), r#"{"command":"ls"}"#.to_string()),
    );
    let (done, outcome) = d.after_batch(batch_execution(vec![exec], 1), false, &mut messages);
    assert!(outcome.is_none());
    assert_eq!(done[0].output, "ok");
    assert_eq!(d.tool_iterations, 1);
    d.end_tool_pass();
    let mut pass = ProviderPass::new("echo");
    pass.on_tool_call(pending("c2", "bash", r#"{"command": "ls"}"#));
    let batches = match d.after_pass(pass, &mut messages, &no_claims) {
        TurnStep::RunBatches(b) => b,
        _ => panic!("expected batches"),
    };
    match &batches[0][0].item.action {
        blazar::planning::PlannedToolAction::Immediate(r) => assert!(r.text_output().starts_with("REPEATED SUCCESS")),
        _ => panic!("a repeated success is answered at once"),
    }
}

#[test]
fn iteration_limit_stops_the_turn() {
    let mut d = TurnDriver::new("echo");
    let mut messages = Vec::new();
    let calls: Vec<_> = (0..10)
        .map(|i| immediate_call(pending(&format!("c{i}"), "x", "{}"), CapabilityResult::success("ok")))
        .collect();
    let (_, outcome) = d.after_batch(batch_execution(calls, 10), false, &mut messages);
    assert!(outcome.is_none());
    match d.before_batch(false, 1) {
        Err(TurnOutcome::FatalError { error, .. }) => assert_eq!(error, "tool iteration limit exceeded"),
        _ => panic!("limit reached"),
    }
}

#[test]
fn transient_error_after_tools_is_fatal() {
    let mut d = TurnDriver::new("echo");
    let mut messages = Vec::new();
    let (_, _) = d.after_batch(
        batch_execution(vec![immediate_call(pending("c", "x", "{}"), CapabilityResult::success("ok"))], 1),
        false,
        &mut messages,
    );
    let mut pass = ProviderPass::new("echo");
    pass.on_error("connection reset".to_string());
    match d.after_pass(pass, &mut messages, &no_claims) {
        TurnStep::Finish(TurnOutcome::FatalError { kind, .. }) => assert_eq!(kind, RuntimeErrorKind::ProviderTransient),
        _ => panic!("expected fatal"),
    }
    let mut fresh = TurnDriver::new("echo");
    let mut pass = ProviderPass::new("echo");
    pass.on_error("connection reset".to_string());
    assert!(matches!(fresh.after_pass(pass, &mut messages, &no_claims), TurnStep::Finish(TurnOutcome::TransientError(_))));
}

#[test]
fn repeated_timeouts_escalate() {
    let mut counter = CallCounter::new();
    let first = annotate_timeout_failure(CapabilityResult::failure("command timed out after 5s"), "bash", "{}", &mut counter);
    assert_eq!(first.text_output(), format!("command timed out after 5s\n\n{TIMEOUT_NOTE}"));
    let second = annotate_timeout_failure(CapabilityResult::failure("command timed out after 5s"), "bash", "{}", &mut counter);
    assert_eq!(
        second.text_output(),
        format!("command timed out after 5s\n\n{TIMEOUT_NOTE}\n\n{REPEATED_TIMEOUT_GUIDANCE}")
    );
    let other = annotate_timeout_failure(CapabilityResult::failure("boom"), "bash", "{}", &mut counter);
    assert_eq!(other.text_output(), "boom");
    assert_eq!(counter.count("bash", "{}"), 0);
}

#[test]
fn repaired_arguments_are_noted_before_the_output() {
    let e = executed_call(pending("c", "x", "{}"), CapabilityResult::success("out"), true, ("x".into(), "{}".into()));
    assert!(e.result.text_output().starts_with("[NOTE] Tool arguments had malformed JSON"));
    assert!(e.result.text_output().ends_with("\n\nout"));
}

#[test]
fn registry_errors_become_failures() {
    let r = capability_result_of(Err("unknown tool: x".to_string()));
    assert!(r.is_error);
    assert_eq!(r.text_output(), "unknown tool: x");
    let ok = capability_result_of(Ok(ToolResult::success("y")));
    assert!(!ok.is_error);
}

#[test]
fn cancelled_batch_ends_the_turn() {
    let mut d = TurnDriver::new("echo");
    let mut messages = Vec::new();
    let (_, outcome) = d.after_batch(batch_execution(Vec::new(), 2), false, &mut messages);
    assert!(matches!(outcome, Some(TurnOutcome::Cancelled)));
    let (_, outcome) = d.after_batch(batch_execution(Vec::new(), 0), true, &mut messages);
    assert!(matches!(outcome, Some(TurnOutcome::FatalError { .. })));
}
