use blazar::driver::ProviderMessage;
use blazar::protocol::{AgentCommand, AgentEvent, RuntimeErrorKind};
use blazar::runtime::{after_attempt, batch_id_of, turn_messages, AttemptAction, LoopAction, RuntimeLoop};
use blazar::turn::{is_transient_error, is_transient_lowercase, is_timeout_output, TurnOutcome};

#[test]
fn transient_errors_classified_correctly() {
    assert!(is_transient_error("connection timeout"));
    assert!(is_transient_error("HTTP 429 Too Many Requests"));
    assert!(is_transient_error("502 Bad Gateway"));
    assert!(is_transient_error("503 Service Unavailable"));
    assert!(is_transient_error("connection reset by peer"));
    assert!(is_transient_error("rate limit exceeded"));
}

#[test]
fn fatal_errors_classified_correctly() {
    assert!(!is_transient_error("invalid API key"));
    assert!(!is_transient_error("400 Bad Request"));
    assert!(!is_transient_error("model not found"));
    assert!(!is_transient_error("content policy violation"));
    assert!(!is_transient_error(""));
}

#[test]
fn transient_classification_is_case_insensitive() {
    assert!(is_transient_error("CONNECTION TIMEOUT"));
    assert!(is_transient_error("Rate Limit"));
    assert!(is_transient_error("Timeout Error"));
}

#[test]
fn lowercase_markers_are_matched_exactly() {
    assert!(is_transient_lowercase("gateway 502"));
    assert!(!is_transient_lowercase("TIMEOUT"));
}

#[test]
fn timeout_output_is_detected_ignoring_case() {
    assert!(is_timeout_output("command TIMED OUT after 3s"));
    assert!(is_timeout_output("Timeout"));
    assert!(!is_timeout_output("ok"));
}

#[test]
fn transient_error_is_retried_once_then_reported() {
    assert!(matches!(after_attempt(0, TurnOutcome::TransientError("t".into())), AttemptAction::Retry));
    match after_attempt(1, TurnOutcome::TransientError("t".into())) {
        AttemptAction::Failed { kind, error } => {
            assert_eq!(kind, RuntimeErrorKind::ProviderTransient);
            assert_eq!(error, "t");
        }
        _ => panic!("expected failure after the last retry"),
    }
    assert!(matches!(after_attempt(0, TurnOutcome::Complete), AttemptAction::Completed));
    assert!(matches!(after_attempt(0, TurnOutcome::Cancelled), AttemptAction::Stop));
}

#[test]
fn fatal_error_is_not_retried() {
    match after_attempt(0, TurnOutcome::FatalError { kind: RuntimeErrorKind::ProviderFatal, error: "bad".into() }) {
        AttemptAction::Failed { kind, error } => {
            assert_eq!(kind, RuntimeErrorKind::ProviderFatal);
            assert_eq!(error, "bad");
        }
        _ => panic!("fatal errors end the turn"),
    }
}

#[test]
fn runtime_loop_numbers_turns_and_keeps_history_on_model_switch() {
    let mut state = RuntimeLoop::new("echo".to_string());
    match state.on_command(AgentCommand::SubmitTurn { prompt: "hi".into() }) {
        LoopAction::StartTurn { turn_id, prompt } => {
            assert_eq!(turn_id, "turn-1");
            assert_eq!(prompt, "hi");
        }
        _ => panic!("expected a turn"),
    }
    state.finish_turn(Some(vec![ProviderMessage::User { content: "hi".into() }]));
    assert!(matches!(state.on_command(AgentCommand::SetModel { model: "other".into() }), LoopAction::Continue));
    assert_eq!(state.model, "other");
    assert_eq!(state.history.len(), 1);
    match state.on_command(AgentCommand::SubmitTurn { prompt: "again".into() }) {
        LoopAction::StartTurn { turn_id, .. } => assert_eq!(turn_id, "turn-2"),
        _ => panic!("expected a turn"),
    }
    assert!(matches!(state.on_command(AgentCommand::Cancel), LoopAction::Cancel));
    assert!(matches!(state.on_command(AgentCommand::Shutdown), LoopAction::Shutdown));
}

#[test]
fn turn_messages_append_the_prompt() {
    let history = vec![ProviderMessage::Assistant { content: "a".into() }];
    let msgs = turn_messages(&history, "next");
    assert_eq!(msgs.len(), 2);
    match &msgs[1] {
        ProviderMessage::User { content } => assert_eq!(content, "next"),
        _ => panic!("prompt should come last"),
    }
}

#[test]
fn batch_ids_are_capped() {
    assert_eq!(batch_id_of(3), 3);
    assert_eq!(batch_id_of(usize::MAX), u32::MAX);
}

#[test]
fn cancelled_event_reports_cancellation() {
    match blazar::runtime::cancelled_event() {
        AgentEvent::TurnFailed { kind, error } => {
            assert_eq!(kind, RuntimeErrorKind::Cancelled);
            assert_eq!(error, "cancelled");
        }
        _ => panic!("expected a failure event"),
    }
}

#[test]
fn runtime_is_named() {
    assert_eq!(blazar::runtime::runtime_name_for_test(), "spirit-chat-tui");
}
