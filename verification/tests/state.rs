use blazar::protocol::{AgentEvent, RuntimeErrorKind};
use blazar::state::{AgentRuntimeState, TurnState};
use blazar::tools::ToolKind;

#[test]
fn a_turn_goes_from_started_to_idle() {
    let mut state = AgentRuntimeState::default();
    assert!(!state.is_busy());
    assert!(state.apply_event(&AgentEvent::TurnStarted { turn_id: "turn-1".into() }));
    assert!(state.is_busy());
    assert!(!state.apply_event(&AgentEvent::TextDelta { text: "hi".into() }));
    assert_eq!(state.streaming_text, "hi");
    assert!(!state.apply_event(&AgentEvent::ToolCallStarted {
        call_id: "c1".into(),
        tool_name: "bash".into(),
        kind: ToolKind::Local,
        arguments: "{}".into(),
        batch_id: 0,
        replay_index: 0,
        normalized_claims: Vec::new(),
    }));
    assert_eq!(state.active_tools.len(), 1);
    assert!(!state.apply_event(&AgentEvent::ToolCallStarted {
        call_id: "c1".into(),
        tool_name: "bash".into(),
        kind: ToolKind::Local,
        arguments: "{}".into(),
        batch_id: 0,
        replay_index: 1,
        normalized_claims: Vec::new(),
    }));
    assert_eq!(state.active_tools.len(), 1);
    assert!(!state.apply_event(&AgentEvent::ToolCallCompleted { call_id: "c1".into(), output: "ok".into(), is_error: false }));
    assert!(state.apply_event(&AgentEvent::TurnComplete));
    assert!(!state.is_busy());
    assert_eq!(state.turn_count, 1);
    assert_eq!(state.tool_call_count, 1);
}

#[test]
fn a_failed_turn_is_not_busy() {
    let mut state = AgentRuntimeState::default();
    state.apply_event(&AgentEvent::TurnStarted { turn_id: "t".into() });
    state.apply_event(&AgentEvent::TurnFailed { kind: RuntimeErrorKind::ProviderFatal, error: "x".into() });
    assert!(!state.is_busy());
    assert_eq!(state.turn_state, TurnState::Failed { error: "x".into() });
}

#[test]
fn side_events_leave_the_state_as_it_was() {
    let mut state = AgentRuntimeState::default();
    state.apply_event(&AgentEvent::TurnStarted { turn_id: "turn-1".into() });
    state.apply_event(&AgentEvent::TextDelta { text: "ab".into() });
    assert!(!state.apply_event(&AgentEvent::ThinkingDelta { text: "hmm".into() }));
    assert!(!state.apply_event(&AgentEvent::AcpAgentsRefreshed));
    assert!(!state.apply_event(&AgentEvent::AcpAgentsRefreshFailed { error: "down".into() }));
    assert!(state.is_busy());
    assert_eq!(state.streaming_text, "ab");
    assert_eq!(state.turn_count, 1);
    assert!(state.apply_event(&AgentEvent::TurnFailed { kind: RuntimeErrorKind::ProviderFatal, error: "boom".into() }));
    assert!(!state.is_busy());
    assert_eq!(state.turn_state, TurnState::Failed { error: "boom".into() });
    assert!(state.active_tools.is_empty());
}
