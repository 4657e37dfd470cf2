use vstd::prelude::*;

use crate::tools::ToolKind;

verus! {

#[derive(Debug, Clone, Copy, PartialEq, Eq)]
pub enum RuntimeErrorKind {
    ProviderTransient,
    ProviderFatal,
    ProtocolInvalidPayload,
    ToolExecution,
    Cancelled,
}

impl RuntimeErrorKind {
    /// Only transient provider errors are worth retrying.
    pub fn is_retryable(self) -> (r: bool)
        ensures
            r == (self == RuntimeErrorKind::ProviderTransient),
    {
        match self {
            RuntimeErrorKind::ProviderTransient => true,
            _ => false,
        }
    }
}

/// Commands sent from the UI thread to the agent runtime.
pub enum AgentCommand {
    /// Submit a new turn with the given user prompt.
    SubmitTurn { prompt: String },
    /// Switch the active model without rebuilding the runtime.
    SetModel { model: String },
    /// Refresh ACP-discovered agents and rebuild runtime tool registry.
    RefreshAcpAgents,
    /// Cancel the current turn.
    Cancel,
    /// Shut down the runtime thread.
    Shutdown,
}

/// Provider token usage for the current turn.
#[derive(Debug, Clone, Copy, PartialEq, Eq)]
pub struct AgentUsage {
    pub prompt_tokens: u32,
    pub completion_tokens: u32,
    pub total_tokens: u32,
}

/// The fields of the structured assistant response seen so far while it streams.
#[derive(Debug, Clone, PartialEq, Eq)]
pub struct AssistantContractDelta {
    pub intent: Option<String>,
    pub summary: Option<String>,
    pub tool_summary: Option<String>,
    pub nextstep: Option<String>,
    pub needs_user_input: Option<bool>,
    pub question: Option<String>,
    pub status: Option<String>,
    pub error: Option<String>,
    pub complete: bool,
}

/// The contract fields of a delta seen as character sequences.
pub struct ContractDeltaView {
    pub intent: Option<Seq<char>>,
    pub summary: Option<Seq<char>>,
    pub tool_summary: Option<Seq<char>>,
    pub nextstep: Option<Seq<char>>,
    pub needs_user_input: Option<bool>,
    pub question: Option<Seq<char>>,
    pub status: Option<Seq<char>>,
    pub error: Option<Seq<char>>,
    pub complete: bool,
}

pub open spec fn opt_string_view(o: Option<String>) -> Option<Seq<char>> {
    match o {
        Some(s) => Some(s@),
        None => None,
    }
}

impl View for AssistantContractDelta {
    type V = ContractDeltaView;

    open spec fn view(&self) -> ContractDeltaView {
        ContractDeltaView {
            intent: opt_string_view(self.intent),
            summary: opt_string_view(self.summary),
            tool_summary: opt_string_view(self.tool_summary),
            nextstep: opt_string_view(self.nextstep),
            needs_user_input: self.needs_user_input,
            question: opt_string_view(self.question),
            status: opt_string_view(self.status),
            error: opt_string_view(self.error),
            complete: self.complete,
        }
    }
}

/// Events sent from the agent runtime back to the UI thread.
#[derive(Debug, Clone, PartialEq, Eq)]
pub enum AgentEvent {
    /// A new turn has started processing.
    TurnStarted { turn_id: String },
    /// A chunk of assistant text was generated (streaming).
    TextDelta { text: String },
    /// A chunk of chain-of-thought reasoning (thinking mode).
    ThinkingDelta { text: String },
    /// Updated provider token usage for the current turn.
    UsageUpdated(AgentUsage),
    /// A tool call is about to execute.
    ToolCallStarted {
        call_id: String,
        tool_name: String,
        kind: ToolKind,
        arguments: String,
        batch_id: u32,
        replay_index: usize,
        normalized_claims: Vec<String>,
    },
    /// A tool call finished executing.
    ToolCallCompleted { call_id: String, output: String, is_error: bool },
    /// ACP agent discovery finished and tools were refreshed.
    AcpAgentsRefreshed,
    /// ACP agent discovery failed.
    AcpAgentsRefreshFailed { error: String },
    /// The current turn completed successfully.
    TurnComplete,
    /// The current turn failed.
    TurnFailed { kind: RuntimeErrorKind, error: String },
}

} // verus!
