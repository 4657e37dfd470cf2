use vstd::prelude::*;

use crate::capability::CapabilityClaim;
use crate::driver::{messages_view, MessageView, ProviderMessage};
use crate::protocol::{AgentCommand, AgentEvent, RuntimeErrorKind};
use crate::text::{chars_of, copy_string, decimal, extend_from_chars, spec_decimal, string_from_chars};
use crate::tools::ToolKind;
use crate::turn::{TurnOutcome, MAX_TRANSIENT_RETRIES};

verus! {

/// The name the runtime goes by.
pub fn runtime_name_for_test() -> (r: &'static str)
    ensures
        r@ == "spirit-chat-tui"@,
{
    "spirit-chat-tui"
}

/// A copy of a message.
pub fn clone_message(m: &ProviderMessage) -> (r: ProviderMessage)
    ensures
        r@ == m@,
{
    match m {
        ProviderMessage::User { content } => ProviderMessage::User { content: content.clone() },
        ProviderMessage::Assistant { content } => ProviderMessage::Assistant { content: content.clone() },
        ProviderMessage::ToolCall { id, name, arguments } => ProviderMessage::ToolCall {
            id: id.clone(),
            name: name.clone(),
            arguments: arguments.clone(),
        },
        ProviderMessage::ToolResult { tool_call_id, output, is_error } => ProviderMessage::ToolResult {
            tool_call_id: tool_call_id.clone(),
            output: output.clone(),
            is_error: *is_error,
        },
    }
}

/// The conversation a turn starts from: the history so far and the prompt.
pub fn turn_messages(history: &[ProviderMessage], prompt: &str) -> (r: Vec<ProviderMessage>)
    ensures
        messages_view(r@) == messages_view(history@).push(MessageView::User(prompt@)),
{
    let mut out: Vec<ProviderMessage> = Vec::new();
    let mut i: usize = 0;
    while i < history.len()
        invariant
            i <= history@.len(),
            messages_view(out@) == messages_view(history@.take(i as int)),
        decreases history@.len() - i,
    {
        let ghost before = out@;
        let m = clone_message(&history[i]);
        out.push(m);
        assert(messages_view(out@) =~= messages_view(before).push(m@));
        assert(history@.take(i as int + 1) =~= history@.take(i as int).push(history@[i as int]));
        assert(messages_view(history@.take(i as int + 1)) =~= messages_view(history@.take(i as int)).push(history@[i as int]@));
        i += 1;
    }
    assert(history@.take(history@.len() as int) =~= history@);
    let ghost before = out@;
    out.push(ProviderMessage::User { content: copy_string(prompt) });
    assert(messages_view(out@) =~= messages_view(before).push(MessageView::User(prompt@)));
    out
}

/// What to do after one attempt at a turn.
pub enum AttemptAction {
    /// The turn finished; its conversation becomes the history.
    Completed,
    /// The turn was cancelled; nothing is reported.
    Stop,
    /// A transient error; pause, then try again.
    Retry,
    /// The turn failed; report it.
    Failed { kind: RuntimeErrorKind, error: String },
}

/// Decides after attempt number `attempt` (from zero): a transient error is
/// retried up to [`MAX_TRANSIENT_RETRIES`] times, then reported.
pub fn after_attempt(attempt: u32, outcome: TurnOutcome) -> (r: AttemptAction)
    ensures
        match outcome {
            TurnOutcome::Complete => r is Completed,
            TurnOutcome::Cancelled => r is Stop,
            TurnOutcome::TransientError(e) => if attempt < MAX_TRANSIENT_RETRIES {
                r is Retry
            } else {
                r == (AttemptAction::Failed { kind: RuntimeErrorKind::ProviderTransient, error: e })
            },
            TurnOutcome::FatalError { kind, error } => r == (AttemptAction::Failed { kind, error }),
        },
{
    match outcome {
        TurnOutcome::Complete => AttemptAction::Completed,
        TurnOutcome::Cancelled => AttemptAction::Stop,
        TurnOutcome::TransientError(err) => {
            if attempt < MAX_TRANSIENT_RETRIES {
                AttemptAction::Retry
            } else {
                AttemptAction::Failed { kind: RuntimeErrorKind::ProviderTransient, error: err }
            }
        },
        TurnOutcome::FatalError { kind, error } => AttemptAction::Failed { kind, error },
    }
}

/// The report of a turn cancelled before an attempt started.
pub fn cancelled_event() -> (r: AgentEvent)
    ensures
        r matches AgentEvent::TurnFailed { kind, error } && kind == RuntimeErrorKind::Cancelled
            && error@ == "cancelled"@,
{
    AgentEvent::TurnFailed { kind: RuntimeErrorKind::Cancelled, error: copy_string("cancelled") }
}

/// The id of the `n`th turn.
pub open spec fn spec_turn_id(n: nat) -> Seq<char> {
    "turn-"@ + spec_decimal(n)
}

/// What the runtime thread does with a command.
pub enum LoopAction {
    /// Run a turn with this id and prompt.
    StartTurn { turn_id: String, prompt: String },
    /// Raise the cancel flag.
    Cancel,
    /// Nothing more to do for this command.
    Continue,
    /// Stop the thread.
    Shutdown,
}

/// The state of the runtime thread between commands.
pub struct RuntimeLoop {
    pub turn_counter: u64,
    pub model: String,
    pub history: Vec<ProviderMessage>,
}

impl RuntimeLoop {
    pub fn new(model: String) -> (r: Self)
        ensures
            r.turn_counter == 0,
            r.model == model,
            r.history@.len() == 0,
    {
        RuntimeLoop { turn_counter: 0, model, history: Vec::new() }
    }

    /// Takes in one command: a submitted turn gets the next id, a model
    /// switch keeps the conversation.
    pub fn on_command(&mut self, cmd: AgentCommand) -> (r: LoopAction)
        requires
            cmd is SubmitTurn ==> old(self).turn_counter < u64::MAX,
        ensures
            final(self).history == old(self).history,
            match cmd {
                AgentCommand::SubmitTurn { prompt } => final(self).turn_counter == old(self).turn_counter
                    + 1 && final(self).model == old(self).model && (r matches LoopAction::StartTurn {
                    turn_id,
                    prompt: p,
                } && turn_id@ == spec_turn_id(final(self).turn_counter as nat) && p == prompt),
                AgentCommand::SetModel { model } => final(self).model == model && final(self).turn_counter
                    == old(self).turn_counter && r is Continue,
                AgentCommand::RefreshAcpAgents => final(self).model == old(self).model
                    && final(self).turn_counter == old(self).turn_counter && r is Continue,
                AgentCommand::Cancel => final(self).model == old(self).model && final(self).turn_counter
                    == old(self).turn_counter && r is Cancel,
                AgentCommand::Shutdown => final(self).model == old(self).model
                    && final(self).turn_counter == old(self).turn_counter && r is Shutdown,
            },
    {
        match cmd {
            AgentCommand::SubmitTurn { prompt } => {
                self.turn_counter = self.turn_counter + 1;
                let mut id = chars_of("turn-");
                let d = decimal(self.turn_counter);
                extend_from_chars(&mut id, d.as_slice());
                LoopAction::StartTurn { turn_id: string_from_chars(id.as_slice()), prompt }
            },
            AgentCommand::SetModel { model } => {
                self.model = model;
                LoopAction::Continue
            },
            AgentCommand::RefreshAcpAgents => LoopAction::Continue,
            AgentCommand::Cancel => LoopAction::Cancel,
            AgentCommand::Shutdown => LoopAction::Shutdown,
        }
    }

    /// A finished turn's conversation becomes the history; a turn that did
    /// not finish leaves it as it was.
    pub fn finish_turn(&mut self, updated: Option<Vec<ProviderMessage>>)
        ensures
            final(self).turn_counter == old(self).turn_counter,
            final(self).model == old(self).model,
            match updated {
                Some(h) => final(self).history == h,
                None => final(self).history == old(self).history,
            },
    {
        if let Some(h) = updated {
            self.history = h;
        }
    }
}

/// The batch number reported for a batch index, capped at `u32::MAX`.
pub fn batch_id_of(index: usize) -> (r: u32)
    ensures
        index <= u32::MAX ==> r == index,
        index > u32::MAX ==> r == u32::MAX,
{
    if index <= u32::MAX as usize {
        index as u32
    } else {
        u32::MAX
    }
}

/// The report of a tool call about to run, with the resources it claims.
pub fn tool_call_started_event(
    call_id: &str,
    tool_name: &str,
    kind: ToolKind,
    arguments: &str,
    batch_id: u32,
    replay_index: usize,
    claims: &[CapabilityClaim],
) -> (r: AgentEvent)
    ensures
        r matches AgentEvent::ToolCallStarted {
            call_id: c,
            tool_name: t,
            kind: k,
            arguments: a,
            batch_id: b,
            replay_index: i,
            normalized_claims: n,
        } && c@ == call_id@ && t@ == tool_name@ && k == kind && a@ == arguments@ && b == batch_id
            && i == replay_index && n@.len() == claims@.len() && forall|j: int|
            0 <= j < claims@.len() ==> #[trigger] n@[j]@ == claims@[j].resource@,
{
    let mut names: Vec<String> = Vec::new();
    let mut j: usize = 0;
    while j < claims.len()
        invariant
            j <= claims@.len(),
            names@.len() == j,
            forall|k: int| 0 <= k < j ==> #[trigger] names@[k]@ == claims@[k].resource@,
        decreases claims@.len() - j,
    {
        names.push(claims[j].resource.clone());
        j += 1;
    }
    AgentEvent::ToolCallStarted {
        call_id: copy_string(call_id),
        tool_name: copy_string(tool_name),
        kind,
        arguments: copy_string(arguments),
        batch_id,
        replay_index,
        normalized_claims: names,
    }
}

} // verus!
