use vstd::prelude::*;

use crate::calls::{CallCounter, CallKey, CallSet};
use crate::capability::{
    spec_capability_text, CapabilityClaim, CapabilityContentPart, CapabilityHandle,
    CapabilityKind, CapabilityResult,
};
use crate::contract::{
    format_response_contract_retry_prompt, spec_contract_enforced, spec_contract_violations,
    spec_retry_prompt, string_views, validate_response_contract, response_contract_enforced,
};
use crate::planning::{
    plan_tool_call, spec_plan, PendingToolCall, PlannedToolCall,
};
use crate::protocol::RuntimeErrorKind;
use crate::scheduler::{batch_views, schedule_batches, spec_schedule, ScheduledCall};
use crate::stream::ProviderPass;
use crate::text::{copy_string, extend_chars, string_from_chars};
use crate::tools::{ToolKind, ToolResult, is_capability_projection};
use crate::turn::{
    annotate_timeout_failure, spec_is_timeout, spec_timeout_text, with_text, TurnOutcome,
    JSON_REPAIR_NOTE, MAX_RESPONSE_CONTRACT_RETRIES, MAX_TOOL_ITERATIONS,
};

verus! {

/// A message of the conversation sent to the provider.
pub enum ProviderMessage {
    User { content: String },
    Assistant { content: String },
    ToolCall { id: String, name: String, arguments: String },
    ToolResult { tool_call_id: String, output: String, is_error: bool },
}

/// A message seen as character sequences.
pub enum MessageView {
    User(Seq<char>),
    Assistant(Seq<char>),
    ToolCall(Seq<char>, Seq<char>, Seq<char>),
    ToolResult(Seq<char>, Seq<char>, bool),
}

impl View for ProviderMessage {
    type V = MessageView;

    open spec fn view(&self) -> MessageView {
        match self {
            ProviderMessage::User { content } => MessageView::User(content@),
            ProviderMessage::Assistant { content } => MessageView::Assistant(content@),
            ProviderMessage::ToolCall { id, name, arguments } => MessageView::ToolCall(
                id@,
                name@,
                arguments@,
            ),
            ProviderMessage::ToolResult { tool_call_id, output, is_error } => MessageView::ToolResult(
                tool_call_id@,
                output@,
                *is_error,
            ),
        }
    }
}

pub open spec fn messages_view(s: Seq<ProviderMessage>) -> Seq<MessageView> {
    s.map_values(|m: ProviderMessage| m@)
}

/// A tool call that was answered or run, with its result.
pub struct ExecutedToolCall {
    pub pending: PendingToolCall,
    pub result: CapabilityResult,
    /// The call's signature, for calls that actually ran.
    pub success_signature: Option<(String, String)>,
}

/// What running one batch produced, in the batch's order.
pub struct BatchExecution {
    pub executed_calls: Vec<ExecutedToolCall>,
    /// Cancellation stopped the batch before every call was launched.
    pub cancelled_before_launch_completed: bool,
}

/// The note put before the output of a call whose arguments were repaired.
pub open spec fn spec_repair_noted(output: Seq<char>) -> Seq<char> {
    JSON_REPAIR_NOTE@ + "\n\n"@ + output
}

/// The result of running a tool: what the tool returned, seen as a capability
/// result, or a failure carrying the registry's error.
pub open spec fn spec_tool_outcome(outcome: Result<ToolResult, String>, r: CapabilityResult) -> bool {
    match outcome {
        Ok(t) => is_capability_projection(t, r),
        Err(e) => crate::planning::is_failure_text(r, e@),
    }
}

/// Turns the registry's answer for a call into a capability result.
pub fn capability_result_of(outcome: Result<ToolResult, String>) -> (r: CapabilityResult)
    ensures
        spec_tool_outcome(outcome, r),
{
    match outcome {
        Ok(result) => result.into_capability_result(),
        Err(error) => CapabilityResult::failure(error.as_str()),
    }
}

/// A call that ran: its result, with the repair note in front when its
/// arguments had to be repaired, and its signature.
pub fn executed_call(
    pending: PendingToolCall,
    result: CapabilityResult,
    was_repaired: bool,
    signature: (String, String),
) -> (r: ExecutedToolCall)
    ensures
        r.pending == pending,
        r.success_signature == Some(signature),
        !was_repaired ==> r.result == result,
        was_repaired ==> with_text(result, r.result, spec_repair_noted(spec_capability_text(result))),
{
    if was_repaired {
        let output = result.text_output();
        let mut text: Vec<char> = Vec::new();
        extend_chars(&mut text, JSON_REPAIR_NOTE);
        extend_chars(&mut text, "\n\n");
        extend_chars(&mut text, output.as_str());
        let noted = CapabilityResult {
            content: vec![CapabilityContentPart::Text { text: string_from_chars(text.as_slice()) }],
            exit_code: result.exit_code,
            is_error: result.is_error,
            output_truncated: result.output_truncated,
            error: result.error,
        };
        ExecutedToolCall { pending, result: noted, success_signature: Some(signature) }
    } else {
        ExecutedToolCall { pending, result, success_signature: Some(signature) }
    }
}

/// A call answered without running its tool.
pub fn immediate_call(pending: PendingToolCall, result: CapabilityResult) -> (r: ExecutedToolCall)
    ensures
        r.pending == pending,
        r.result == result,
        r.success_signature is None,
{
    ExecutedToolCall { pending, result, success_signature: None }
}

/// Gathers a batch's results; the batch was cut short when fewer calls ran
/// than it held.
pub fn batch_execution(executed_calls: Vec<ExecutedToolCall>, batch_len: usize) -> (r: BatchExecution)
    ensures
        r.executed_calls@ == executed_calls@,
        r.cancelled_before_launch_completed == (executed_calls@.len() < batch_len),
{
    let cancelled = executed_calls.len() < batch_len;
    BatchExecution { executed_calls, cancelled_before_launch_completed: cancelled }
}

/// The kind of the tool behind a capability handle; a tool the registry does
/// not know is taken for a local one.
pub fn tool_kind_for_handle(handle: Option<CapabilityHandle>) -> (r: ToolKind)
    ensures
        match handle {
            Some(h) => match h.kind {
                CapabilityKind::Local => r == ToolKind::Local,
                CapabilityKind::Agent { is_acp } => r == (ToolKind::Agent { is_acp }),
            },
            None => r == ToolKind::Local,
        },
{
    match handle {
        Some(h) => match h.kind {
            CapabilityKind::Local => ToolKind::Local,
            CapabilityKind::Agent { is_acp } => ToolKind::Agent { is_acp },
        },
        None => ToolKind::Local,
    }
}

/// A finished tool call as reported to the observer and the provider.
pub struct ToolCompletion {
    pub call_id: String,
    pub output: String,
    pub is_error: bool,
}

pub open spec fn completion_view(c: ToolCompletion) -> MessageView {
    MessageView::ToolResult(c.call_id@, c.output@, c.is_error)
}

/// What taking in one executed call does: the timeout counts go from
/// `t_before` to `t_after`, the pass's successes from `s_before` to
/// `s_after`, and `c` is what is reported.
pub open spec fn spec_record(
    e: ExecutedToolCall,
    t_before: CallCounter,
    t_after: CallCounter,
    s_before: CallSet,
    s_after: CallSet,
    c: ToolCompletion,
) -> bool {
    let text = spec_capability_text(e.result);
    &&& t_after.well_formed()
    &&& c.call_id@ == e.pending.call_id@
    &&& c.is_error == e.result.is_error
    &&& match e.success_signature {
        Some(sig) => if e.result.is_error {
            let key = (e.pending.name@, sig.1@);
            &&& s_after == s_before
            &&& forall|k: CallKey| k != key ==> t_after.count_of(k) == t_before.count_of(k)
            &&& if spec_is_timeout(text) {
                &&& (t_before.count_of(key) < usize::MAX ==> t_after.count_of(key) == t_before.count_of(key) + 1)
                &&& (t_before.count_of(key) == usize::MAX ==> t_after.count_of(key) == t_before.count_of(key))
                &&& c.output@ == spec_timeout_text(text, t_after.count_of(key))
            } else {
                &&& t_after.count_of(key) == 0
                &&& c.output@ == text
            }
        } else {
            let key = (sig.0@, sig.1@);
            &&& c.output@ == text
            &&& t_after.count_of(key) == 0
            &&& forall|k: CallKey| k != key ==> t_after.count_of(k) == t_before.count_of(k)
            &&& s_after.has(key)
            &&& forall|k: CallKey| k != key ==> s_after.has(k) == s_before.has(k)
        },
        None => {
            &&& c.output@ == text
            &&& t_after == t_before
            &&& s_after == s_before
        },
    }
}

/// The next thing a turn needs from the runtime.
pub enum TurnStep {
    /// Stream another provider pass over the messages.
    StreamPass,
    /// Run these batches in order.
    RunBatches(Vec<Vec<ScheduledCall<PlannedToolCall>>>),
    /// The turn is over.
    Finish(TurnOutcome),
}

/// The error a turn ends with when the final answer keeps breaking the
/// response contract.
pub open spec fn spec_contract_failure(violations: Seq<Seq<char>>) -> Seq<char> {
    "response contract validation failed after 2 retries: "@ + crate::text::spec_join_with(
        violations,
        ", "@,
    )
}

/// The error a turn ends with when it would run too many tools.
pub open spec fn iteration_limit_error() -> Seq<char> {
    "tool iteration limit exceeded"@
}

/// The bookkeeping of one turn between provider passes and tool batches.
pub struct TurnDriver {
    pub contract_enforced: bool,
    pub tool_iterations: usize,
    pub response_contract_retries: usize,
    pub consecutive_failures: CallCounter,
    pub consecutive_timeout_failures: CallCounter,
    pub previous_pass_successes: CallSet,
    pub current_pass_successes: CallSet,
}

/// Whether `planned` is the plan of each call in `calls`, in order, with the
/// failure counts threaded from `before` to `after`.
pub open spec fn plans_in_order<F: Fn(&String, &serde_json::Value) -> Vec<CapabilityClaim>>(
    calls: Seq<PendingToolCall>,
    planned: Seq<ScheduledCall<PlannedToolCall>>,
    previous: CallSet,
    before: CallCounter,
    after: CallCounter,
    claims_of: F,
) -> bool {
    exists|states: Seq<CallCounter>|
        #![trigger states.len()]
        {
            &&& states.len() == calls.len() + 1
            &&& planned.len() == calls.len()
            &&& states[0] == before
            &&& states[calls.len() as int] == after
            &&& forall|i: int|
                0 <= i < calls.len() ==> #[trigger] spec_plan(
                    calls[i],
                    previous,
                    states[i],
                    states[i + 1],
                    planned[i],
                    claims_of,
                )
        }
}

/// The messages a pass that asked for tools adds: its text, when there is
/// any, then each tool call.
pub open spec fn spec_call_messages(text: Seq<char>, calls: Seq<PendingToolCall>) -> Seq<MessageView> {
    let calls_view = calls.map_values(
        |c: PendingToolCall| MessageView::ToolCall(c.call_id@, c.name@, c.arguments@),
    );
    if text.len() > 0 {
        seq![MessageView::Assistant(text)] + calls_view
    } else {
        calls_view
    }
}

/// What a final answer (a pass with no tool calls) does to the turn.
pub open spec fn spec_answer_step(
    old: TurnDriver,
    new: TurnDriver,
    text: Seq<char>,
    old_msgs: Seq<ProviderMessage>,
    new_msgs: Seq<ProviderMessage>,
    r: TurnStep,
) -> bool {
    let violations = spec_contract_violations(text);
    if old.contract_enforced && violations.len() > 0 {
        if old.response_contract_retries >= MAX_RESPONSE_CONTRACT_RETRIES {
            &&& new.response_contract_retries == old.response_contract_retries
            &&& messages_view(new_msgs) == messages_view(old_msgs)
            &&& r matches TurnStep::Finish(TurnOutcome::FatalError { kind, error })
            &&& kind == RuntimeErrorKind::ToolExecution
            &&& error@ == spec_contract_failure(violations)
        } else {
            &&& new.response_contract_retries == old.response_contract_retries + 1
            &&& messages_view(new_msgs) == messages_view(old_msgs).push(
                MessageView::User(spec_retry_prompt(violations)),
            )
            &&& r is StreamPass
        }
    } else {
        &&& new.response_contract_retries == old.response_contract_retries
        &&& messages_view(new_msgs) == if text.len() > 0 {
            messages_view(old_msgs).push(MessageView::Assistant(text))
        } else {
            messages_view(old_msgs)
        }
        &&& r matches TurnStep::Finish(o) && o is Complete
    }
}

impl TurnDriver {
    pub open spec fn well_formed(&self) -> bool {
        &&& self.consecutive_failures.well_formed()
        &&& self.consecutive_timeout_failures.well_formed()
        &&& self.tool_iterations <= MAX_TOOL_ITERATIONS
    }

    /// A turn for `model` that has done nothing yet.
    pub fn new(model: &str) -> (r: Self)
        ensures
            r.well_formed(),
            r.contract_enforced == spec_contract_enforced(model@),
            r.tool_iterations == 0,
            r.response_contract_retries == 0,
            forall|k: CallKey| r.consecutive_failures.count_of(k) == 0,
            forall|k: CallKey| r.consecutive_timeout_failures.count_of(k) == 0,
            forall|k: CallKey| !r.previous_pass_successes.has(k),
            forall|k: CallKey| !r.current_pass_successes.has(k),
    {
        TurnDriver {
            contract_enforced: response_contract_enforced(model),
            tool_iterations: 0,
            response_contract_retries: 0,
            consecutive_failures: CallCounter::new(),
            consecutive_timeout_failures: CallCounter::new(),
            previous_pass_successes: CallSet::new(),
            current_pass_successes: CallSet::new(),
        }
    }

    /// Before a provider pass: a cancelled turn stops here.
    pub fn start_pass(&self, cancelled: bool) -> (r: Option<TurnOutcome>)
        ensures
            cancelled ==> r == Some(TurnOutcome::Cancelled),
            !cancelled ==> r is None,
    {
        if cancelled {
            Some(TurnOutcome::Cancelled)
        } else {
            None
        }
    }

    /// A final answer (no tool calls) came in.
    fn finish_answer(&mut self, text: String, messages: &mut Vec<ProviderMessage>) -> (r: TurnStep)
        requires
            old(self).well_formed(),
        ensures
            final(self).well_formed(),
            final(self).tool_iterations == old(self).tool_iterations,
            final(self).consecutive_failures == old(self).consecutive_failures,
            final(self).consecutive_timeout_failures == old(self).consecutive_timeout_failures,
            final(self).previous_pass_successes == old(self).previous_pass_successes,
            final(self).current_pass_successes == old(self).current_pass_successes,
            final(self).contract_enforced == old(self).contract_enforced,
            spec_answer_step(*old(self), *final(self), text@, old(messages)@, final(messages)@, r),
    {
        if self.contract_enforced {
            if let Err(violations) = validate_response_contract(text.as_str()) {
                if self.response_contract_retries >= MAX_RESPONSE_CONTRACT_RETRIES {
                    let mut error: Vec<char> = Vec::new();
                    extend_chars(&mut error, "response contract validation failed after 2 retries: ");
                    let joined = crate::text::join_with(violations.as_slice(), ", ");
                    assert(crate::text::views_of(violations@) =~= string_views(violations@));
                    extend_chars(&mut error, joined.as_str());
                    return TurnStep::Finish(
                        TurnOutcome::FatalError {
                            kind: RuntimeErrorKind::ToolExecution,
                            error: string_from_chars(error.as_slice()),
                        },
                    );
                }
                self.response_contract_retries = self.response_contract_retries + 1;
                let prompt = format_response_contract_retry_prompt(violations.as_slice());
                let ghost before = messages@;
                messages.push(ProviderMessage::User { content: prompt });
                assert(messages_view(messages@) =~= messages_view(before).push(
                    MessageView::User(spec_retry_prompt(string_views(violations@))),
                ));
                return TurnStep::StreamPass;
            }
        }
        if text.unicode_len() > 0 {
            let ghost before = messages@;
            messages.push(ProviderMessage::Assistant { content: text });
            assert(messages_view(messages@) =~= messages_view(before).push(
                MessageView::Assistant(messages@.last()->Assistant_content@),
            ));
        }
        TurnStep::Finish(TurnOutcome::Complete)
    }

    /// The pass asked for tools: its text and calls go into the conversation,
    /// each call is planned and the plans are batched.
    fn plan_calls<F: Fn(&String, &serde_json::Value) -> Vec<CapabilityClaim>>(
        &mut self,
        text: String,
        calls: Vec<PendingToolCall>,
        messages: &mut Vec<ProviderMessage>,
        claims_of: &F,
    ) -> (r: Vec<Vec<ScheduledCall<PlannedToolCall>>>)
        requires
            old(self).well_formed(),
            forall|n: &String, v: &serde_json::Value| claims_of.requires((n, v)),
        ensures
            final(self).well_formed(),
            final(self).tool_iterations == old(self).tool_iterations,
            final(self).response_contract_retries == old(self).response_contract_retries,
            final(self).consecutive_timeout_failures == old(self).consecutive_timeout_failures,
            final(self).previous_pass_successes == old(self).previous_pass_successes,
            final(self).contract_enforced == old(self).contract_enforced,
            forall|k: CallKey| !final(self).current_pass_successes.has(k),
            messages_view(final(messages)@) == messages_view(old(messages)@) + spec_call_messages(
                text@,
                calls@,
            ),
            exists|planned: Seq<ScheduledCall<PlannedToolCall>>|
                plans_in_order(
                    calls@,
                    planned,
                    old(self).previous_pass_successes,
                    old(self).consecutive_failures,
                    final(self).consecutive_failures,
                    *claims_of,
                ) && batch_views(r@) == spec_schedule(planned),
    {
        let ghost m0 = messages_view(messages@);
        if text.unicode_len() > 0 {
            messages.push(ProviderMessage::Assistant { content: text });
        }
        let ghost m1 = messages_view(messages@);
        assert(m1 == if text@.len() > 0 {
            m0.push(MessageView::Assistant(text@))
        } else {
            m0
        }) by {
            if text@.len() > 0 {
                assert(m1 =~= m0.push(MessageView::Assistant(text@)));
            } else {
                assert(m1 =~= m0);
            }
        }
        let ghost calls_view = calls@.map_values(
            |c: PendingToolCall| MessageView::ToolCall(c.call_id@, c.name@, c.arguments@),
        );
        let mut i: usize = 0;
        while i < calls.len()
            invariant
                i <= calls@.len(),
                messages_view(messages@) == m1 + calls_view.take(i as int),
                calls_view.len() == calls@.len(),
                forall|j: int| 0 <= j < calls@.len() ==> #[trigger] calls_view[j] == MessageView::ToolCall(calls@[j].call_id@, calls@[j].name@, calls@[j].arguments@),
            decreases calls@.len() - i,
        {
            let c = &calls[i];
            let ghost before = messages@;
            messages.push(
                ProviderMessage::ToolCall {
                    id: c.call_id.clone(),
                    name: c.name.clone(),
                    arguments: c.arguments.clone(),
                },
            );
            assert(messages_view(messages@) =~= messages_view(before).push(calls_view[i as int]));
            assert(calls_view.take(i as int + 1) =~= calls_view.take(i as int).push(calls_view[i as int]));
            i += 1;
        }
        assert(calls_view.take(calls_view.len() as int) =~= calls_view);
        assert(messages_view(messages@) =~= m0 + spec_call_messages(text@, calls@));
        let ghost all_calls = calls@;
        let ghost mut states: Seq<CallCounter> = seq![self.consecutive_failures];
        let mut rest = calls;
        let mut planned: Vec<ScheduledCall<PlannedToolCall>> = Vec::new();
        while rest.len() > 0
            invariant
                self.consecutive_failures.well_formed(),
                planned@.len() + rest@.len() == all_calls.len(),
                rest@ == all_calls.skip(planned@.len() as int),
                states.len() == planned@.len() + 1,
                states[0] == old(self).consecutive_failures,
                states[planned@.len() as int] == self.consecutive_failures,
                forall|j: int|
                    0 <= j < planned@.len() ==> #[trigger] spec_plan(
                        all_calls[j],
                        self.previous_pass_successes,
                        states[j],
                        states[j + 1],
                        planned@[j],
                        *claims_of,
                    ),
                self.previous_pass_successes == old(self).previous_pass_successes,
                self.tool_iterations == old(self).tool_iterations,
                self.response_contract_retries == old(self).response_contract_retries,
                self.consecutive_timeout_failures == old(self).consecutive_timeout_failures,
                self.contract_enforced == old(self).contract_enforced,
                self.current_pass_successes == old(self).current_pass_successes,
                forall|n: &String, v: &serde_json::Value| claims_of.requires((n, v)),
            decreases rest@.len(),
        {
            let ghost k = planned@.len() as int;
            let pending = rest.remove(0);
            assert(pending == all_calls[k]);
            assert(rest@ =~= all_calls.skip(k + 1));
            let scheduled = plan_tool_call(
                pending,
                &self.previous_pass_successes,
                &mut self.consecutive_failures,
                claims_of,
            );
            planned.push(scheduled);
            proof {
                states = states.push(self.consecutive_failures);
            }
        }
        assert(plans_in_order(
            all_calls,
            planned@,
            old(self).previous_pass_successes,
            old(self).consecutive_failures,
            self.consecutive_failures,
            *claims_of,
        )) by {
            assert(states.len() == all_calls.len() + 1);
        }
        self.current_pass_successes = CallSet::new();
        schedule_batches(planned)
    }

    /// After a provider pass: a final answer is checked against the response
    /// contract, tool calls are planned and batched, and a failed or cancelled
    /// pass ends the turn (a transient error is fatal once tools have run).
    pub fn after_pass<F: Fn(&String, &serde_json::Value) -> Vec<CapabilityClaim>>(
        &mut self,
        pass: ProviderPass,
        messages: &mut Vec<ProviderMessage>,
        claims_of: &F,
    ) -> (r: TurnStep)
        requires
            old(self).well_formed(),
            forall|n: &String, v: &serde_json::Value| claims_of.requires((n, v)),
        ensures
            final(self).well_formed(),
            final(self).tool_iterations == old(self).tool_iterations,
            final(self).contract_enforced == old(self).contract_enforced,
            final(self).consecutive_timeout_failures == old(self).consecutive_timeout_failures,
            final(self).previous_pass_successes == old(self).previous_pass_successes,
            match pass.outcome {
                TurnOutcome::Complete => if pass.tool_calls@.len() == 0 {
                    &&& spec_answer_step(
                        *old(self),
                        *final(self),
                        pass.assistant_text@,
                        old(messages)@,
                        final(messages)@,
                        r,
                    )
                    &&& final(self).consecutive_failures == old(self).consecutive_failures
                    &&& final(self).current_pass_successes == old(self).current_pass_successes
                } else {
                    &&& final(self).response_contract_retries == old(self).response_contract_retries
                    &&& forall|k: CallKey| !final(self).current_pass_successes.has(k)
                    &&& messages_view(final(messages)@) == messages_view(old(messages)@)
                        + spec_call_messages(pass.assistant_text@, pass.tool_calls@)
                    &&& r matches TurnStep::RunBatches(b) && exists|planned: Seq<ScheduledCall<PlannedToolCall>>|
                        plans_in_order(
                            pass.tool_calls@,
                            planned,
                            old(self).previous_pass_successes,
                            old(self).consecutive_failures,
                            final(self).consecutive_failures,
                            *claims_of,
                        ) && batch_views(b@) == spec_schedule(planned)
                },
                TurnOutcome::Cancelled => r matches TurnStep::Finish(o) && o is Cancelled,
                TurnOutcome::TransientError(e) => if old(self).tool_iterations > 0 {
                    r matches TurnStep::Finish(TurnOutcome::FatalError { kind, error })
                        && kind == RuntimeErrorKind::ProviderTransient && error == e
                } else {
                    r matches TurnStep::Finish(TurnOutcome::TransientError(x)) && x == e
                },
                TurnOutcome::FatalError { kind, error } => r matches TurnStep::Finish(
                    TurnOutcome::FatalError { kind: k, error: x },
                ) && k == kind && x == error,
            },
            !(pass.outcome is Complete) ==> *final(self) == *old(self) && final(messages)@ == old(
                messages,
            )@,
    {
        let ProviderPass { outcome, assistant_text, tool_calls, contract: _ } = pass;
        match outcome {
            TurnOutcome::Complete => {
                if tool_calls.len() == 0 {
                    self.finish_answer(assistant_text, messages)
                } else {
                    let batches = self.plan_calls(assistant_text, tool_calls, messages, claims_of);
                    TurnStep::RunBatches(batches)
                }
            },
            TurnOutcome::Cancelled => TurnStep::Finish(TurnOutcome::Cancelled),
            TurnOutcome::TransientError(err) => {
                if self.tool_iterations > 0 {
                    TurnStep::Finish(
                        TurnOutcome::FatalError { kind: RuntimeErrorKind::ProviderTransient, error: err },
                    )
                } else {
                    TurnStep::Finish(TurnOutcome::TransientError(err))
                }
            },
            TurnOutcome::FatalError { kind, error } => TurnStep::Finish(
                TurnOutcome::FatalError { kind, error },
            ),
        }
    }

    /// Before a batch: a cancelled turn stops, a turn out of tool iterations
    /// fails, else the number of the batch's calls that may run.
    pub fn before_batch(&self, cancelled: bool, batch_len: usize) -> (r: Result<usize, TurnOutcome>)
        requires
            self.well_formed(),
        ensures
            cancelled ==> (r matches Err(o) && o is Cancelled),
            !cancelled && self.tool_iterations >= MAX_TOOL_ITERATIONS ==> (r matches Err(
                TurnOutcome::FatalError { kind, error },
            ) && kind == RuntimeErrorKind::ToolExecution && error@ == iteration_limit_error()),
            !cancelled && self.tool_iterations < MAX_TOOL_ITERATIONS ==> (r matches Ok(n) && n == (
            if batch_len < MAX_TOOL_ITERATIONS - self.tool_iterations {
                batch_len as int
            } else {
                MAX_TOOL_ITERATIONS - self.tool_iterations
            })),
    {
        if cancelled {
            return Err(TurnOutcome::Cancelled);
        }
        if self.tool_iterations >= MAX_TOOL_ITERATIONS {
            return Err(
                TurnOutcome::FatalError {
                    kind: RuntimeErrorKind::ToolExecution,
                    error: copy_string("tool iteration limit exceeded"),
                },
            );
        }
        let remaining = MAX_TOOL_ITERATIONS - self.tool_iterations;
        if batch_len < remaining {
            Ok(batch_len)
        } else {
            Ok(remaining)
        }
    }

    /// The end of a pass whose batches all ran: its successes become the ones
    /// a repeated call is checked against.
    pub fn end_tool_pass(&mut self)
        ensures
            final(self).previous_pass_successes == old(self).current_pass_successes,
            forall|k: CallKey| !final(self).current_pass_successes.has(k),
            final(self).tool_iterations == old(self).tool_iterations,
            final(self).response_contract_retries == old(self).response_contract_retries,
            final(self).consecutive_failures == old(self).consecutive_failures,
            final(self).consecutive_timeout_failures == old(self).consecutive_timeout_failures,
            final(self).contract_enforced == old(self).contract_enforced,
    {
        let mut current = CallSet::new();
        std::mem::swap(&mut current, &mut self.current_pass_successes);
        self.previous_pass_successes = current;
    }

    /// Takes in one executed call: a failure that timed out is noted and
    /// counted, a success clears its timeout count and is remembered for the
    /// pass; its output goes into the conversation.
    fn record_call(&mut self, executed: ExecutedToolCall, messages: &mut Vec<ProviderMessage>) -> (r: ToolCompletion)
        requires
            old(self).well_formed(),
            old(self).tool_iterations < MAX_TOOL_ITERATIONS,
        ensures
            final(self).well_formed(),
            final(self).tool_iterations == old(self).tool_iterations + 1,
            final(self).response_contract_retries == old(self).response_contract_retries,
            final(self).consecutive_failures == old(self).consecutive_failures,
            final(self).previous_pass_successes == old(self).previous_pass_successes,
            final(self).contract_enforced == old(self).contract_enforced,
            spec_record(
                executed,
                old(self).consecutive_timeout_failures,
                final(self).consecutive_timeout_failures,
                old(self).current_pass_successes,
                final(self).current_pass_successes,
                r,
            ),
            messages_view(final(messages)@) == messages_view(old(messages)@).push(completion_view(r)),
    {
        let ExecutedToolCall { pending, result, success_signature } = executed;
        let mut result = result;
        match &success_signature {
            Some(signature) => {
                if result.is_error {
                    result = annotate_timeout_failure(
                        result,
                        pending.name.as_str(),
                        signature.1.as_str(),
                        &mut self.consecutive_timeout_failures,
                    );
                    proof {
                        reveal_with_fuel(crate::capability::spec_render, 2);
                    }
                } else {
                    self.consecutive_timeout_failures.reset(signature.0.as_str(), signature.1.as_str());
                    self.current_pass_successes.insert(signature.0.as_str(), signature.1.as_str());
                }
            },
            None => {},
        }
        let output = result.text_output();
        let completion = ToolCompletion {
            call_id: pending.call_id,
            output,
            is_error: result.is_error,
        };
        let ghost before = messages@;
        messages.push(
            ProviderMessage::ToolResult {
                tool_call_id: completion.call_id.clone(),
                output: completion.output.clone(),
                is_error: completion.is_error,
            },
        );
        assert(messages_view(messages@) =~= messages_view(before).push(completion_view(completion)));
        self.tool_iterations = self.tool_iterations + 1;
        completion
    }

    /// After a batch ran: every executed call is taken in, in order; then a
    /// batch cut short by cancellation ends the turn as cancelled, and one cut
    /// short by the iteration limit ends it as failed.
    pub fn after_batch(
        &mut self,
        execution: BatchExecution,
        truncated: bool,
        messages: &mut Vec<ProviderMessage>,
    ) -> (r: (Vec<ToolCompletion>, Option<TurnOutcome>))
        requires
            old(self).well_formed(),
            old(self).tool_iterations + execution.executed_calls@.len() <= MAX_TOOL_ITERATIONS,
        ensures
            final(self).well_formed(),
            final(self).tool_iterations == old(self).tool_iterations + execution.executed_calls@.len(),
            final(self).response_contract_retries == old(self).response_contract_retries,
            final(self).consecutive_failures == old(self).consecutive_failures,
            final(self).previous_pass_successes == old(self).previous_pass_successes,
            final(self).contract_enforced == old(self).contract_enforced,
            r.0@.len() == execution.executed_calls@.len(),
            messages_view(final(messages)@) == messages_view(old(messages)@) + r.0@.map_values(
                |c: ToolCompletion| completion_view(c),
            ),
            exists|ts: Seq<CallCounter>, ss: Seq<CallSet>|
                #![trigger ts.len(), ss.len()]
                {
                    &&& ts.len() == r.0@.len() + 1
                    &&& ss.len() == r.0@.len() + 1
                    &&& ts[0] == old(self).consecutive_timeout_failures
                    &&& ss[0] == old(self).current_pass_successes
                    &&& ts[r.0@.len() as int] == final(self).consecutive_timeout_failures
                    &&& ss[r.0@.len() as int] == final(self).current_pass_successes
                    &&& forall|i: int|
                        0 <= i < r.0@.len() ==> #[trigger] spec_record(
                            execution.executed_calls@[i],
                            ts[i],
                            ts[i + 1],
                            ss[i],
                            ss[i + 1],
                            r.0@[i],
                        )
                },
            execution.cancelled_before_launch_completed ==> (r.1 matches Some(o) && o is Cancelled),
            !execution.cancelled_before_launch_completed && truncated ==> (r.1 matches Some(
                TurnOutcome::FatalError { kind, error },
            ) && kind == RuntimeErrorKind::ToolExecution && error@ == iteration_limit_error()),
            !execution.cancelled_before_launch_completed && !truncated ==> r.1 is None,
    {
        let BatchExecution { executed_calls, cancelled_before_launch_completed } = execution;
        let ghost all = executed_calls@;
        let ghost m0 = messages_view(messages@);
        let ghost mut ts: Seq<CallCounter> = seq![self.consecutive_timeout_failures];
        let ghost mut ss: Seq<CallSet> = seq![self.current_pass_successes];
        let ghost start = self.tool_iterations;
        let mut rest = executed_calls;
        let mut completions: Vec<ToolCompletion> = Vec::new();
        while rest.len() > 0
            invariant
                self.well_formed(),
                completions@.len() + rest@.len() == all.len(),
                rest@ == all.skip(completions@.len() as int),
                self.tool_iterations == start + completions@.len(),
                start + all.len() <= MAX_TOOL_ITERATIONS,
                self.response_contract_retries == old(self).response_contract_retries,
                self.consecutive_failures == old(self).consecutive_failures,
                self.previous_pass_successes == old(self).previous_pass_successes,
                self.contract_enforced == old(self).contract_enforced,
                messages_view(messages@) == m0 + completions@.map_values(|c: ToolCompletion| completion_view(c)),
                ts.len() == completions@.len() + 1,
                ss.len() == completions@.len() + 1,
                ts[0] == old(self).consecutive_timeout_failures,
                ss[0] == old(self).current_pass_successes,
                ts[completions@.len() as int] == self.consecutive_timeout_failures,
                ss[completions@.len() as int] == self.current_pass_successes,
                forall|i: int|
                    0 <= i < completions@.len() ==> #[trigger] spec_record(
                        all[i],
                        ts[i],
                        ts[i + 1],
                        ss[i],
                        ss[i + 1],
                        completions@[i],
                    ),
            decreases rest@.len(),
        {
            let ghost k = completions@.len() as int;
            let executed = rest.remove(0);
            assert(executed == all[k]);
            assert(rest@ =~= all.skip(k + 1));
            let c = self.record_call(executed, messages);
            completions.push(c);
            assert(completions@.map_values(|c: ToolCompletion| completion_view(c)) =~= completions@.drop_last().map_values(|c: ToolCompletion| completion_view(c)).push(completion_view(c)));
            proof {
                ts = ts.push(self.consecutive_timeout_failures);
                ss = ss.push(self.current_pass_successes);
            }
        }
        let outcome = if cancelled_before_launch_completed {
            Some(TurnOutcome::Cancelled)
        } else if truncated {
            Some(
                TurnOutcome::FatalError {
                    kind: RuntimeErrorKind::ToolExecution,
                    error: copy_string("tool iteration limit exceeded"),
                },
            )
        } else {
            None
        };
        (completions, outcome)
    }
}

} // verus!
