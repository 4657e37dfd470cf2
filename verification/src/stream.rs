use vstd::prelude::*;

use crate::contract::{
    contract_open, opt_delta_view, parse_contract_delta_chars, response_contract_enforced,
    spec_contract_delta, spec_contract_enforced,
};
use crate::protocol::{opt_string_view, AssistantContractDelta, ContractDeltaView};
use crate::planning::PendingToolCall;
use crate::protocol::RuntimeErrorKind;
use crate::turn::{is_transient_error, spec_is_transient_lower, unicode_lowercase, TurnOutcome};
use crate::text::{
    chars_of, extend_chars, has_prefix, last_occurrence, rfind_seq,
    slice_chars, starts_with_chars,
};

verus! {

/// The opening tag of the structured response, without its closing `>`.
pub open spec fn open_marker() -> Seq<char> {
    "<assistant_response"@
}

/// The longest a held-back fragment of the opening tag can be.
pub open spec fn max_tail_len() -> int {
    open_marker().len() - 1
}

/// Where the structured response starts in `text`: the last complete
/// opening tag, else the last opening tag still missing its `>`.
pub open spec fn spec_marker_start(text: Seq<char>) -> Option<int> {
    match last_occurrence(text, contract_open()) {
        Some(i) => Some(i),
        None => last_occurrence(text, open_marker()),
    }
}

/// Position (in characters) at which the structured response starts.
pub fn find_contract_open_marker_start(text: &[char]) -> (r: Option<usize>)
    ensures
        r matches Some(i) ==> i <= text@.len(),
        match r {
            Some(i) => spec_marker_start(text@) == Some(i as int),
            None => spec_marker_start(text@) is None,
        },
{
    let open = chars_of("<assistant_response>");
    match rfind_seq(text, open.as_slice()) {
        Some(i) => Some(i),
        None => {
            let marker = chars_of("<assistant_response");
            rfind_seq(text, marker.as_slice())
        },
    }
}

/// Whether `text[k..]` is a non-empty fragment that could begin the opening tag.
pub open spec fn is_marker_tail(text: Seq<char>, k: int) -> bool {
    0 <= k < text.len() && text.len() - k <= max_tail_len() && has_prefix(
        open_marker(),
        text.skip(k),
    )
}

/// The shortest non-empty end of `text` that could be the start of a split
/// opening tag, or nothing.
pub open spec fn spec_probe_tail(text: Seq<char>) -> Seq<char> {
    if exists|k: int| is_marker_tail(text, k) {
        text.skip(
            choose|k: int|
                is_marker_tail(text, k) && forall|j: int| k < j < text.len() ==> !is_marker_tail(text, j),
        )
    } else {
        Seq::empty()
    }
}

/// The end of `text` that must be held back because it may be the start of
/// an opening tag split across chunks.
pub fn contract_open_probe_tail(text: &[char]) -> (r: Vec<char>)
    ensures
        r@ == spec_probe_tail(text@),
{
    let marker = chars_of("<assistant_response");
    proof {
        reveal_strlit("<assistant_response");
    }
    let max_len: usize = marker.len() - 1;
    let n = text.len();
    let mut k: usize = n;
    while k > 0 && n - k < max_len
        invariant
            k <= n == text@.len(),
            max_len == max_tail_len(),
            marker@ == open_marker(),
            forall|j: int| k <= j < n ==> !is_marker_tail(text@, j),
        decreases k,
    {
        k -= 1;
        let suffix = slice_chars(text, k, n);
        assert(suffix@ =~= text@.skip(k as int));
        if starts_with_chars(marker.as_slice(), suffix.as_slice()) {
            proof {
                assert(is_marker_tail(text@, k as int));
                let w = choose|w: int|
                    is_marker_tail(text@, w) && forall|j: int| w < j < text@.len() ==> !is_marker_tail(text@, j);
                if w < k {
                    assert(!is_marker_tail(text@, k as int));
                }
            }
            return suffix;
        }
    }
    assert forall|j: int| !is_marker_tail(text@, j) by {
        if 0 <= j < k {
            assert(text@.len() - j > max_tail_len());
        }
    }
    Vec::new()
}

/// The side channel that watches streamed text for the structured response:
/// text before it is shown as it comes, the response itself is held back and
/// reported field by field.
pub struct ContractStream {
    pub enabled: bool,
    pub started: bool,
    pub raw: Vec<char>,
    pub probe_tail: Vec<char>,
    pub last_delta: Option<AssistantContractDelta>,
}

/// What to do with one chunk of streamed text.
pub struct TextDeltaAction {
    /// Whether the chunk is shown as plain text.
    pub forward: bool,
    /// A changed view of the structured response, to be reported.
    pub delta: Option<AssistantContractDelta>,
}

fn same_opt_string(a: &Option<String>, b: &Option<String>) -> (r: bool)
    ensures
        r == (opt_string_view(*a) == opt_string_view(*b)),
{
    match (a, b) {
        (Some(x), Some(y)) => {
            let xs = chars_of(x.as_str());
            let ys = chars_of(y.as_str());
            if xs.len() != ys.len() {
                return false;
            }
            let r = starts_with_chars(xs.as_slice(), ys.as_slice());
            assert(r == (xs@ == ys@)) by {
                assert(xs@.take(xs@.len() as int) =~= xs@);
            }
            r
        },
        (None, None) => true,
        _ => false,
    }
}

/// Whether two deltas say the same thing.
pub fn same_delta(a: &AssistantContractDelta, b: &AssistantContractDelta) -> (r: bool)
    ensures
        r == (a@ == b@),
{
    same_opt_string(&a.intent, &b.intent) && same_opt_string(&a.summary, &b.summary)
        && same_opt_string(&a.tool_summary, &b.tool_summary) && same_opt_string(
        &a.nextstep,
        &b.nextstep,
    ) && a.needs_user_input == b.needs_user_input && same_opt_string(&a.question, &b.question)
        && same_opt_string(&a.status, &b.status) && same_opt_string(&a.error, &b.error)
        && a.complete == b.complete
}

fn clone_opt_string(o: &Option<String>) -> (r: Option<String>)
    ensures
        opt_string_view(r) == opt_string_view(*o),
{
    match o {
        Some(s) => Some(s.clone()),
        None => None,
    }
}

/// A copy of a delta.
pub fn clone_delta(d: &AssistantContractDelta) -> (r: AssistantContractDelta)
    ensures
        r@ == d@,
{
    AssistantContractDelta {
        intent: clone_opt_string(&d.intent),
        summary: clone_opt_string(&d.summary),
        tool_summary: clone_opt_string(&d.tool_summary),
        nextstep: clone_opt_string(&d.nextstep),
        needs_user_input: d.needs_user_input,
        question: clone_opt_string(&d.question),
        status: clone_opt_string(&d.status),
        error: clone_opt_string(&d.error),
        complete: d.complete,
    }
}

/// The delta to report for a raw response buffer, given the one reported
/// last: the parsed view when there is one and it differs.
pub open spec fn spec_fresh_delta(raw: Seq<char>, last: Option<ContractDeltaView>) -> Option<ContractDeltaView> {
    match spec_contract_delta(raw) {
        Some(d) => if last == Some(d) {
            None
        } else {
            Some(d)
        },
        None => None,
    }
}

/// One chunk of text through the side channel: `old` before, `new` after,
/// `r` what is done with the chunk.
pub open spec fn spec_text_delta(old: ContractStream, new: ContractStream, text: Seq<char>, r: TextDeltaAction) -> bool {
    &&& new.enabled == old.enabled
    &&& !old.enabled ==> r.forward && r.delta is None && new.started == old.started && new.raw@
        == old.raw@ && new.probe_tail@ == old.probe_tail@ && new.last_view() == old.last_view()
    &&& old.enabled && old.started ==> !r.forward && new.started && new.raw@ == old.raw@ + text
        && new.probe_tail@ == old.probe_tail@
    &&& old.enabled && !old.started ==> ({
        let probe = old.probe_tail@ + text;
        match spec_marker_start(probe) {
            Some(i) => new.started && !r.forward && new.raw@ == probe.skip(i) && new.probe_tail@.len()
                == 0,
            None => !new.started && new.raw@ == old.raw@ && new.probe_tail@ == spec_probe_tail(probe)
                && r.forward == (spec_probe_tail(probe).len() == 0),
        }
    })
    &&& old.enabled && new.started ==> opt_delta_view(r.delta) == spec_fresh_delta(
        new.raw@,
        old.last_view(),
    ) && new.last_view() == match r.delta {
        Some(d) => Some(d@),
        None => old.last_view(),
    }
    &&& old.enabled && !new.started ==> r.delta is None && new.last_view() == old.last_view()
}

/// The end of the stream through the side channel.
pub open spec fn spec_stream_end(old: ContractStream, new: ContractStream, r: Option<AssistantContractDelta>) -> bool {
    &&& new.enabled == old.enabled
    &&& new.started == old.started
    &&& new.raw@ == old.raw@
    &&& old.enabled && old.started ==> opt_delta_view(r) == spec_fresh_delta(
        old.raw@,
        old.last_view(),
    ) && new.last_view() == match r {
        Some(d) => Some(d@),
        None => old.last_view(),
    }
    &&& !(old.enabled && old.started) ==> r is None && new.last_view() == old.last_view()
}

impl ContractStream {
    pub open spec fn last_view(&self) -> Option<ContractDeltaView> {
        opt_delta_view(self.last_delta)
    }

    /// The side channel is on for every model that must answer in the
    /// structured format.
    pub fn new(model: &str) -> (r: Self)
        ensures
            r.enabled == spec_contract_enforced(model@),
            !r.started,
            r.raw@.len() == 0,
            r.probe_tail@.len() == 0,
            r.last_delta is None,
    {
        ContractStream {
            enabled: response_contract_enforced(model),
            started: false,
            raw: Vec::new(),
            probe_tail: Vec::new(),
            last_delta: None,
        }
    }

    fn report_fresh(&mut self) -> (r: Option<AssistantContractDelta>)
        ensures
            final(self).enabled == old(self).enabled,
            final(self).started == old(self).started,
            final(self).raw@ == old(self).raw@,
            final(self).probe_tail@ == old(self).probe_tail@,
            opt_delta_view(r) == spec_fresh_delta(old(self).raw@, old(self).last_view()),
            final(self).last_view() == match r {
                Some(d) => Some(d@),
                None => old(self).last_view(),
            },
    {
        match parse_contract_delta_chars(self.raw.as_slice()) {
            None => None,
            Some(delta) => {
                let unchanged = match &self.last_delta {
                    Some(last) => same_delta(last, &delta),
                    None => false,
                };
                if unchanged {
                    None
                } else {
                    self.last_delta = Some(clone_delta(&delta));
                    Some(delta)
                }
            },
        }
    }

    /// Takes in one chunk of text before any delta is reported; returns
    /// whether the chunk is shown.
    fn take_chunk(&mut self, text: &str) -> (forward: bool)
        requires
            old(self).enabled,
        ensures
            final(self).enabled == old(self).enabled,
            final(self).last_delta == old(self).last_delta,
            old(self).started ==> !forward && final(self).started && final(self).raw@ == old(self).raw@
                + text@ && final(self).probe_tail@ == old(self).probe_tail@,
            !old(self).started ==> ({
                let probe = old(self).probe_tail@ + text@;
                match spec_marker_start(probe) {
                    Some(i) => final(self).started && !forward && final(self).raw@ == probe.skip(i)
                        && final(self).probe_tail@.len() == 0,
                    None => !final(self).started && final(self).raw@ == old(self).raw@
                        && final(self).probe_tail@ == spec_probe_tail(probe) && forward == (
                    spec_probe_tail(probe).len() == 0),
                }
            }),
    {
        if self.started {
            extend_chars(&mut self.raw, text);
            return false;
        }
        let mut probe = slice_chars(self.probe_tail.as_slice(), 0, self.probe_tail.len());
        assert(probe@ =~= self.probe_tail@);
        extend_chars(&mut probe, text);
        match find_contract_open_marker_start(probe.as_slice()) {
            Some(start) => {
                let n = probe.len();
                self.started = true;
                self.raw = slice_chars(probe.as_slice(), start, n);
                assert(self.raw@ =~= probe@.skip(start as int));
                self.probe_tail = Vec::new();
                false
            },
            None => {
                self.probe_tail = contract_open_probe_tail(probe.as_slice());
                self.probe_tail.len() == 0
            },
        }
    }

    /// One chunk of streamed text: whether to show it, and the structured
    /// response's fields when they changed.
    pub fn on_text_delta(&mut self, text: &str) -> (r: TextDeltaAction)
        ensures
            spec_text_delta(*old(self), *final(self), text@, r),
    {
        if !self.enabled {
            return TextDeltaAction { forward: true, delta: None };
        }
        let forward = self.take_chunk(text);
        let delta = if self.started {
            self.report_fresh()
        } else {
            None
        };
        TextDeltaAction { forward, delta }
    }

    /// The stream ended: report the structured response's final fields when
    /// they changed.
    pub fn on_turn_complete(&mut self) -> (r: Option<AssistantContractDelta>)
        ensures
            spec_stream_end(*old(self), *final(self), r),
    {
        if self.enabled && self.started {
            self.report_fresh()
        } else {
            None
        }
    }
}

/// What one provider pass has gathered: how it ended, the assistant's text,
/// the tool calls it asked for, and the structured-response side channel.
pub struct ProviderPass {
    pub outcome: TurnOutcome,
    pub assistant_text: String,
    pub tool_calls: Vec<PendingToolCall>,
    pub contract: ContractStream,
}

impl ProviderPass {
    /// A pass that has seen nothing yet.
    pub fn new(model: &str) -> (r: Self)
        ensures
            r.outcome is Complete,
            r.assistant_text@.len() == 0,
            r.tool_calls@.len() == 0,
            r.contract.enabled == spec_contract_enforced(model@),
            !r.contract.started,
            r.contract.raw@.len() == 0,
            r.contract.probe_tail@.len() == 0,
            r.contract.last_delta is None,
    {
        ProviderPass {
            outcome: TurnOutcome::Complete,
            assistant_text: String::new(),
            tool_calls: Vec::new(),
            contract: ContractStream::new(model),
        }
    }

    /// A chunk of assistant text: it is kept, and the side channel decides
    /// whether it is shown and what structured fields to report.
    pub fn on_text_delta(&mut self, text: &str) -> (r: TextDeltaAction)
        ensures
            final(self).assistant_text@ == old(self).assistant_text@ + text@,
            final(self).tool_calls@ == old(self).tool_calls@,
            final(self).outcome == old(self).outcome,
            spec_text_delta(old(self).contract, final(self).contract, text@, r),
    {
        self.assistant_text.append(text);
        self.contract.on_text_delta(text)
    }

    /// The provider asked for a tool call.
    pub fn on_tool_call(&mut self, call: PendingToolCall)
        ensures
            final(self).tool_calls@ == old(self).tool_calls@.push(call),
            final(self).assistant_text@ == old(self).assistant_text@,
            final(self).outcome == old(self).outcome,
            final(self).contract == old(self).contract,
    {
        self.tool_calls.push(call);
    }

    /// The provider finished the pass.
    pub fn on_turn_complete(&mut self) -> (r: Option<AssistantContractDelta>)
        ensures
            final(self).tool_calls@ == old(self).tool_calls@,
            final(self).assistant_text@ == old(self).assistant_text@,
            final(self).outcome == old(self).outcome,
            spec_stream_end(old(self).contract, final(self).contract, r),
    {
        self.contract.on_turn_complete()
    }

    /// The provider failed: a transient error may be retried, any other is fatal.
    pub fn on_error(&mut self, err: String)
        ensures
            final(self).tool_calls@ == old(self).tool_calls@,
            final(self).assistant_text@ == old(self).assistant_text@,
            final(self).contract == old(self).contract,
            spec_is_transient_lower(unicode_lowercase(err@)) ==> final(self).outcome == TurnOutcome::TransientError(err),
            !spec_is_transient_lower(unicode_lowercase(err@)) ==> final(self).outcome == (TurnOutcome::FatalError { kind: RuntimeErrorKind::ProviderFatal, error: err }),
    {
        if is_transient_error(err.as_str()) {
            self.outcome = TurnOutcome::TransientError(err);
        } else {
            self.outcome = TurnOutcome::FatalError { kind: RuntimeErrorKind::ProviderFatal, error: err };
        }
    }

    /// The turn was cancelled while the provider was streaming.
    pub fn on_cancel(&mut self)
        ensures
            final(self).outcome is Cancelled,
            final(self).tool_calls@ == old(self).tool_calls@,
            final(self).assistant_text@ == old(self).assistant_text@,
            final(self).contract == old(self).contract,
    {
        self.outcome = TurnOutcome::Cancelled;
    }
}

} // verus!
