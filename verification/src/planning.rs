use vstd::prelude::*;

use crate::calls::{CallCounter, CallKey, CallSet};
use crate::capability::{CapabilityClaim, CapabilityInput, CapabilityResult};
use crate::json::{json_accepts, json_parse, json_text, parse_json, to_json_text};
use crate::json_repair::{
    extract_json_payload, repair_control_chars, repair_invalid_dollar_escapes,
    repair_truncated_json_closure, repair_unescaped_inner_quotes, spec_extract_json_payload,
    spec_repair_control_chars, spec_repair_invalid_dollar_escapes,
    spec_repair_truncated_json_closure, spec_repair_unescaped_inner_quotes,
    spec_strip_thinking_tags, strip_thinking_tags,
};
use crate::scheduler::ScheduledCall;
use crate::text::{copy_string, extend_chars, str_eq, string_from_chars};
use crate::turn::REPEATED_SUCCESS_GUIDANCE;
use vstd::utf8::encode_utf8;

verus! {

/// A tool call as the provider sent it.
pub struct PendingToolCall {
    pub call_id: String,
    pub name: String,
    pub arguments: String,
}

/// Tool arguments read as JSON, and whether a repair was needed.
pub struct ParsedToolArgs {
    pub value: serde_json::Value,
    pub was_repaired: bool,
}

/// What becomes of a planned tool call.
pub enum PlannedToolAction {
    /// Answered at once, without running the tool.
    Immediate(CapabilityResult),
    /// Run the tool with these arguments; `signature` identifies the call.
    Execute { input: CapabilityInput, was_repaired: bool, signature: (String, String) },
}

pub struct PlannedToolCall {
    pub pending: PendingToolCall,
    pub action: PlannedToolAction,
}

/// The text that is read as JSON: the embedded payload when there is one.
pub open spec fn spec_cleaned(raw: Seq<char>) -> Seq<char> {
    match spec_extract_json_payload(raw) {
        Some(p) => p,
        None => raw,
    }
}

/// Reading tool arguments: the document and whether it needed repair, or the
/// parser's message. Text that parses as it stands is taken as it is. Otherwise
/// the payload is cut out of surrounding text and parsed; when that fails too,
/// literal control characters in its strings are escaped and it is parsed once
/// more. The message is that of the parse of the cut-out payload.
pub open spec fn spec_parse_or_repair(raw: Seq<char>) -> Result<(serde_json::Value, bool), Seq<char>> {
    match json_parse(raw) {
        Ok(v) => Ok((v, false)),
        Err(_) => {
            let cleaned = spec_cleaned(raw);
            match json_parse(cleaned) {
                Ok(v) => Ok((v, true)),
                Err(e) => match spec_repair_control_chars(cleaned) {
                    Some(rep) => match json_parse(rep) {
                        Ok(v) => Ok((v, true)),
                        Err(_) => Err(e),
                    },
                    None => Err(e),
                },
            }
        },
    }
}

/// Text that parses as JSON as it stands is read as it is: no extraction or
/// repair touches it, and it is not reported as repaired.
pub proof fn lemma_valid_json_read_as_is(raw: Seq<char>)
    ensures
        json_parse(raw) matches Ok(v) ==> spec_parse_or_repair(raw) == Ok::<(serde_json::Value, bool), Seq<char>>((v, false)),
{
}

/// Parses tool arguments, with the few repairs that are known to be safe.
pub fn parse_or_repair_json(raw: &str) -> (r: Result<ParsedToolArgs, String>)
    ensures
        match (r, spec_parse_or_repair(raw@)) {
            (Ok(p), Ok((v, repaired))) => p.value == v && p.was_repaired == repaired,
            (Err(m), Err(e)) => m@ == e,
            _ => false,
        },
{
    if let Ok(value) = parse_json(raw) {
        return Ok(ParsedToolArgs { value, was_repaired: false });
    }
    let cleaned: &str = match extract_json_payload(raw) {
        Some(p) => p,
        None => raw,
    };
    match parse_json(cleaned) {
        Ok(value) => Ok(ParsedToolArgs { value, was_repaired: true }),
        Err(error) => {
            match repair_control_chars(cleaned) {
                Some(repaired) => match parse_json(repaired.as_str()) {
                    Ok(value) => Ok(ParsedToolArgs { value, was_repaired: true }),
                    Err(_) => Err(error),
                },
                None => Err(error),
            }
        },
    }
}

/// The arguments of a call as compact JSON, or `fallback` when they cannot be
/// written out.
pub open spec fn spec_canonical_args(value: serde_json::Value, fallback: Seq<char>) -> Seq<char> {
    match json_text(value) {
        Some(t) => t,
        None => fallback,
    }
}

pub fn canonical_tool_args(value: &serde_json::Value, fallback: &str) -> (r: String)
    ensures
        r@ == spec_canonical_args(*value, fallback@),
{
    match to_json_text(value) {
        Some(t) => t,
        None => copy_string(fallback),
    }
}

pub open spec fn quotes_fixed(s: Seq<char>) -> Option<Seq<char>> {
    spec_repair_unescaped_inner_quotes(encode_utf8(s))
}

pub open spec fn dollars_fixed(s: Seq<char>) -> Option<Seq<char>> {
    spec_repair_invalid_dollar_escapes(s)
}

pub open spec fn then_quotes(o: Option<Seq<char>>) -> Option<Seq<char>> {
    match o {
        Some(s) => quotes_fixed(s),
        None => None,
    }
}

pub open spec fn then_dollars(o: Option<Seq<char>>) -> Option<Seq<char>> {
    match o {
        Some(s) => dollars_fixed(s),
        None => None,
    }
}

pub open spec fn then_closed(o: Option<Seq<char>>) -> Option<Seq<char>> {
    match o {
        Some(s) => spec_repair_truncated_json_closure(s),
        None => None,
    }
}

/// The repairs tried on malformed `bash` arguments, in order, each with the
/// name it is logged under.
pub open spec fn bash_repair_candidates(raw: Seq<char>) -> Seq<(Option<Seq<char>>, Seq<char>)> {
    let q = quotes_fixed(raw);
    let d = dollars_fixed(raw);
    seq![
        (q, "unescaped quotes"@),
        (then_dollars(q), "unescaped quotes + invalid dollar escapes"@),
        (then_closed(q), "unescaped quotes + truncated payload"@),
        (then_closed(then_dollars(q)), "unescaped quotes + invalid dollar escapes + truncated payload"@),
        (d, "invalid dollar escapes"@),
        (then_quotes(d), "invalid dollar escapes + unescaped quotes"@),
        (then_closed(d), "invalid dollar escapes + truncated payload"@),
        (then_closed(then_quotes(d)), "invalid dollar escapes + unescaped quotes + truncated payload"@),
        (spec_repair_truncated_json_closure(raw), "truncated payload"@),
    ]
}

/// The first candidate that exists and parses.
pub open spec fn first_accepted(cands: Seq<(Option<Seq<char>>, Seq<char>)>) -> Option<(Seq<char>, Seq<char>)>
    decreases cands.len(),
{
    if cands.len() == 0 {
        None
    } else {
        match cands[0].0 {
            Some(s) => if json_accepts(s) {
                Some((s, cands[0].1))
            } else {
                first_accepted(cands.drop_first())
            },
            None => first_accepted(cands.drop_first()),
        }
    }
}

proof fn lemma_first_accepted_parses(cands: Seq<(Option<Seq<char>>, Seq<char>)>)
    ensures
        first_accepted(cands) matches Some((s, _)) ==> json_accepts(s),
    decreases cands.len(),
{
    if cands.len() > 0 {
        lemma_first_accepted_parses(cands.drop_first());
    }
}

pub open spec fn spec_bash_repair(raw: Seq<char>) -> Option<(Seq<char>, Seq<char>)> {
    first_accepted(bash_repair_candidates(raw))
}

fn accepted(s: &str) -> (r: bool)
    ensures
        r == json_accepts(s@),
{
    parse_json(s).is_ok()
}

fn opt_dollars(o: &Option<String>) -> (r: Option<String>)
    ensures
        r matches Some(x) ==> then_dollars(match *o { Some(s) => Some(s@), None => None }) == Some(x@),
        r is None ==> then_dollars(match *o { Some(s) => Some(s@), None => None }) is None,
{
    match o {
        Some(s) => repair_invalid_dollar_escapes(s.as_str()),
        None => None,
    }
}

fn opt_quotes(o: &Option<String>) -> (r: Option<String>)
    ensures
        r matches Some(x) ==> then_quotes(match *o { Some(s) => Some(s@), None => None }) == Some(x@),
        r is None ==> then_quotes(match *o { Some(s) => Some(s@), None => None }) is None,
{
    match o {
        Some(s) => repair_unescaped_inner_quotes(s.as_str()),
        None => None,
    }
}

fn opt_closed(o: &Option<String>) -> (r: Option<String>)
    ensures
        r matches Some(x) ==> then_closed(match *o { Some(s) => Some(s@), None => None }) == Some(x@),
        r is None ==> then_closed(match *o { Some(s) => Some(s@), None => None }) is None,
{
    match o {
        Some(s) => repair_truncated_json_closure(s.as_str()),
        None => None,
    }
}

pub open spec fn opt_seq(o: Option<String>) -> Option<Seq<char>> {
    match o {
        Some(s) => Some(s@),
        None => None,
    }
}

fn try_candidate(o: &Option<String>) -> (r: bool)
    ensures
        r == (o matches Some(s) && json_accepts(s@)),
{
    match o {
        Some(s) => accepted(s.as_str()),
        None => false,
    }
}

/// Tries the known repairs of malformed `bash` arguments in turn and returns
/// the first that parses, with the name of the repair.
pub fn repair_bash_arguments(raw: &str) -> (r: Option<(String, &'static str)>)
    ensures
        match (r, spec_bash_repair(raw@)) {
            (Some((s, kind)), Some((t, k))) => s@ == t && kind@ == k,
            (None, None) => true,
            _ => false,
        },
{
    let q = repair_unescaped_inner_quotes(raw);
    let qd = opt_dollars(&q);
    let qt = opt_closed(&q);
    let qdt = opt_closed(&qd);
    let d = repair_invalid_dollar_escapes(raw);
    let dq = opt_quotes(&d);
    let dt = opt_closed(&d);
    let dqt = opt_closed(&dq);
    let t = repair_truncated_json_closure(raw);
    let ghost cands = bash_repair_candidates(raw@);
    assert(cands[0].0 == opt_seq(q));
    assert(cands[1].0 == opt_seq(qd));
    assert(cands[2].0 == opt_seq(qt));
    assert(cands[3].0 == opt_seq(qdt));
    assert(cands[4].0 == opt_seq(d));
    assert(cands[5].0 == opt_seq(dq));
    assert(cands[6].0 == opt_seq(dt));
    assert(cands[7].0 == opt_seq(dqt));
    assert(cands[8].0 == opt_seq(t));
    assert(cands.skip(1) =~= cands.drop_first());
    assert(cands.skip(1).drop_first() =~= cands.skip(2));
    assert(cands.skip(2).drop_first() =~= cands.skip(3));
    assert(cands.skip(3).drop_first() =~= cands.skip(4));
    assert(cands.skip(4).drop_first() =~= cands.skip(5));
    assert(cands.skip(5).drop_first() =~= cands.skip(6));
    assert(cands.skip(6).drop_first() =~= cands.skip(7));
    assert(cands.skip(7).drop_first() =~= cands.skip(8));
    assert(cands.skip(8).drop_first() =~= cands.skip(9));
    assert(first_accepted(cands.skip(9)) is None);
    if try_candidate(&q) {
        return Some((q.unwrap(), "unescaped quotes"));
    }
    assert(first_accepted(cands) == first_accepted(cands.skip(1)));
    if try_candidate(&qd) {
        return Some((qd.unwrap(), "unescaped quotes + invalid dollar escapes"));
    }
    assert(first_accepted(cands.skip(1)) == first_accepted(cands.skip(2)));
    if try_candidate(&qt) {
        return Some((qt.unwrap(), "unescaped quotes + truncated payload"));
    }
    assert(first_accepted(cands.skip(2)) == first_accepted(cands.skip(3)));
    if try_candidate(&qdt) {
        return Some((qdt.unwrap(), "unescaped quotes + invalid dollar escapes + truncated payload"));
    }
    assert(first_accepted(cands.skip(3)) == first_accepted(cands.skip(4)));
    if try_candidate(&d) {
        return Some((d.unwrap(), "invalid dollar escapes"));
    }
    assert(first_accepted(cands.skip(4)) == first_accepted(cands.skip(5)));
    if try_candidate(&dq) {
        return Some((dq.unwrap(), "invalid dollar escapes + unescaped quotes"));
    }
    assert(first_accepted(cands.skip(5)) == first_accepted(cands.skip(6)));
    if try_candidate(&dt) {
        return Some((dt.unwrap(), "invalid dollar escapes + truncated payload"));
    }
    assert(first_accepted(cands.skip(6)) == first_accepted(cands.skip(7)));
    if try_candidate(&dqt) {
        return Some((dqt.unwrap(), "invalid dollar escapes + unescaped quotes + truncated payload"));
    }
    assert(first_accepted(cands.skip(7)) == first_accepted(cands.skip(8)));
    if try_candidate(&t) {
        return Some((t.unwrap(), "truncated payload"));
    }
    assert(first_accepted(cands.skip(8)) == first_accepted(cands.skip(9)));
    None
}

/// Feedback for arguments that failed to parse twice in a row, unchanged.
pub const REPEATED_JSON_ERROR: &'static str = "REPEATED JSON ERROR: identical malformed arguments sent twice. RULES: 1) All double quotes inside string values MUST be escaped as \\\". 2) Newlines inside strings MUST be \\n, not literal newlines. 3) For code containing quotes, use single quotes or escape them. You MUST fix the JSON and retry now.";

/// The text after the parser's message in the feedback on malformed arguments.
pub const JSON_PARSE_ERROR_HELP: &'static str = "\nFix: ensure all double quotes inside string values are escaped as \\\", newlines are \\n, and JSON containers are fully closed. For bash commands, keep shell variables as $i / $(...) instead of \\\\$i / \\\\$(...). If multiple JSON objects are present, send exactly one JSON object. Then retry this tool call.";

pub open spec fn spec_parse_error_feedback(error: Seq<char>) -> Seq<char> {
    "JSON PARSE ERROR in tool arguments: "@ + error + JSON_PARSE_ERROR_HELP@
}

/// A failure whose content and error message are `text`.
pub open spec fn is_failure_text(res: CapabilityResult, text: Seq<char>) -> bool {
    &&& res.is_error
    &&& res.content@.len() == 1
    &&& res.content@[0] is Text
    &&& res.content@[0]->text@ == text
    &&& res.exit_code is None
    &&& !res.output_truncated
    &&& match res.error {
        Some(e) => e.message@ == text && e.code is None,
        None => false,
    }
}

/// The call is answered at once with the failure `text`.
pub open spec fn answers_with(action: PlannedToolAction, text: Seq<char>) -> bool {
    match action {
        PlannedToolAction::Immediate(res) => is_failure_text(res, text),
        _ => false,
    }
}

/// The call's signature: its name and its arguments as compact JSON.
pub open spec fn spec_signature(name: Seq<char>, value: serde_json::Value, fallback: Seq<char>) -> CallKey {
    (name, spec_canonical_args(value, fallback))
}

/// Whether `r` is the plan for a call whose arguments parsed to `value`:
/// a call that already succeeded in the previous pass is answered at once,
/// any other runs with the claims its tool makes.
pub open spec fn is_parsed_plan<F: Fn(&String, &serde_json::Value) -> Vec<CapabilityClaim>>(
    r: ScheduledCall<PlannedToolCall>,
    pending: PendingToolCall,
    value: serde_json::Value,
    was_repaired: bool,
    fallback: Seq<char>,
    previous: CallSet,
    claims_of: F,
) -> bool {
    let sig = spec_signature(pending.name@, value, fallback);
    &&& r.item.pending == pending
    &&& if previous.has(sig) {
        &&& r.claims@.len() == 0
        &&& answers_with(r.item.action, REPEATED_SUCCESS_GUIDANCE@)
    } else {
        &&& r.item.action matches PlannedToolAction::Execute { input, was_repaired: wr, signature }
            && input.arguments == value && wr == was_repaired && (signature.0@, signature.1@)
            == sig
        &&& claims_of.ensures((&pending.name, &value), r.claims)
    }
}

/// Plans a call whose arguments parsed.
pub fn schedule_parsed_call<F: Fn(&String, &serde_json::Value) -> Vec<CapabilityClaim>>(
    pending: PendingToolCall,
    parsed_value: serde_json::Value,
    was_repaired: bool,
    signature_fallback: &str,
    previous_pass_successes: &CallSet,
    claims_of: &F,
) -> (r: ScheduledCall<PlannedToolCall>)
    requires
        forall|n: &String, v: &serde_json::Value| claims_of.requires((n, v)),
    ensures
        is_parsed_plan(
            r,
            pending,
            parsed_value,
            was_repaired,
            signature_fallback@,
            *previous_pass_successes,
            *claims_of,
        ),
{
    let canonical = canonical_tool_args(&parsed_value, signature_fallback);
    if previous_pass_successes.contains(pending.name.as_str(), canonical.as_str()) {
        let result = CapabilityResult::failure(REPEATED_SUCCESS_GUIDANCE);
        ScheduledCall {
            item: PlannedToolCall { pending, action: PlannedToolAction::Immediate(result) },
            claims: Vec::new(),
        }
    } else {
        let claims = claims_of(&pending.name, &parsed_value);
        let signature = (copy_string(pending.name.as_str()), canonical);
        let input = CapabilityInput::new(parsed_value);
        ScheduledCall {
            item: PlannedToolCall {
                pending,
                action: PlannedToolAction::Execute { input, was_repaired, signature },
            },
            claims,
        }
    }
}

/// Whether `r` answers malformed arguments with feedback: the repeated-error
/// text when the same arguments failed before, else the parser's message.
pub open spec fn is_error_plan(
    r: ScheduledCall<PlannedToolCall>,
    pending: PendingToolCall,
    error: Seq<char>,
    count: nat,
) -> bool {
    let text = if count >= 2 {
        REPEATED_JSON_ERROR@
    } else {
        spec_parse_error_feedback(error)
    };
    &&& r.item.pending == pending
    &&& r.claims@.len() == 0
    &&& answers_with(r.item.action, text)
}

fn malformed_feedback(count: usize, error: &str) -> (r: CapabilityResult)
    ensures
        is_failure_text(
            r,
            if count >= 2 {
                REPEATED_JSON_ERROR@
            } else {
                spec_parse_error_feedback(error@)
            },
        ),
{
    if count >= 2 {
        CapabilityResult::failure(REPEATED_JSON_ERROR)
    } else {
        let mut text: Vec<char> = Vec::new();
        extend_chars(&mut text, "JSON PARSE ERROR in tool arguments: ");
        extend_chars(&mut text, error);
        extend_chars(&mut text, JSON_PARSE_ERROR_HELP);
        let message = string_from_chars(text.as_slice());
        CapabilityResult::failure(message.as_str())
    }
}

/// Plans a call whose arguments did not parse.
fn plan_unparsed<F: Fn(&String, &serde_json::Value) -> Vec<CapabilityClaim>>(
    pending: PendingToolCall,
    cleaned: &str,
    error: &str,
    previous_pass_successes: &CallSet,
    consecutive_failures: &mut CallCounter,
    claims_of: &F,
) -> (r: ScheduledCall<PlannedToolCall>)
    requires
        old(consecutive_failures).well_formed(),
        forall|n: &String, v: &serde_json::Value| claims_of.requires((n, v)),
    ensures
        final(consecutive_failures).well_formed(),
        ({
            let key = (pending.name@, pending.arguments@);
            let repaired = if pending.name@ == "bash"@ {
                spec_bash_repair(cleaned@)
            } else {
                None
            };
            &&& forall|k: CallKey| k != key ==> final(consecutive_failures).count_of(k) == old(
                consecutive_failures,
            ).count_of(k)
            &&& match repaired {
                Some((s, _)) => final(consecutive_failures).count_of(key) == 0 && (json_parse(s) matches Ok(v)
                    && is_parsed_plan(
                    r,
                    pending,
                    v,
                    true,
                    cleaned@,
                    *previous_pass_successes,
                    *claims_of,
                )),
                None => {
                    let before = old(consecutive_failures).count_of(key);
                    let count = final(consecutive_failures).count_of(key);
                    &&& (before < usize::MAX ==> count == before + 1)
                    &&& (before == usize::MAX ==> count == before)
                    &&& is_error_plan(r, pending, error@, count)
                },
            }
        }),
{
    if str_eq(pending.name.as_str(), "bash") {
        proof {
            lemma_first_accepted_parses(bash_repair_candidates(cleaned@));
        }
        if let Some((repaired, _kind)) = repair_bash_arguments(cleaned) {
            if let Ok(value) = parse_json(repaired.as_str()) {
                consecutive_failures.reset(pending.name.as_str(), pending.arguments.as_str());
                return schedule_parsed_call(
                    pending,
                    value,
                    true,
                    cleaned,
                    previous_pass_successes,
                    claims_of,
                );
            }
        }
    }
    let count = consecutive_failures.increment(pending.name.as_str(), pending.arguments.as_str());
    let result = malformed_feedback(count, error);
    ScheduledCall {
        item: PlannedToolCall { pending, action: PlannedToolAction::Immediate(result) },
        claims: Vec::new(),
    }
}

/// Whether `r` is the plan for `pending`, with the failure counts going from
/// `before` to `after`: what [`plan_tool_call`] does.
pub open spec fn spec_plan<F: Fn(&String, &serde_json::Value) -> Vec<CapabilityClaim>>(
    pending: PendingToolCall,
    previous: CallSet,
    before: CallCounter,
    after: CallCounter,
    r: ScheduledCall<PlannedToolCall>,
    claims_of: F,
) -> bool {
    let key = (pending.name@, pending.arguments@);
    let cleaned = spec_strip_thinking_tags(pending.arguments@);
    let repaired = if pending.name@ == "bash"@ {
        spec_bash_repair(cleaned)
    } else {
        None
    };
    &&& after.well_formed()
    &&& forall|k: CallKey| k != key ==> after.count_of(k) == before.count_of(k)
    &&& match spec_parse_or_repair(cleaned) {
        Ok((v, was_repaired)) => after.count_of(key) == 0 && is_parsed_plan(
            r,
            pending,
            v,
            was_repaired,
            cleaned,
            previous,
            claims_of,
        ),
        Err(e) => match repaired {
            Some((s, _)) => after.count_of(key) == 0 && (json_parse(s) matches Ok(v)
                && is_parsed_plan(r, pending, v, true, cleaned, previous, claims_of)),
            None => {
                let count = after.count_of(key);
                &&& (before.count_of(key) < usize::MAX ==> count == before.count_of(key) + 1)
                &&& (before.count_of(key) == usize::MAX ==> count == before.count_of(key))
                &&& is_error_plan(r, pending, e, count)
            },
        },
    }
}

/// Plans one tool call: reads its arguments (stripping reasoning blocks and
/// repairing what is safe to repair, and for `bash` a few common slips) and
/// either schedules it with its resource claims or answers it at once.
/// `consecutive_failures` counts calls whose arguments failed to parse.
pub fn plan_tool_call<F: Fn(&String, &serde_json::Value) -> Vec<CapabilityClaim>>(
    pending: PendingToolCall,
    previous_pass_successes: &CallSet,
    consecutive_failures: &mut CallCounter,
    claims_of: &F,
) -> (r: ScheduledCall<PlannedToolCall>)
    requires
        old(consecutive_failures).well_formed(),
        forall|n: &String, v: &serde_json::Value| claims_of.requires((n, v)),
    ensures
        spec_plan(
            pending,
            *previous_pass_successes,
            *old(consecutive_failures),
            *final(consecutive_failures),
            r,
            *claims_of,
        ),
{
    let cleaned = strip_thinking_tags(pending.arguments.as_str());
    match parse_or_repair_json(cleaned.as_str()) {
        Ok(parsed) => {
            consecutive_failures.reset(pending.name.as_str(), pending.arguments.as_str());
            schedule_parsed_call(
                pending,
                parsed.value,
                parsed.was_repaired,
                cleaned.as_str(),
                previous_pass_successes,
                claims_of,
            )
        },
        Err(error) => plan_unparsed(
            pending,
            cleaned.as_str(),
            error.as_str(),
            previous_pass_successes,
            consecutive_failures,
            claims_of,
        ),
    }
}

} // verus!
