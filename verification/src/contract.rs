use vstd::prelude::*;

use crate::protocol::{opt_string_view, AssistantContractDelta, ContractDeltaView};
use crate::text::{
    ascii_lower_seq, chars_of, ends_with_chars, extend_chars, extend_from_chars, find_seq,
    first_occurrence, has_prefix, last_occurrence, occurs_at, rfind_seq, slice_chars, starts_with_chars,
    string_from_chars, strip_prefix_seq, strip_suffix_seq, trim_end_index, trim_seq,
    trim_start_index, trim_start_seq,
};

verus! {

/// The structured response contract applies to every model except `echo`
/// (compared without regard to ASCII case).
pub open spec fn spec_contract_enforced(model: Seq<char>) -> bool {
    ascii_lower_seq(model) != "echo"@
}

pub fn response_contract_enforced(model: &str) -> (r: bool)
    ensures
        r == spec_contract_enforced(model@),
{
    let m = crate::text::ascii_lowercase_chars(chars_of(model).as_slice());
    let echo = chars_of("echo");
    let same = m.len() == echo.len() && starts_with_chars(m.as_slice(), echo.as_slice());
    assert(same == (m@ == echo@)) by {
        assert(m@.take(m@.len() as int) =~= m@);
    }
    !same
}

/// The XML schema the model's final answer must follow.
pub open spec fn spec_schema_prompt() -> Seq<char> {
    "Return your final response using EXACTLY this XML schema and no text outside tags:\n<assistant_response>\n  <intent>plan|clarify|execute|report</intent>\n  <summary>...</summary>\n  <tool_summary>...</tool_summary>\n  <nextstep>...</nextstep>\n  <needs_user_input>true|false</needs_user_input>\n  <question>...</question>\n  <status>ok|blocked|failed</status>\n  <error>...</error>\n</assistant_response>\nRules: summary/nextstep must be non-empty; if needs_user_input=true then question must be non-empty; if status=failed then error must be non-empty."@
}

pub fn response_contract_schema_prompt() -> (r: &'static str)
    ensures
        r@ == spec_schema_prompt(),
{
    "Return your final response using EXACTLY this XML schema and no text outside tags:\n<assistant_response>\n  <intent>plan|clarify|execute|report</intent>\n  <summary>...</summary>\n  <tool_summary>...</tool_summary>\n  <nextstep>...</nextstep>\n  <needs_user_input>true|false</needs_user_input>\n  <question>...</question>\n  <status>ok|blocked|failed</status>\n  <error>...</error>\n</assistant_response>\nRules: summary/nextstep must be non-empty; if needs_user_input=true then question must be non-empty; if status=failed then error must be non-empty."
}

pub open spec fn string_views(v: Seq<String>) -> Seq<Seq<char>> {
    v.map_values(|s: String| s@)
}

/// Each violation on a line of its own, as `- violation`.
pub open spec fn spec_listed(violations: Seq<Seq<char>>) -> Seq<char>
    decreases violations.len(),
{
    if violations.len() == 0 {
        Seq::empty()
    } else {
        spec_listed(violations.drop_last()) + "- "@ + violations.last() + "\n"@
    }
}

pub open spec fn spec_retry_prompt(violations: Seq<Seq<char>>) -> Seq<char> {
    "Your previous response violated the required XML response contract.\nViolations:\n"@
        + spec_listed(violations) + "\nRe-send a full response.\n"@ + spec_schema_prompt()
}

/// The prompt asking the model to re-send a response that broke the contract.
pub fn format_response_contract_retry_prompt(violations: &[String]) -> (r: String)
    ensures
        r@ == spec_retry_prompt(string_views(violations@)),
{
    let mut listed: Vec<char> = Vec::new();
    let mut i: usize = 0;
    while i < violations.len()
        invariant
            i <= violations@.len(),
            listed@ == spec_listed(string_views(violations@.take(i as int))),
        decreases violations@.len() - i,
    {
        assert(string_views(violations@.take(i as int + 1)).drop_last() =~= string_views(violations@.take(i as int)));
        extend_chars(&mut listed, "- ");
        extend_chars(&mut listed, violations[i].as_str());
        extend_chars(&mut listed, "\n");
        i += 1;
    }
    assert(violations@.take(violations@.len() as int) =~= violations@);
    let mut out: Vec<char> = Vec::new();
    extend_chars(&mut out, "Your previous response violated the required XML response contract.\nViolations:\n");
    extend_from_chars(&mut out, listed.as_slice());
    extend_chars(&mut out, "\nRe-send a full response.\n");
    extend_chars(&mut out, response_contract_schema_prompt());
    string_from_chars(out.as_slice())
}

pub open spec fn open_tag(tag: Seq<char>) -> Seq<char> {
    "<"@ + tag + ">"@
}

pub open spec fn close_tag(tag: Seq<char>) -> Seq<char> {
    "</"@ + tag + ">"@
}

/// Reading one `<tag>value</tag>` element off the front of `rest` (after its
/// leading whitespace): the value, what remains, and the violation, if any.
pub open spec fn spec_consume(rest: Seq<char>, tag: Seq<char>) -> (Seq<char>, Seq<char>, Option<Seq<char>>) {
    let working = trim_start_seq(rest);
    if !has_prefix(working, open_tag(tag)) {
        (Seq::empty(), rest, Some("missing_or_out_of_order_"@ + tag))
    } else {
        let after = working.skip(open_tag(tag).len() as int);
        match first_occurrence(after, close_tag(tag)) {
            None => (Seq::empty(), Seq::empty(), Some("missing_closing_"@ + tag)),
            Some(i) => (after.take(i), after.skip(i + close_tag(tag).len()), None),
        }
    }
}

pub open spec fn push_opt(v: Seq<Seq<char>>, o: Option<Seq<char>>) -> Seq<Seq<char>> {
    match o {
        Some(x) => v.push(x),
        None => v,
    }
}

fn joined(prefix: &str, tag: &str) -> (r: Vec<char>)
    ensures
        r@ == prefix@ + tag@,
{
    let mut v = chars_of(prefix);
    extend_chars(&mut v, tag);
    v
}

fn build_tag(prefix: &str, tag: &str, suffix: &str) -> (r: Vec<char>)
    ensures
        r@ == prefix@ + tag@ + suffix@,
{
    let mut v: Vec<char> = Vec::new();
    extend_chars(&mut v, prefix);
    extend_chars(&mut v, tag);
    extend_chars(&mut v, suffix);
    v
}

fn consume_tag(rest: &mut Vec<char>, tag: &str, violations: &mut Vec<String>) -> (value: Vec<char>)
    ensures
        value@ == spec_consume(old(rest)@, tag@).0,
        final(rest)@ == spec_consume(old(rest)@, tag@).1,
        string_views(final(violations)@) == push_opt(string_views(old(violations)@), spec_consume(old(rest)@, tag@).2),
{
    let k = trim_start_index(rest.as_slice());
    let working = slice_chars(rest.as_slice(), k, rest.len());
    assert(working@ =~= trim_start_seq(rest@));
    let open = build_tag("<", tag, ">");
    let close = build_tag("</", tag, ">");
    if !starts_with_chars(working.as_slice(), open.as_slice()) {
        let m = joined("missing_or_out_of_order_", tag);
        let ghost vv = violations@;
        violations.push(string_from_chars(m.as_slice()));
        assert(m@ =~= "missing_or_out_of_order_"@ + tag@);
        assert(string_views(violations@) =~= string_views(vv).push(m@));
        return Vec::new();
    }
    let after = slice_chars(working.as_slice(), open.len(), working.len());
    assert(after@ =~= working@.skip(open@.len() as int));
    match find_seq(after.as_slice(), close.as_slice()) {
        None => {
            let m = joined("missing_closing_", tag);
            let ghost vv = violations@;
            violations.push(string_from_chars(m.as_slice()));
            assert(m@ =~= "missing_closing_"@ + tag@);
            assert(string_views(violations@) =~= string_views(vv).push(m@));
            *rest = Vec::new();
            Vec::new()
        },
        Some(i) => {
            let value = slice_chars(after.as_slice(), 0, i);
            let remaining = slice_chars(after.as_slice(), i + close.len(), after.len());
            assert(value@ =~= after@.take(i as int));
            assert(remaining@ =~= after@.skip(i + close@.len()));
            *rest = remaining;
            value
        },
    }
}

pub open spec fn is_valid_intent(s: Seq<char>) -> bool {
    s == "plan"@ || s == "clarify"@ || s == "execute"@ || s == "report"@
}

pub open spec fn spec_parse_flag(s: Seq<char>) -> Option<bool> {
    if s == "true"@ {
        Some(true)
    } else if s == "false"@ {
        Some(false)
    } else {
        None
    }
}

pub open spec fn is_valid_status(s: Seq<char>) -> bool {
    s == "ok"@ || s == "blocked"@ || s == "failed"@
}

pub open spec fn contract_open() -> Seq<char> {
    "<assistant_response>"@
}

pub open spec fn contract_close() -> Seq<char> {
    "</assistant_response>"@
}

/// The violations found in the elements of a response body, in the order
/// they are checked.
pub open spec fn spec_body_violations(inner: Seq<char>) -> Seq<Seq<char>> {
    let (intent, r1, v1) = spec_consume(inner, "intent"@);
    let (summary, r2, v2) = spec_consume(r1, "summary"@);
    let (_tool_summary, r3, v3) = spec_consume(r2, "tool_summary"@);
    let (nextstep, r4, v4) = spec_consume(r3, "nextstep"@);
    let (needs, r5, v5) = spec_consume(r4, "needs_user_input"@);
    let (question, r6, v6) = spec_consume(r5, "question"@);
    let (status, r7, v7) = spec_consume(r6, "status"@);
    let (error, r8, v8) = spec_consume(r7, "error"@);
    let tags = push_opt(push_opt(push_opt(push_opt(push_opt(push_opt(push_opt(push_opt(Seq::empty(), v1), v2), v3), v4), v5), v6), v7), v8);
    let a = if trim_seq(r8).len() > 0 { tags.push("unexpected_content_after_error"@) } else { tags };
    let b = if !is_valid_intent(trim_seq(intent)) { a.push("invalid_intent"@) } else { a };
    let c = if trim_seq(summary).len() == 0 { b.push("empty_summary"@) } else { b };
    let d = if trim_seq(nextstep).len() == 0 { c.push("empty_nextstep"@) } else { c };
    let flag = spec_parse_flag(trim_seq(needs));
    let e = if flag is None { d.push("invalid_needs_user_input"@) } else { d };
    let f = if !is_valid_status(trim_seq(status)) { e.push("invalid_status"@) } else { e };
    let g = if flag == Some(true) && trim_seq(question).len() == 0 {
        f.push("question_required_when_needs_user_input_true"@)
    } else {
        f
    };
    if trim_seq(status) == "failed"@ && trim_seq(error).len() == 0 {
        g.push("error_required_when_status_failed"@)
    } else {
        g
    }
}

/// A response body that meets the contract: the eight elements stand in
/// order, each closed, with nothing after the last; the intent is `plan`,
/// `clarify`, `execute` or `report`; summary and next step are not blank; the
/// flag is `true` or `false`; the status is `ok`, `blocked` or `failed`; a
/// `true` flag comes with a question and a failed status with an error.
pub open spec fn body_meets_contract(inner: Seq<char>) -> bool {
    let (intent, r1, v1) = spec_consume(inner, "intent"@);
    let (summary, r2, v2) = spec_consume(r1, "summary"@);
    let (_tool_summary, r3, v3) = spec_consume(r2, "tool_summary"@);
    let (nextstep, r4, v4) = spec_consume(r3, "nextstep"@);
    let (needs, r5, v5) = spec_consume(r4, "needs_user_input"@);
    let (question, r6, v6) = spec_consume(r5, "question"@);
    let (status, r7, v7) = spec_consume(r6, "status"@);
    let (error, r8, v8) = spec_consume(r7, "error"@);
    &&& v1 is None && v2 is None && v3 is None && v4 is None
    &&& v5 is None && v6 is None && v7 is None && v8 is None
    &&& trim_seq(r8).len() == 0
    &&& (trim_seq(intent) == "plan"@ || trim_seq(intent) == "clarify"@ || trim_seq(intent)
        == "execute"@ || trim_seq(intent) == "report"@)
    &&& trim_seq(summary).len() > 0
    &&& trim_seq(nextstep).len() > 0
    &&& (trim_seq(needs) == "true"@ || trim_seq(needs) == "false"@)
    &&& (trim_seq(status) == "ok"@ || trim_seq(status) == "blocked"@ || trim_seq(status)
        == "failed"@)
    &&& (trim_seq(needs) == "true"@ ==> trim_seq(question).len() > 0)
    &&& (trim_seq(status) == "failed"@ ==> trim_seq(error).len() > 0)
}

/// A body has no violations exactly when it meets the contract.
pub proof fn lemma_no_violations_iff_body_meets_contract(inner: Seq<char>)
    ensures
        spec_body_violations(inner).len() == 0 <==> body_meets_contract(inner),
{
    let (intent, r1, v1) = spec_consume(inner, "intent"@);
    let (summary, r2, v2) = spec_consume(r1, "summary"@);
    let (_tool_summary, r3, v3) = spec_consume(r2, "tool_summary"@);
    let (nextstep, r4, v4) = spec_consume(r3, "nextstep"@);
    let (needs, r5, v5) = spec_consume(r4, "needs_user_input"@);
    let (question, r6, v6) = spec_consume(r5, "question"@);
    let (status, r7, v7) = spec_consume(r6, "status"@);
    let (error, r8, v8) = spec_consume(r7, "error"@);
    let t1 = push_opt(Seq::empty(), v1);
    let t2 = push_opt(t1, v2);
    let t3 = push_opt(t2, v3);
    let t4 = push_opt(t3, v4);
    let t5 = push_opt(t4, v5);
    let t6 = push_opt(t5, v6);
    let t7 = push_opt(t6, v7);
    let tags = push_opt(t7, v8);
    assert(tags.len() == 0 <==> (v1 is None && v2 is None && v3 is None && v4 is None && v5 is None
        && v6 is None && v7 is None && v8 is None));
    let flag = spec_parse_flag(trim_seq(needs));
    let a = if trim_seq(r8).len() > 0 { tags.push("unexpected_content_after_error"@) } else { tags };
    let b = if !is_valid_intent(trim_seq(intent)) { a.push("invalid_intent"@) } else { a };
    let c = if trim_seq(summary).len() == 0 { b.push("empty_summary"@) } else { b };
    let d = if trim_seq(nextstep).len() == 0 { c.push("empty_nextstep"@) } else { c };
    let e = if flag is None { d.push("invalid_needs_user_input"@) } else { d };
    let f = if !is_valid_status(trim_seq(status)) { e.push("invalid_status"@) } else { e };
    let g = if flag == Some(true) && trim_seq(question).len() == 0 {
        f.push("question_required_when_needs_user_input_true"@)
    } else {
        f
    };
    let h = if trim_seq(status) == "failed"@ && trim_seq(error).len() == 0 {
        g.push("error_required_when_status_failed"@)
    } else {
        g
    };
    assert(spec_body_violations(inner) == h);
    assert(h.len() >= g.len() >= f.len() >= e.len() >= d.len() >= c.len() >= b.len() >= a.len() >= tags.len());
}

/// A final response is accepted exactly when, trimmed, it is one
/// `<assistant_response>` element whose body meets the contract.
pub proof fn lemma_response_accepted_iff_contract_met(payload: Seq<char>)
    ensures
        spec_contract_violations(payload).len() == 0 <==> (strip_prefix_seq(
            trim_seq(payload),
            "<assistant_response>"@,
        ) matches Some(after) && strip_suffix_seq(after, "</assistant_response>"@) matches Some(inner)
            && body_meets_contract(inner)),
{
    let t = trim_seq(payload);
    if t.len() == 0 {
        reveal_strlit("<assistant_response>");
        assert(strip_prefix_seq(t, "<assistant_response>"@) is None);
    }
    if let Some(after) = strip_prefix_seq(t, contract_open()) {
        if let Some(inner) = strip_suffix_seq(after, contract_close()) {
            lemma_no_violations_iff_body_meets_contract(inner);
        }
    }
}

/// Everything wrong with a final response under the XML contract; empty when
/// it is valid.
pub open spec fn spec_contract_violations(payload: Seq<char>) -> Seq<Seq<char>> {
    let t = trim_seq(payload);
    if t.len() == 0 {
        seq!["empty_response"@]
    } else {
        match strip_prefix_seq(t, contract_open()) {
            None => seq!["missing_assistant_response_root"@],
            Some(after) => match strip_suffix_seq(after, contract_close()) {
                None => seq!["missing_assistant_response_root"@],
                Some(inner) => spec_body_violations(inner),
            },
        }
    }
}

fn trimmed(v: &[char]) -> (r: Vec<char>)
    ensures
        r@ == trim_seq(v@),
{
    let a = trim_start_index(v);
    let rest = slice_chars(v, a, v.len());
    let b = trim_end_index(rest.as_slice());
    let r = slice_chars(rest.as_slice(), 0, b);
    assert(rest@ =~= v@.skip(a as int));
    assert(r@ =~= rest@.take(b as int));
    r
}

fn equals_str(v: &[char], s: &str) -> (r: bool)
    ensures
        r == (v@ == s@),
{
    let c = chars_of(s);
    if v.len() != c.len() {
        return false;
    }
    let r = starts_with_chars(v, c.as_slice());
    assert(r == (v@ == s@)) by {
        assert(v@.take(v@.len() as int) =~= v@);
    }
    r
}

fn push_violation(violations: &mut Vec<String>, m: &str)
    ensures
        string_views(final(violations)@) == string_views(old(violations)@).push(m@),
{
    violations.push(crate::text::copy_string(m));
    assert(string_views(violations@) =~= string_views(old(violations)@).push(m@));
}

fn check_body(inner: Vec<char>) -> (r: Vec<String>)
    ensures
        string_views(r@) == spec_body_violations(inner@),
{
    let mut violations: Vec<String> = Vec::new();
    assert(string_views(violations@) =~= Seq::<Seq<char>>::empty());
    let mut rest = inner;
    let intent = consume_tag(&mut rest, "intent", &mut violations);
    let summary = consume_tag(&mut rest, "summary", &mut violations);
    let _tool_summary = consume_tag(&mut rest, "tool_summary", &mut violations);
    let nextstep = consume_tag(&mut rest, "nextstep", &mut violations);
    let needs = consume_tag(&mut rest, "needs_user_input", &mut violations);
    let question = consume_tag(&mut rest, "question", &mut violations);
    let status = consume_tag(&mut rest, "status", &mut violations);
    let error = consume_tag(&mut rest, "error", &mut violations);
    if trimmed(rest.as_slice()).len() > 0 {
        push_violation(&mut violations, "unexpected_content_after_error");
    }
    let intent_t = trimmed(intent.as_slice());
    if !(equals_str(intent_t.as_slice(), "plan") || equals_str(intent_t.as_slice(), "clarify")
        || equals_str(intent_t.as_slice(), "execute") || equals_str(intent_t.as_slice(), "report")) {
        push_violation(&mut violations, "invalid_intent");
    }
    if trimmed(summary.as_slice()).len() == 0 {
        push_violation(&mut violations, "empty_summary");
    }
    if trimmed(nextstep.as_slice()).len() == 0 {
        push_violation(&mut violations, "empty_nextstep");
    }
    let needs_t = trimmed(needs.as_slice());
    let flag: Option<bool> = if equals_str(needs_t.as_slice(), "true") {
        Some(true)
    } else if equals_str(needs_t.as_slice(), "false") {
        Some(false)
    } else {
        None
    };
    if flag.is_none() {
        push_violation(&mut violations, "invalid_needs_user_input");
    }
    let status_t = trimmed(status.as_slice());
    let is_failed = equals_str(status_t.as_slice(), "failed");
    if !(equals_str(status_t.as_slice(), "ok") || equals_str(status_t.as_slice(), "blocked") || is_failed) {
        push_violation(&mut violations, "invalid_status");
    }
    let needs_yes = match flag {
        Some(true) => true,
        _ => false,
    };
    if needs_yes && trimmed(question.as_slice()).len() == 0 {
        push_violation(&mut violations, "question_required_when_needs_user_input_true");
    }
    if is_failed && trimmed(error.as_slice()).len() == 0 {
        push_violation(&mut violations, "error_required_when_status_failed");
    }
    violations
}

/// Checks a final response against the XML response contract: `Ok` exactly
/// when there is no violation, else every violation in order.
pub fn validate_response_contract(payload: &str) -> (r: Result<(), Vec<String>>)
    ensures
        match r {
            Ok(()) => spec_contract_violations(payload@).len() == 0,
            Err(v) => string_views(v@) == spec_contract_violations(payload@) && v@.len() > 0,
        },
{
    let t = trimmed(chars_of(payload).as_slice());
    if t.len() == 0 {
        let mut v: Vec<String> = Vec::new();
        push_violation(&mut v, "empty_response");
        assert(string_views(v@) =~= seq!["empty_response"@]);
        return Err(v);
    }
    let open = chars_of("<assistant_response>");
    let close = chars_of("</assistant_response>");
    if !starts_with_chars(t.as_slice(), open.as_slice()) {
        let mut v: Vec<String> = Vec::new();
        push_violation(&mut v, "missing_assistant_response_root");
        assert(string_views(v@) =~= seq!["missing_assistant_response_root"@]);
        return Err(v);
    }
    let after = slice_chars(t.as_slice(), open.len(), t.len());
    assert(after@ =~= t@.skip(open@.len() as int));
    if !ends_with_chars(after.as_slice(), close.as_slice()) {
        let mut v: Vec<String> = Vec::new();
        push_violation(&mut v, "missing_assistant_response_root");
        assert(string_views(v@) =~= seq!["missing_assistant_response_root"@]);
        return Err(v);
    }
    let inner = slice_chars(after.as_slice(), 0, after.len() - close.len());
    assert(inner@ =~= after@.take(after@.len() - close@.len()));
    let violations = check_body(inner);
    if violations.len() == 0 {
        Ok(())
    } else {
        Err(violations)
    }
}


/// A value with surrounding whitespace dropped, or `None` when nothing is left.
pub open spec fn spec_normalized(value: Seq<char>) -> Option<Seq<char>> {
    if trim_seq(value).len() == 0 {
        None
    } else {
        Some(trim_seq(value))
    }
}

/// The text of `<tag>...</tag>` in `inner`: from the first opening tag to the
/// closing tag after it, or, while the element is still streaming, up to the
/// next `<` (nothing when that is empty).
pub open spec fn spec_tag_value(inner: Seq<char>, tag: Seq<char>) -> Option<Seq<char>> {
    match first_occurrence(inner, open_tag(tag)) {
        None => None,
        Some(start) => {
            let after = inner.skip(start + open_tag(tag).len());
            match first_occurrence(after, close_tag(tag)) {
                Some(end) => Some(after.take(end)),
                None => {
                    let partial = match first_occurrence(after, seq!['<']) {
                        Some(k) => after.take(k),
                        None => after,
                    };
                    if partial.len() == 0 {
                        None
                    } else {
                        Some(partial)
                    }
                },
            }
        },
    }
}


pub open spec fn normalized_field(inner: Seq<char>, tag: Seq<char>) -> Option<Seq<char>> {
    match spec_tag_value(inner, tag) {
        Some(v) => spec_normalized(v),
        None => None,
    }
}

pub open spec fn flag_field(inner: Seq<char>) -> Option<bool> {
    match spec_tag_value(inner, "needs_user_input"@) {
        Some(v) => spec_parse_flag(trim_seq(v)),
        None => None,
    }
}

/// The body of the last `<assistant_response>` element in a streamed payload,
/// and whether its closing tag has arrived.
pub open spec fn spec_delta_body(payload: Seq<char>) -> Option<(Seq<char>, bool)> {
    match last_occurrence(payload, contract_open()) {
        None => None,
        Some(start) => {
            let candidate = payload.skip(start);
            match first_occurrence(candidate, contract_close()) {
                Some(c) => Some((candidate.subrange(contract_open().len() as int, c), true)),
                None => Some((candidate.skip(contract_open().len() as int), false)),
            }
        },
    }
}

/// Whether no field of the contract can be read from `inner` yet.
pub open spec fn delta_is_empty(inner: Seq<char>) -> bool {
    &&& normalized_field(inner, "intent"@) is None
    &&& normalized_field(inner, "summary"@) is None
    &&& normalized_field(inner, "tool_summary"@) is None
    &&& normalized_field(inner, "nextstep"@) is None
    &&& flag_field(inner) is None
    &&& normalized_field(inner, "question"@) is None
    &&& normalized_field(inner, "status"@) is None
    &&& normalized_field(inner, "error"@) is None
}

/// The fields that can be read from a response body.
pub open spec fn delta_read(inner: Seq<char>, complete: bool) -> ContractDeltaView {
    ContractDeltaView {
        intent: normalized_field(inner, "intent"@),
        summary: normalized_field(inner, "summary"@),
        tool_summary: normalized_field(inner, "tool_summary"@),
        nextstep: normalized_field(inner, "nextstep"@),
        needs_user_input: flag_field(inner),
        question: normalized_field(inner, "question"@),
        status: normalized_field(inner, "status"@),
        error: normalized_field(inner, "error"@),
        complete,
    }
}

/// What a partial or complete streamed payload says of the contract so far.
pub open spec fn spec_contract_delta(payload: Seq<char>) -> Option<ContractDeltaView> {
    match spec_delta_body(payload) {
        None => None,
        Some((inner, complete)) => if delta_is_empty(inner) {
            None
        } else {
            Some(delta_read(inner, complete))
        },
    }
}

pub open spec fn opt_delta_view(o: Option<AssistantContractDelta>) -> Option<ContractDeltaView> {
    match o {
        Some(d) => Some(d@),
        None => None,
    }
}

/// Reads the value of `<tag>` from a possibly unfinished response body.
pub fn extract_contract_tag_value(inner: &[char], tag: &str) -> (r: Option<Vec<char>>)
    ensures
        match r {
            Some(v) => spec_tag_value(inner@, tag@) == Some(v@),
            None => spec_tag_value(inner@, tag@) is None,
        },
{
    let open = build_tag("<", tag, ">");
    let close = build_tag("</", tag, ">");
    let start = match find_seq(inner, open.as_slice()) {
        None => return None,
        Some(k) => k,
    };
    assert(occurs_at(inner@, open@, start as int));
    let n = inner.len();
    let from = start + open.len();
    let after = slice_chars(inner, from, n);
    assert(after@ =~= inner@.skip(start + open@.len()));
    if let Some(end) = find_seq(after.as_slice(), close.as_slice()) {
        let v = slice_chars(after.as_slice(), 0, end);
        assert(v@ =~= after@.take(end as int));
        return Some(v);
    }
    let lt = vec!['<'];
    assert(lt@ =~= seq!['<']);
    let partial_end = match find_seq(after.as_slice(), lt.as_slice()) {
        Some(k) => k,
        None => after.len(),
    };
    let partial = slice_chars(after.as_slice(), 0, partial_end);
    assert(partial@ =~= after@.take(partial_end as int));
    assert(after@.take(after@.len() as int) =~= after@);
    if partial.len() == 0 {
        None
    } else {
        Some(partial)
    }
}

/// The trimmed value, when it is not empty.
pub fn normalized_non_empty(value: &[char]) -> (r: Option<String>)
    ensures
        opt_string_view(r) == spec_normalized(value@),
{
    let t = trimmed(value);
    if t.len() == 0 {
        None
    } else {
        Some(string_from_chars(t.as_slice()))
    }
}

/// `true` or `false` after trimming; anything else is no answer.
pub fn parse_bool_field(value: &[char]) -> (r: Option<bool>)
    ensures
        r == spec_parse_flag(trim_seq(value@)),
{
    let t = trimmed(value);
    if equals_str(t.as_slice(), "true") {
        Some(true)
    } else if equals_str(t.as_slice(), "false") {
        Some(false)
    } else {
        None
    }
}

fn read_normalized(inner: &[char], tag: &str) -> (r: Option<String>)
    ensures
        opt_string_view(r) == normalized_field(inner@, tag@),
{
    match extract_contract_tag_value(inner, tag) {
        Some(v) => normalized_non_empty(v.as_slice()),
        None => None,
    }
}

fn read_flag(inner: &[char]) -> (r: Option<bool>)
    ensures
        r == flag_field(inner@),
{
    match extract_contract_tag_value(inner, "needs_user_input") {
        Some(v) => parse_bool_field(v.as_slice()),
        None => None,
    }
}

proof fn lemma_close_after_open(candidate: Seq<char>, c: int)
    requires
        has_prefix(candidate, contract_open()),
        occurs_at(candidate, contract_close(), c),
    ensures
        contract_open().len() <= c,
{
    reveal_strlit("<assistant_response>");
    reveal_strlit("</assistant_response>");
    if c < contract_open().len() {
        assert(candidate[c] == contract_close()[0]);
        assert(candidate[c + 1] == contract_close()[1]);
        assert(candidate.take(contract_open().len() as int)[c] == candidate[c]);
        if c + 1 < contract_open().len() {
            assert(candidate.take(contract_open().len() as int)[c + 1] == candidate[c + 1]);
        }
    }
}

fn delta_body(text: &[char]) -> (r: Option<(Vec<char>, bool)>)
    ensures
        match r {
            None => spec_delta_body(text@) is None,
            Some((inner, complete)) => spec_delta_body(text@) == Some((inner@, complete)),
        },
{
    let open = chars_of("<assistant_response>");
    let close = chars_of("</assistant_response>");
    let start = match rfind_seq(text, open.as_slice()) {
        None => return None,
        Some(k) => k,
    };
    assert(occurs_at(text@, open@, start as int));
    let n = text.len();
    let candidate = slice_chars(text, start, n);
    assert(candidate@ =~= text@.skip(start as int));
    assert(candidate@.take(open@.len() as int) =~= text@.subrange(start as int, start + open@.len()));
    match find_seq(candidate.as_slice(), close.as_slice()) {
        Some(c) => {
            proof {
                lemma_close_after_open(candidate@, c as int);
            }
            Some((slice_chars(candidate.as_slice(), open.len(), c), true))
        },
        None => {
            let v = slice_chars(candidate.as_slice(), open.len(), candidate.len());
            assert(v@ =~= candidate@.skip(open@.len() as int));
            Some((v, false))
        },
    }
}

fn read_delta(inner: &[char], complete: bool) -> (r: Option<AssistantContractDelta>)
    ensures
        if delta_is_empty(inner@) {
            r is None
        } else {
            opt_delta_view(r) == Some(delta_read(inner@, complete))
        },
{
    let intent = read_normalized(inner, "intent");
    let summary = read_normalized(inner, "summary");
    let tool_summary = read_normalized(inner, "tool_summary");
    let nextstep = read_normalized(inner, "nextstep");
    let question = read_normalized(inner, "question");
    let status = read_normalized(inner, "status");
    let error = read_normalized(inner, "error");
    let needs_user_input = read_flag(inner);
    if intent.is_none() && summary.is_none() && tool_summary.is_none() && nextstep.is_none()
        && needs_user_input.is_none() && question.is_none() && status.is_none()
        && error.is_none() {
        return None;
    }
    Some(
        AssistantContractDelta {
            intent,
            summary,
            tool_summary,
            nextstep,
            needs_user_input,
            question,
            status,
            error,
            complete,
        },
    )
}

/// Reads whatever fields of the structured response have streamed in so far,
/// from the last `<assistant_response>` on; `None` when no field is readable.
pub fn parse_assistant_contract_delta(payload: &str) -> (r: Option<AssistantContractDelta>)
    ensures
        opt_delta_view(r) == spec_contract_delta(payload@),
{
    let text = chars_of(payload);
    parse_contract_delta_chars(text.as_slice())
}

/// As `parse_assistant_contract_delta`, on the payload's characters.
pub fn parse_contract_delta_chars(text: &[char]) -> (r: Option<AssistantContractDelta>)
    ensures
        opt_delta_view(r) == spec_contract_delta(text@),
{
    match delta_body(text) {
        None => None,
        Some((inner, complete)) => read_delta(inner.as_slice(), complete),
    }
}

} // verus!
