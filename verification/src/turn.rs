use vstd::prelude::*;

use crate::calls::{CallCounter, CallKey};
use crate::capability::{spec_capability_text, CapabilityContentPart, CapabilityResult};
use crate::protocol::RuntimeErrorKind;
use crate::text::{
    ascii_lower_seq, ascii_lowercase_chars, chars_of, contains_seq, contains_str, extend_chars,
    string_from_chars,
};

verus! {

/// How many times a turn is retried after a transient provider error.
pub const MAX_TRANSIENT_RETRIES: u32 = 1;

/// How many tool calls one turn may run.
pub const MAX_TOOL_ITERATIONS: usize = 10;

/// How many times a final answer that breaks the response contract is sent back.
pub const MAX_RESPONSE_CONTRACT_RETRIES: usize = 2;

pub const REPEATED_SUCCESS_GUIDANCE: &'static str = "REPEATED SUCCESS: identical tool call already succeeded in this turn. Stop repeating it and continue with the next step or final answer.";

pub const JSON_REPAIR_NOTE: &'static str = "[NOTE] Tool arguments had malformed JSON and were auto-repaired. Use escaped double quotes (\\\") inside JSON string values.";

pub const TIMEOUT_NOTE: &'static str = "TIMEOUT NOTE: this command exceeded the tool timeout. If this is computation-heavy, the algorithm may be too slow for the current input. Consider a more efficient approach (e.g., memoization/iterative rewrite), reducing input size, or only then increasing timeout_secs.";

pub const REPEATED_TIMEOUT_GUIDANCE: &'static str = "REPEATED TIMEOUT: the same tool call timed out multiple times. Change strategy instead of retrying the same implementation.";

/// How a turn (or one provider pass of it) ended.
pub enum TurnOutcome {
    Complete,
    Cancelled,
    TransientError(String),
    FatalError { kind: RuntimeErrorKind, error: String },
}

/// What `str::to_lowercase` makes of a string: its Unicode lowercase mapping.
pub uninterp spec fn unicode_lowercase(s: Seq<char>) -> Seq<char>;

/// `str::to_lowercase`; the result is named, not described: it is the
/// Unicode lowercase mapping of the argument.
#[verifier::external_body]
fn to_lowercase(s: &str) -> (r: String)
    ensures
        r@ == unicode_lowercase(s@),
{
    s.to_lowercase()
}

/// The markers of a transient provider error in lowercased error text.
pub open spec fn spec_is_transient_lower(lower: Seq<char>) -> bool {
    contains_seq(lower, "timeout"@) || contains_seq(lower, "429"@) || contains_seq(lower, "502"@)
        || contains_seq(lower, "503"@) || contains_seq(lower, "connection"@) || contains_seq(
        lower,
        "rate limit"@,
    )
}

/// Whether lowercased error text marks a transient error (a timeout, HTTP
/// 429/502/503, a connection problem or a rate limit).
pub fn is_transient_lowercase(lower: &str) -> (r: bool)
    ensures
        r == spec_is_transient_lower(lower@),
{
    let s = chars_of(lower);
    contains_str(s.as_slice(), "timeout") || contains_str(s.as_slice(), "429") || contains_str(
        s.as_slice(),
        "502",
    ) || contains_str(s.as_slice(), "503") || contains_str(s.as_slice(), "connection")
        || contains_str(s.as_slice(), "rate limit")
}

/// Classifies a provider error as transient, ignoring case.
pub fn is_transient_error(err: &str) -> (r: bool)
    ensures
        r == spec_is_transient_lower(unicode_lowercase(err@)),
{
    let lower = to_lowercase(err);
    is_transient_lowercase(lower.as_str())
}

/// Whether tool output reports a timeout, ignoring ASCII case.
pub open spec fn spec_is_timeout(output: Seq<char>) -> bool {
    contains_seq(ascii_lower_seq(output), "timed out"@) || contains_seq(
        ascii_lower_seq(output),
        "timeout"@,
    )
}

pub fn is_timeout_output(output: &str) -> (r: bool)
    ensures
        r == spec_is_timeout(output@),
{
    let lower = ascii_lowercase_chars(chars_of(output).as_slice());
    contains_str(lower.as_slice(), "timed out") || contains_str(lower.as_slice(), "timeout")
}

/// A result whose content is `text` and nothing else, the rest kept.
pub open spec fn with_text(r: CapabilityResult, out: CapabilityResult, text: Seq<char>) -> bool {
    &&& out.content@.len() == 1
    &&& out.content@[0] is Text
    &&& out.content@[0]->text@ == text
    &&& out.exit_code == r.exit_code
    &&& out.is_error == r.is_error
    &&& out.output_truncated == r.output_truncated
    &&& out.error == r.error
}

/// The text of a result after a timeout was noted on it; `count` is how many
/// times in a row the same call has now timed out.
pub open spec fn spec_timeout_text(output: Seq<char>, count: nat) -> Seq<char> {
    let noted = output + "\n\n"@ + TIMEOUT_NOTE@;
    if count >= 2 {
        noted + "\n\n"@ + REPEATED_TIMEOUT_GUIDANCE@
    } else {
        noted
    }
}

fn replace_text(result: CapabilityResult, text: &[char]) -> (r: CapabilityResult)
    ensures
        with_text(result, r, text@),
{
    let s = string_from_chars(text);
    CapabilityResult {
        content: vec![CapabilityContentPart::Text { text: s }],
        exit_code: result.exit_code,
        is_error: result.is_error,
        output_truncated: result.output_truncated,
        error: result.error,
    }
}

/// Notes a timeout on a failed tool result and counts it for its call; a
/// result that is no timeout clears the count.
pub fn annotate_timeout_failure(
    result: CapabilityResult,
    tool_name: &str,
    canonical_args: &str,
    failures: &mut CallCounter,
) -> (r: CapabilityResult)
    requires
        old(failures).well_formed(),
    ensures
        final(failures).well_formed(),
        forall|k: CallKey| k != (tool_name@, canonical_args@) ==> final(failures).count_of(k) == old(
            failures,
        ).count_of(k),
        !spec_is_timeout(spec_capability_text(result)) ==> r == result && final(failures).count_of(
            (tool_name@, canonical_args@),
        ) == 0,
        spec_is_timeout(spec_capability_text(result)) ==> {
            let old_count = old(failures).count_of((tool_name@, canonical_args@));
            let count = final(failures).count_of((tool_name@, canonical_args@));
            &&& (old_count < usize::MAX ==> count == old_count + 1)
            &&& (old_count == usize::MAX ==> count == old_count)
            &&& with_text(
                result,
                r,
                spec_timeout_text(spec_capability_text(result), count),
            )
        },
{
    let output = result.text_output();
    if !is_timeout_output(output.as_str()) {
        failures.reset(tool_name, canonical_args);
        return result;
    }
    let count = failures.increment(tool_name, canonical_args);
    let mut text = chars_of(output.as_str());
    extend_chars(&mut text, "\n\n");
    extend_chars(&mut text, TIMEOUT_NOTE);
    if count >= 2 {
        extend_chars(&mut text, "\n\n");
        extend_chars(&mut text, REPEATED_TIMEOUT_GUIDANCE);
    }
    replace_text(result, text.as_slice())
}

} // verus!
