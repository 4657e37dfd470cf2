use vstd::prelude::*;
use vstd::string::StringSliceAdditionalSpecFns;
use vstd::utf8::{decode_utf8, valid_utf8};

use crate::text::{
    chars_of, extend_from_chars, slice_chars, spec_is_ascii_whitespace,
    string_from_chars, trim_end_index, trim_end_seq, trim_seq, trim_start_index, trim_start_seq,
};

verus! {

// ───────────────────────── control characters ─────────────────────────

/// Lower-case hexadecimal digit for a value below 16.
pub open spec fn hex_digit(d: u8) -> char {
    if d < 10 {
        (('0' as u8) + d) as char
    } else {
        (('a' as u8) + d - 10) as char
    }
}

/// The escape written in place of a control character (code below 0x20)
/// inside a JSON string.
pub open spec fn control_escape(b: u8) -> Seq<char> {
    if b == 0x0A {
        seq!['\\', 'n']
    } else if b == 0x0D {
        seq!['\\', 'r']
    } else if b == 0x09 {
        seq!['\\', 't']
    } else {
        seq!['\\', 'u', '0', '0', hex_digit(b / 16), hex_digit(b % 16)]
    }
}

/// Whether a character is a control character that JSON strings may not hold.
pub open spec fn is_control(c: char) -> bool {
    (c as u32) < 0x20
}

/// State after the control-character repair has read `text`: the text written
/// so far, whether a string is open, whether the previous character was an
/// escaping backslash, and whether anything was changed.
pub open spec fn control_run(text: Seq<char>) -> (Seq<char>, bool, bool, bool)
    decreases text.len(),
{
    if text.len() == 0 {
        (Seq::empty(), false, false, false)
    } else {
        let (o, in_s, prev, changed) = control_run(text.drop_last());
        let c = text.last();
        if in_s {
            if prev {
                (o.push(c), true, false, changed)
            } else if c == '\\' {
                (o.push(c), true, true, changed)
            } else if c == '"' {
                (o.push(c), false, false, changed)
            } else if is_control(c) {
                (o + control_escape((c as u32) as u8), true, false, true)
            } else {
                (o.push(c), true, false, changed)
            }
        } else {
            (o.push(c), c == '"', prev, changed)
        }
    }
}

/// Result of escaping literal control characters inside JSON strings: `None`
/// when nothing needed escaping.
pub open spec fn spec_repair_control_chars(text: Seq<char>) -> Option<Seq<char>> {
    let (o, _, _, changed) = control_run(text);
    if changed {
        Some(o)
    } else {
        None
    }
}

fn hex_char(d: u8) -> (c: char)
    requires
        d < 16,
    ensures
        c == hex_digit(d),
{
    if d < 10 {
        (48u8 + d) as char
    } else {
        (97u8 + d - 10) as char
    }
}

fn push_control_escape(out: &mut Vec<char>, b: u8)
    requires
        b < 0x20,
    ensures
        final(out)@ == old(out)@ + control_escape(b),
{
    let ghost start = out@;
    if b == 0x0A {
        out.push('\\');
        out.push('n');
    } else if b == 0x0D {
        out.push('\\');
        out.push('r');
    } else if b == 0x09 {
        out.push('\\');
        out.push('t');
    } else {
        out.push('\\');
        out.push('u');
        out.push('0');
        out.push('0');
        out.push(hex_char(b / 16));
        out.push(hex_char(b % 16));
    }
    assert(out@ =~= start + control_escape(b));
}

/// Escapes literal control characters (codes below 0x20) that appear inside
/// JSON string values; every other character is copied unchanged.
pub fn repair_control_chars(raw: &str) -> (r: Option<String>)
    ensures
        match spec_repair_control_chars(raw@) {
            Some(o) => r matches Some(s) && s@ == o,
            None => r is None,
        },
{
    let text = chars_of(raw);
    let n = text.len();
    let mut out: Vec<char> = Vec::new();
    let mut in_string = false;
    let mut prev_backslash = false;
    let mut changed = false;
    let mut i: usize = 0;
    assert(text@.take(0) =~= Seq::<char>::empty());
    while i < n
        invariant
            n == text@.len(),
            i <= n,
            (out@, in_string, prev_backslash, changed) == control_run(text@.take(i as int)),
        decreases n - i,
    {
        let c = text[i];
        assert(text@.take(i as int + 1).drop_last() =~= text@.take(i as int));
        if in_string {
            if prev_backslash {
                prev_backslash = false;
                out.push(c);
            } else if c == '\\' {
                prev_backslash = true;
                out.push(c);
            } else if c == '"' {
                in_string = false;
                out.push(c);
            } else if (c as u32) < 0x20 {
                let code: u32 = c as u32;
                changed = true;
                push_control_escape(&mut out, code as u8);
            } else {
                out.push(c);
            }
        } else {
            if c == '"' {
                in_string = true;
            }
            out.push(c);
        }
        i += 1;
    }
    assert(text@.take(n as int) =~= text@);
    if changed {
        Some(string_from_chars(out.as_slice()))
    } else {
        None
    }
}

// ───────────────────────── `\$` escapes ─────────────────────────

/// State after the dollar-escape repair has read the first `n` characters; a
/// backslash inside a string that stands right before `$` is dropped.
pub open spec fn dollar_run(text: Seq<char>, n: int) -> (Seq<char>, bool, bool, bool)
    decreases n,
{
    if n <= 0 {
        (Seq::empty(), false, false, false)
    } else {
        let (o, in_s, prev, changed) = dollar_run(text, n - 1);
        let c = text[n - 1];
        if in_s {
            if prev {
                (o.push(c), true, false, changed)
            } else if c == '\\' {
                if n < text.len() && text[n] == '$' {
                    (o, true, false, true)
                } else {
                    (o.push(c), true, true, changed)
                }
            } else if c == '"' {
                (o.push(c), false, false, changed)
            } else {
                (o.push(c), true, false, changed)
            }
        } else {
            (o.push(c), c == '"', prev, changed)
        }
    }
}

/// Result of dropping the backslash of each `\$` inside JSON strings: `None`
/// when there was none.
pub open spec fn spec_repair_invalid_dollar_escapes(text: Seq<char>) -> Option<Seq<char>> {
    let (o, _, _, changed) = dollar_run(text, text.len() as int);
    if changed {
        Some(o)
    } else {
        None
    }
}

/// Removes invalid `\$` JSON escapes inside string values (the `$` stays);
/// every other character is copied unchanged.
pub fn repair_invalid_dollar_escapes(raw: &str) -> (r: Option<String>)
    ensures
        match spec_repair_invalid_dollar_escapes(raw@) {
            Some(o) => r matches Some(s) && s@ == o,
            None => r is None,
        },
{
    let text = chars_of(raw);
    let n = text.len();
    let mut out: Vec<char> = Vec::new();
    let mut in_string = false;
    let mut prev_backslash = false;
    let mut changed = false;
    let mut i: usize = 0;
    while i < n
        invariant
            n == text@.len(),
            i <= n,
            (out@, in_string, prev_backslash, changed) == dollar_run(text@, i as int),
        decreases n - i,
    {
        let c = text[i];
        if in_string {
            if prev_backslash {
                prev_backslash = false;
                out.push(c);
            } else if c == '\\' {
                if i + 1 < n && text[i + 1] == '$' {
                    changed = true;
                } else {
                    prev_backslash = true;
                    out.push(c);
                }
            } else {
                if c == '"' {
                    in_string = false;
                }
                out.push(c);
            }
        } else {
            if c == '"' {
                in_string = true;
            }
            out.push(c);
        }
        i += 1;
    }
    if changed {
        Some(string_from_chars(out.as_slice()))
    } else {
        None
    }
}

// ───────────────────────── inner quotes ─────────────────────────

/// Index of the first byte at or after `k` that is not ASCII whitespace.
pub open spec fn next_non_whitespace(bytes: Seq<u8>, k: int) -> int
    decreases bytes.len() - k,
{
    if 0 <= k < bytes.len() && spec_is_ascii_whitespace(bytes[k]) {
        next_non_whitespace(bytes, k + 1)
    } else {
        k
    }
}

/// A quote ends its string when the next non-whitespace byte is `,`, `}`, `]`,
/// `:`, or there is none.
pub open spec fn spec_is_probable_string_terminator(bytes: Seq<u8>, quote_idx: int) -> bool {
    let j = next_non_whitespace(bytes, quote_idx + 1);
    j >= bytes.len() || bytes[j] == 0x2C || bytes[j] == 0x7D || bytes[j] == 0x5D || bytes[j]
        == 0x3A
}

pub fn is_probable_string_terminator(bytes: &[u8], quote_idx: usize) -> (r: bool)
    ensures
        r == spec_is_probable_string_terminator(bytes@, quote_idx as int),
{
    if quote_idx >= bytes.len() {
        return true;
    }
    let mut idx = quote_idx + 1;
    while idx < bytes.len() && (bytes[idx] == 0x20 || bytes[idx] == 0x09 || bytes[idx] == 0x0A
        || bytes[idx] == 0x0C || bytes[idx] == 0x0D)
        invariant
            quote_idx < idx <= bytes@.len(),
            next_non_whitespace(bytes@, idx as int) == next_non_whitespace(
                bytes@,
                quote_idx as int + 1,
            ),
        decreases bytes@.len() - idx,
    {
        idx += 1;
    }
    if idx >= bytes.len() {
        return true;
    }
    let b = bytes[idx];
    b == 0x2C || b == 0x7D || b == 0x5D || b == 0x3A
}

/// State after the inner-quote repair has read the first `n` bytes: a quote
/// inside a string that does not look like its end is escaped.
pub open spec fn quote_run(bytes: Seq<u8>, n: int) -> (Seq<u8>, bool, bool, bool)
    decreases n,
{
    if n <= 0 {
        (Seq::empty(), false, false, false)
    } else {
        let (o, in_s, prev, changed) = quote_run(bytes, n - 1);
        let b = bytes[n - 1];
        if in_s {
            if prev {
                (o.push(b), true, false, changed)
            } else if b == 0x5C {
                (o.push(b), true, true, changed)
            } else if b == 0x22 {
                if spec_is_probable_string_terminator(bytes, n - 1) {
                    (o.push(b), false, false, changed)
                } else {
                    (o.push(0x5C).push(0x22), true, false, true)
                }
            } else {
                (o.push(b), true, false, changed)
            }
        } else {
            (o.push(b), b == 0x22, prev, changed)
        }
    }
}

/// `None` when no quote was escaped or the bytes written are not UTF-8; else the
/// decoded text.
pub open spec fn spec_repair_unescaped_inner_quotes(bytes: Seq<u8>) -> Option<Seq<char>> {
    let (o, _, _, changed) = quote_run(bytes, bytes.len() as int);
    if changed && valid_utf8(o) {
        Some(decode_utf8(o))
    } else {
        None
    }
}

/// `String::from_utf8`: decodes the bytes when they are valid UTF-8.
#[verifier::external_body]
fn string_from_utf8(v: Vec<u8>) -> (r: Option<String>)
    ensures
        r is Some <==> valid_utf8(v@),
        r matches Some(s) ==> s@ == decode_utf8(v@),
{
    String::from_utf8(v).ok()
}

/// Escapes unescaped `"` that appear inside JSON string values.
pub fn repair_unescaped_inner_quotes(raw: &str) -> (r: Option<String>)
    ensures
        match spec_repair_unescaped_inner_quotes(raw.spec_bytes()) {
            Some(o) => r matches Some(s) && s@ == o,
            None => r is None,
        },
{
    let bytes = raw.as_bytes();
    let mut out: Vec<u8> = Vec::new();
    let mut in_string = false;
    let mut prev_backslash = false;
    let mut changed = false;
    let mut i: usize = 0;
    while i < bytes.len()
        invariant
            i <= bytes@.len(),
            (out@, in_string, prev_backslash, changed) == quote_run(bytes@, i as int),
        decreases bytes@.len() - i,
    {
        let b = bytes[i];
        if in_string {
            if prev_backslash {
                prev_backslash = false;
                out.push(b);
            } else if b == 0x5C {
                prev_backslash = true;
                out.push(b);
            } else if b == 0x22 {
                if is_probable_string_terminator(bytes, i) {
                    in_string = false;
                    out.push(b);
                } else {
                    changed = true;
                    out.push(0x5C);
                    out.push(0x22);
                }
            } else {
                out.push(b);
            }
        } else {
            if b == 0x22 {
                in_string = true;
            }
            out.push(b);
        }
        i += 1;
    }
    if !changed {
        return None;
    }
    string_from_utf8(out)
}

// ───────────────────────── truncated closures ─────────────────────────

/// State after reading `s` for the closure repair: the closers still expected
/// (innermost last), or `None` once a closer did not match; whether a string is
/// open; whether the previous character was an escaping backslash.
pub open spec fn closure_run(s: Seq<char>) -> (Option<Seq<char>>, bool, bool)
    decreases s.len(),
{
    if s.len() == 0 {
        (Some(Seq::empty()), false, false)
    } else {
        let (st, in_s, prev) = closure_run(s.drop_last());
        let c = s.last();
        match st {
            None => (None, in_s, prev),
            Some(stack) => {
                if in_s {
                    if prev {
                        (Some(stack), true, false)
                    } else if c == '\\' {
                        (Some(stack), true, true)
                    } else if c == '"' {
                        (Some(stack), false, false)
                    } else {
                        (Some(stack), true, false)
                    }
                } else if c == '"' {
                    (Some(stack), true, prev)
                } else if c == '{' {
                    (Some(stack.push('}')), false, prev)
                } else if c == '[' {
                    (Some(stack.push(']')), false, prev)
                } else if c == '}' || c == ']' {
                    if stack.len() > 0 && stack.last() == c {
                        (Some(stack.drop_last()), false, prev)
                    } else {
                        (None, false, prev)
                    }
                } else {
                    (Some(stack), false, prev)
                }
            },
        }
    }
}

/// The largest number of characters the closure repair may add to a payload of
/// `len` bytes: 8, or 15% of the length when that is more.
pub open spec fn max_closure_delta(len: nat) -> int {
    let scaled = if len * 15 > usize::MAX {
        usize::MAX as int
    } else {
        (len * 15) as int
    };
    if 8 > scaled / 100 {
        8
    } else {
        scaled / 100
    }
}

/// Closes unterminated JSON containers and strings of `raw` (trailing
/// whitespace dropped first) by appending only the missing `"`, `}` and `]`.
pub open spec fn spec_repair_truncated_json_closure(raw: Seq<char>) -> Option<Seq<char>> {
    let t = trim_end_seq(raw);
    if !(t.len() > 0 && (t[0] == '{' || t[0] == '[')) {
        None
    } else {
        let (st, in_s, prev) = closure_run(t);
        match st {
            None => None,
            Some(stack) => {
                if in_s && prev {
                    None
                } else {
                    let additions = (if in_s { seq!['"'] } else { Seq::empty() }) + stack.reverse();
                    if additions.len() == 0 {
                        None
                    } else if additions.len() > max_closure_delta((vstd::utf8::encode_utf8(t).len() as usize) as nat) {
                        None
                    } else {
                        Some(t + additions)
                    }
                }
            },
        }
    }
}

pub fn repair_truncated_json_closure(raw: &str) -> (r: Option<String>)
    ensures
        match spec_repair_truncated_json_closure(raw@) {
            Some(o) => r matches Some(s) && s@ == o,
            None => r is None,
        },
{
    let chars = chars_of(raw);
    let end = trim_end_index(chars.as_slice());
    let t = slice_chars(chars.as_slice(), 0, end);
    assert(t@ =~= trim_end_seq(raw@));
    if !(t.len() > 0 && (t[0] == '{' || t[0] == '[')) {
        return None;
    }
    let mut stack: Vec<char> = Vec::new();
    let mut in_string = false;
    let mut prev_backslash = false;
    let mut i: usize = 0;
    assert(t@.take(0) =~= Seq::<char>::empty());
    while i < t.len()
        invariant
            i <= t@.len(),
            t@ == trim_end_seq(raw@),
            t@.len() > 0 && (t@[0] == '{' || t@[0] == '['),
            closure_run(t@.take(i as int)) == (Some(stack@), in_string, prev_backslash),
        decreases t@.len() - i,
    {
        let c = t[i];
        assert(t@.take(i as int + 1).drop_last() =~= t@.take(i as int));
        if in_string {
            if prev_backslash {
                prev_backslash = false;
            } else if c == '\\' {
                prev_backslash = true;
            } else if c == '"' {
                in_string = false;
            }
        } else if c == '"' {
            in_string = true;
        } else if c == '{' {
            stack.push('}');
        } else if c == '[' {
            stack.push(']');
        } else if c == '}' || c == ']' {
            if stack.len() > 0 && stack[stack.len() - 1] == c {
                stack.pop();
            } else {
                proof {
                    let x = t@.take(i as int + 1);
                    assert(x.last() == c);
                    assert(closure_run(x.drop_last()) == (Some(stack@), false, prev_backslash));
                    assert(closure_run(x).0 is None);
                    lemma_closure_none_persists(t@, i as int + 1, t@.len() as int);
                    assert(t@.take(t@.len() as int) =~= t@);
                    assert(closure_run(t@).0 is None);
                    assert(t@ == trim_end_seq(raw@));
                    assert(spec_repair_truncated_json_closure(raw@) is None);
                }
                return None;
            }
        }
        i += 1;
    }
    assert(t@.take(t@.len() as int) =~= t@);
    if in_string && prev_backslash {
        return None;
    }
    let mut additions: Vec<char> = Vec::new();
    if in_string {
        additions.push('"');
    }
    let ghost base = additions@;
    let mut k: usize = stack.len();
    while k > 0
        invariant
            k <= stack@.len(),
            additions@ == base + stack@.skip(k as int).reverse(),
        decreases k,
    {
        k -= 1;
        additions.push(stack[k]);
        assert(stack@.skip(k as int).reverse() =~= stack@.skip(k as int + 1).reverse().push(stack@[k as int]));
    }
    assert(stack@.skip(0) =~= stack@);
    if additions.len() == 0 {
        return None;
    }
    let trimmed_str = raw.substring_char(0, end);
    assert(trimmed_str@ =~= t@);
    let original_len = trimmed_str.len();
    assert((original_len > usize::MAX / 15) == (original_len * 15 > usize::MAX)) by (nonlinear_arith);
    let scaled = if original_len > usize::MAX / 15 { usize::MAX } else { original_len * 15 };
    let max_delta = if 8 > scaled / 100 { 8 } else { scaled / 100 };
    if additions.len() > max_delta {
        assert(original_len == (vstd::utf8::encode_utf8(t@).len() as usize));
        return None;
    }
    let mut out = t;
    extend_from_chars(&mut out, additions.as_slice());
    Some(string_from_chars(out.as_slice()))
}

pub proof fn lemma_closure_none_persists(s: Seq<char>, k: int, m: int)
    requires
        0 <= k <= m <= s.len(),
        closure_run(s.take(k)).0 is None,
    ensures
        closure_run(s.take(m)).0 is None,
    decreases m - k,
{
    if m > k {
        lemma_closure_none_persists(s, k, m - 1);
        assert(s.take(m).drop_last() =~= s.take(m - 1));
    }
}

// ───────────────────────── payload extraction ─────────────────────────

/// Position of the first `{` or `[`.
pub open spec fn first_open(s: Seq<char>) -> Option<int> {
    if exists|i: int| 0 <= i < s.len() && (s[i] == '{' || s[i] == '[') {
        Some(choose|i: int| 0 <= i < s.len() && (s[i] == '{' || s[i] == '[') && forall|j: int|
            0 <= j < i ==> !(s[j] == '{' || s[j] == '['))
    } else {
        None
    }
}

/// The matching scan from `start` up to (not including) `n`: nesting depth of
/// `open`/`close`, whether a string is open, whether the previous character
/// escaped, and the position where the depth returned to zero, if it did.
pub open spec fn match_run(s: Seq<char>, open: char, close: char, start: int, n: int) -> (int, bool, bool, Option<int>)
    decreases n - start,
{
    if n <= start {
        (0, false, false, None)
    } else {
        let (d, in_s, prev, end) = match_run(s, open, close, start, n - 1);
        let c = s[n - 1];
        if end is Some {
            (d, in_s, prev, end)
        } else if in_s {
            if prev {
                (d, true, false, None)
            } else if c == '\\' {
                (d, true, true, None)
            } else if c == '"' {
                (d, false, false, None)
            } else {
                (d, true, false, None)
            }
        } else if c == '"' {
            (d, true, prev, None)
        } else if c == open {
            (d + 1, false, prev, None)
        } else if c == close {
            if d - 1 == 0 {
                (d - 1, false, prev, Some(n - 1))
            } else {
                (d - 1, false, prev, None)
            }
        } else {
            (d, false, prev, None)
        }
    }
}

pub open spec fn closer_for(open: char) -> char {
    if open == '{' {
        '}'
    } else {
        ']'
    }
}

/// The first top-level JSON object or array of `s` with leading and trailing
/// junk removed; `None` when there is no `{`/`[`, when another object or array
/// follows it, or when it already spans the whole text.
pub open spec fn spec_extract_json_payload(s: Seq<char>) -> Option<Seq<char>> {
    match first_open(s) {
        None => None,
        Some(open_pos) => {
            let open = s[open_pos];
            let (_, _, _, found) = match_run(s, open, closer_for(open), open_pos, s.len() as int);
            let end = match found {
                Some(e) => e,
                None => s.len() - 1,
            };
            let trailing = trim_start_seq(s.skip(end + 1));
            if trailing.len() > 0 && (trailing[0] == '{' || trailing[0] == '[') {
                None
            } else if open_pos == 0 && end == s.len() - 1 {
                None
            } else {
                Some(s.subrange(open_pos, end + 1))
            }
        },
    }
}

/// Extracts the first top-level JSON object or array from `raw`.
pub fn extract_json_payload(raw: &str) -> (r: Option<&str>)
    ensures
        match spec_extract_json_payload(raw@) {
            Some(o) => r matches Some(x) && x@ == o,
            None => r is None,
        },
{
    let s = chars_of(raw);
    let mut open_pos: usize = 0;
    while open_pos < s.len() && !(s[open_pos] == '{' || s[open_pos] == '[')
        invariant
            open_pos <= s@.len(),
            forall|j: int| 0 <= j < open_pos ==> !(s@[j] == '{' || s@[j] == '['),
        decreases s@.len() - open_pos,
    {
        open_pos += 1;
    }
    if open_pos == s.len() {
        return None;
    }
    proof {
        let w = choose|i: int| 0 <= i < s@.len() && (s@[i] == '{' || s@[i] == '[') && forall|j: int|
            0 <= j < i ==> !(s@[j] == '{' || s@[j] == '[');
        assert(0 <= open_pos < s@.len() && (s@[open_pos as int] == '{' || s@[open_pos as int] == '['));
        if w < open_pos {
        } else if w > open_pos {
        }
        assert(first_open(s@) == Some(open_pos as int));
    }
    let open_char = s[open_pos];
    let close_char = if open_char == '{' { '}' } else { ']' };
    let mut depth: usize = 0;
    let mut in_string = false;
    let mut prev_backslash = false;
    let mut end_pos: Option<usize> = None;
    let mut i = open_pos;
    while i < s.len() && end_pos.is_none()
        invariant
            open_pos <= i <= s@.len(),
            open_pos < s@.len(),
            open_char == s@[open_pos as int],
            open_char == '{' || open_char == '[',
            close_char == closer_for(open_char),
            depth <= i - open_pos,
            end_pos is None ==> match_run(s@, open_char, close_char, open_pos as int, i as int) == (depth as int, in_string, prev_backslash, None::<int>),
            end_pos is None && i > open_pos ==> depth >= 1,
            end_pos matches Some(e) ==> match_run(s@, open_char, close_char, open_pos as int, i as int).3 == Some(e as int) && open_pos <= e < i,
        decreases s@.len() - i,
    {
        let c = s[i];
        if in_string {
            if prev_backslash {
                prev_backslash = false;
            } else if c == '\\' {
                prev_backslash = true;
            } else if c == '"' {
                in_string = false;
            }
        } else if c == '"' {
            in_string = true;
        } else if c == open_char {
            depth += 1;
        } else if c == close_char {
            depth -= 1;
            if depth == 0 {
                end_pos = Some(i);
            }
        }
        i += 1;
    }
    proof {
        match end_pos {
            Some(e) => {
                lemma_match_stops(s@, open_char, close_char, open_pos as int, i as int, s@.len() as int);
            },
            None => {
                assert(i == s@.len());
            },
        }
    }
    let end = match end_pos {
        Some(e) => e,
        None => s.len() - 1,
    };
    let rest = slice_chars(s.as_slice(), end + 1, s.len());
    assert(rest@ =~= s@.skip(end as int + 1));
    let k = trim_start_index(rest.as_slice());
    if k < rest.len() && (rest[k] == '{' || rest[k] == '[') {
        return None;
    }
    if open_pos == 0 && end == s.len() - 1 {
        return None;
    }
    Some(raw.substring_char(open_pos, end + 1))
}

pub proof fn lemma_match_stops(s: Seq<char>, open: char, close: char, start: int, k: int, m: int)
    requires
        start <= k <= m,
        match_run(s, open, close, start, k).3 is Some,
    ensures
        match_run(s, open, close, start, m) == match_run(s, open, close, start, k),
    decreases m - k,
{
    if m > k {
        lemma_match_stops(s, open, close, start, k, m - 1);
    }
}

// ───────────────────────── thinking tags and previews ─────────────────────────

/// `raw` without its `<think>`…`</think>` block (the text after the block loses
/// its leading whitespace); then, if the result does not start (after trimming)
/// with `{` or `[` but holds a `{`, the trimmed text from that `{` on.
pub open spec fn spec_strip_thinking_tags(raw: Seq<char>) -> Seq<char> {
    let open = "<think>"@;
    let close = "</think>"@;
    let s = match (crate::text::first_occurrence(raw, open), crate::text::first_occurrence(raw, close)) {
        (Some(start), Some(end)) => raw.take(start) + trim_start_seq(raw.skip(end + close.len())),
        _ => raw,
    };
    let t = trim_seq(s);
    if t.len() > 0 && (t[0] == '{' || t[0] == '[') {
        s
    } else {
        match crate::text::first_occurrence(t, seq!['{']) {
            Some(idx) => t.skip(idx),
            None => s,
        }
    }
}

pub fn strip_thinking_tags(raw: &str) -> (r: String)
    ensures
        r@ == spec_strip_thinking_tags(raw@),
{
    let raw_chars = chars_of(raw);
    let open = chars_of("<think>");
    let close = chars_of("</think>");
    let found_open = crate::text::find_seq(raw_chars.as_slice(), open.as_slice());
    let found_close = crate::text::find_seq(raw_chars.as_slice(), close.as_slice());
    let s: Vec<char> = match (found_open, found_close) {
        (Some(start), Some(end)) => {
            assert(crate::text::occurs_at(raw_chars@, close@, end as int));
            assert(crate::text::occurs_at(raw_chars@, open@, start as int));
            let n = raw_chars.len();
            let from = end + close.len();
            let mut s = slice_chars(raw_chars.as_slice(), 0, start);
            let tail = slice_chars(raw_chars.as_slice(), from, n);
            let k = trim_start_index(tail.as_slice());
            let tail_trimmed = slice_chars(tail.as_slice(), k, tail.len());
            assert(tail@ =~= raw_chars@.skip(end + close@.len()));
            assert(tail_trimmed@ =~= tail@.skip(k as int));
            extend_from_chars(&mut s, tail_trimmed.as_slice());
            assert(s@ =~= raw@.take(start as int) + trim_start_seq(raw@.skip(end + "</think>"@.len())));
            s
        },
        _ => raw_chars,
    };
    let a = trim_start_index(s.as_slice());
    let after_start = slice_chars(s.as_slice(), a, s.len());
    let b = trim_end_index(after_start.as_slice());
    let t = slice_chars(after_start.as_slice(), 0, b);
    assert(t@ =~= trim_seq(s@));
    if !(t.len() > 0 && (t[0] == '{' || t[0] == '[')) {
        let brace = ['{'];
        match crate::text::find_seq(t.as_slice(), &brace) {
            Some(idx) => {
                assert(brace@ =~= seq!['{']);
                let tail = slice_chars(t.as_slice(), idx, t.len());
                assert(tail@ =~= t@.skip(idx as int));
                return string_from_chars(tail.as_slice());
            },
            None => {
                assert(brace@ =~= seq!['{']);
            },
        }
    }
    string_from_chars(s.as_slice())
}

/// The first `max_chars` characters of `text` (all of it when it is shorter).
pub open spec fn spec_preview_text(text: Seq<char>, max_chars: nat) -> Seq<char> {
    if text.len() > max_chars {
        text.take(max_chars as int)
    } else {
        text
    }
}

/// Safe UTF-8 text preview for logging.
pub fn preview_text(text: &str, max_chars: usize) -> (r: &str)
    ensures
        r@ == spec_preview_text(text@, max_chars as nat),
{
    let n = text.unicode_len();
    if n > max_chars {
        text.substring_char(0, max_chars)
    } else {
        text
    }
}

proof fn lemma_closure_stack_holds_closers(s: Seq<char>)
    ensures
        closure_run(s).0 matches Some(st) ==> forall|i: int|
            0 <= i < st.len() ==> #[trigger] st[i] == '}' || st[i] == ']',
    decreases s.len(),
{
    if s.len() > 0 {
        lemma_closure_stack_holds_closers(s.drop_last());
        let (st, in_s, prev) = closure_run(s.drop_last());
        match st {
            Some(stack) => {
                let c = s.last();
                if !in_s && c == '{' {
                    assert forall|i: int| 0 <= i < stack.push('}').len() implies #[trigger] stack.push('}')[i] == '}' || stack.push('}')[i] == ']' by {
                        if i < stack.len() {
                            assert(stack.push('}')[i] == stack[i]);
                        }
                    }
                } else if !in_s && c == '[' {
                    assert forall|i: int| 0 <= i < stack.push(']').len() implies #[trigger] stack.push(']')[i] == '}' || stack.push(']')[i] == ']' by {
                        if i < stack.len() {
                            assert(stack.push(']')[i] == stack[i]);
                        }
                    }
                } else if !in_s && (c == '}' || c == ']') && stack.len() > 0 && stack.last() == c {
                    assert forall|i: int| 0 <= i < stack.drop_last().len() implies #[trigger] stack.drop_last()[i] == '}' || stack.drop_last()[i] == ']' by {
                        assert(stack.drop_last()[i] == stack[i]);
                    }
                }
            },
            None => {},
        }
    }
}

/// The closure repair only appends: its output is the payload (without
/// trailing whitespace) followed by at least one character, each of them a
/// `"`, `}` or `]`.
pub proof fn lemma_closure_repair_only_appends_closers(raw: Seq<char>)
    ensures
        spec_repair_truncated_json_closure(raw) matches Some(o) ==> {
            let t = trim_end_seq(raw);
            &&& o.len() > t.len()
            &&& o.take(t.len() as int) == t
            &&& forall|i: int| t.len() <= i < o.len() ==> #[trigger] o[i] == '"' || o[i] == '}' || o[i] == ']'
        },
{
    let t = trim_end_seq(raw);
    lemma_closure_stack_holds_closers(t);
    if let Some(o) = spec_repair_truncated_json_closure(raw) {
        let (st, in_s, prev) = closure_run(t);
        let stack = st->Some_0;
        let q: Seq<char> = if in_s { seq!['"'] } else { Seq::empty() };
        let additions = q + stack.reverse();
        assert(o == t + additions);
        assert(o.take(t.len() as int) =~= t);
        assert forall|i: int| t.len() <= i < o.len() implies #[trigger] o[i] == '"' || o[i] == '}' || o[i] == ']' by {
            let j = i - t.len();
            assert(o[i] == additions[j]);
            if j < q.len() {
                assert(additions[j] == q[j]);
            } else {
                assert(additions[j] == stack.reverse()[j - q.len()]);
                assert(stack.reverse()[j - q.len()] == stack[stack.len() - 1 - (j - q.len())]);
            }
        }
    }
}

// ───────────────────────── laws of the repairs ─────────────────────────

/// The pieces laid end to end, in order.
pub open spec fn join_pieces<A>(pieces: Seq<Seq<A>>) -> Seq<A>
    decreases pieces.len(),
{
    if pieces.len() == 0 {
        Seq::empty()
    } else {
        join_pieces(pieces.drop_last()) + pieces.last()
    }
}

/// What the control-character repair writes for `c` after the state `st`.
pub open spec fn control_piece(st: (Seq<char>, bool, bool, bool), c: char) -> Seq<char> {
    if st.1 && !st.2 && c != '\\' && c != '"' && is_control(c) {
        control_escape((c as u32) as u8)
    } else {
        seq![c]
    }
}

/// What the control-character repair writes for each character of `text`.
pub open spec fn control_pieces(text: Seq<char>) -> Seq<Seq<char>> {
    Seq::new(text.len(), |i: int| control_piece(control_run(text.take(i)), text[i]))
}

/// `pieces` keeps each character of `text`, except that a control character
/// may be replaced by its escape.
pub open spec fn escapes_only_controls(text: Seq<char>, pieces: Seq<Seq<char>>) -> bool {
    &&& pieces.len() == text.len()
    &&& forall|i: int|
        0 <= i < text.len() ==> #[trigger] pieces[i] == seq![text[i]] || (is_control(text[i])
            && pieces[i] == control_escape((text[i] as u32) as u8))
}

proof fn lemma_control_run_pieces(text: Seq<char>)
    ensures
        control_run(text).0 == join_pieces(control_pieces(text)),
        escapes_only_controls(text, control_pieces(text)),
        (forall|i: int| 0 <= i < text.len() ==> !is_control(#[trigger] text[i])) ==> !control_run(text).3,
    decreases text.len(),
{
    if text.len() > 0 {
        let t = text.drop_last();
        let c = text.last();
        lemma_control_run_pieces(t);
        assert forall|i: int| 0 <= i < t.len() implies #[trigger] text.take(i) == t.take(i) by {
            assert(text.take(i) =~= t.take(i));
        }
        assert(control_pieces(text).drop_last() =~= control_pieces(t));
        assert(text.take(t.len() as int) =~= t);
        let st = control_run(t);
        assert(st.0.push(c) =~= st.0 + seq![c]);
        if forall|i: int| 0 <= i < text.len() ==> !is_control(#[trigger] text[i]) {
            assert forall|i: int| 0 <= i < t.len() implies !is_control(#[trigger] t[i]) by {
                assert(t[i] == text[i]);
            }
            assert(!is_control(text[text.len() - 1]));
        }
    }
}

/// The control-character repair changes nothing but control characters, each
/// into its escape, and keeps the order of everything; a text without control
/// characters needs no repair.
pub proof fn lemma_control_repair_only_escapes_controls(text: Seq<char>)
    ensures
        spec_repair_control_chars(text) matches Some(o) ==> exists|pieces: Seq<Seq<char>>|
            #[trigger] escapes_only_controls(text, pieces) && o == join_pieces(pieces),
        (forall|i: int| 0 <= i < text.len() ==> !is_control(#[trigger] text[i]))
            ==> spec_repair_control_chars(text) is None,
{
    lemma_control_run_pieces(text);
    if let Some(o) = spec_repair_control_chars(text) {
        assert(escapes_only_controls(text, control_pieces(text)));
    }
}

/// What the dollar repair writes for the character at `i` after the state
/// `st`: nothing for the backslash of a `\$` inside a string.
pub open spec fn dollar_piece(st: (Seq<char>, bool, bool, bool), text: Seq<char>, i: int) -> Seq<char> {
    if st.1 && !st.2 && text[i] == '\\' && i + 1 < text.len() && text[i + 1] == '$' {
        Seq::empty()
    } else {
        seq![text[i]]
    }
}

/// What the dollar repair writes for each character of `text`.
pub open spec fn dollar_pieces(text: Seq<char>) -> Seq<Seq<char>> {
    Seq::new(text.len(), |i: int| dollar_piece(dollar_run(text, i), text, i))
}

/// Whether a backslash stands at `i` with a `$` right after it.
pub open spec fn backslash_before_dollar(text: Seq<char>, i: int) -> bool {
    text[i] == '\\' && i + 1 < text.len() && text[i + 1] == '$'
}

/// `pieces` keeps each character of `text`, except that a backslash right
/// before a `$` may be dropped.
pub open spec fn drops_only_dollar_backslashes(text: Seq<char>, pieces: Seq<Seq<char>>) -> bool {
    &&& pieces.len() == text.len()
    &&& forall|i: int|
        0 <= i < text.len() ==> #[trigger] pieces[i] == seq![text[i]] || (backslash_before_dollar(text, i)
            && pieces[i] == Seq::<char>::empty())
}

proof fn lemma_dollar_run_pieces(text: Seq<char>, n: int)
    requires
        0 <= n <= text.len(),
    ensures
        dollar_run(text, n).0 == join_pieces(dollar_pieces(text).take(n)),
        (forall|i: int| 0 <= i < n ==> !backslash_before_dollar(text, i)) ==> !dollar_run(text, n).3,
    decreases n,
{
    if n > 0 {
        lemma_dollar_run_pieces(text, n - 1);
        assert(dollar_pieces(text).take(n).drop_last() =~= dollar_pieces(text).take(n - 1));
        let st = dollar_run(text, n - 1);
        assert(st.0.push(text[n - 1]) =~= st.0 + seq![text[n - 1]]);
        assert(st.0 =~= st.0 + Seq::<char>::empty());
        if forall|i: int| 0 <= i < n ==> !backslash_before_dollar(text, i) {
            assert(!backslash_before_dollar(text, n - 1));
        }
    }
}

/// The dollar repair drops exactly backslashes that stand right before a
/// `$`, and keeps everything else in order; a text without `\$` needs no
/// repair.
pub proof fn lemma_dollar_repair_only_drops_backslashes(text: Seq<char>)
    ensures
        spec_repair_invalid_dollar_escapes(text) matches Some(o) ==> exists|pieces: Seq<Seq<char>>|
            #[trigger] drops_only_dollar_backslashes(text, pieces) && o == join_pieces(pieces),
        (forall|i: int| 0 <= i < text.len() ==> !backslash_before_dollar(text, i))
            ==> spec_repair_invalid_dollar_escapes(text) is None,
{
    lemma_dollar_run_pieces(text, text.len() as int);
    assert(dollar_pieces(text).take(text.len() as int) =~= dollar_pieces(text));
    if let Some(o) = spec_repair_invalid_dollar_escapes(text) {
        assert(drops_only_dollar_backslashes(text, dollar_pieces(text)));
    }
}

/// What the inner-quote repair writes for the byte at `i` after the state
/// `st`: an escaped quote for a quote inside a string that does not end it.
pub open spec fn quote_piece(st: (Seq<u8>, bool, bool, bool), bytes: Seq<u8>, i: int) -> Seq<u8> {
    if st.1 && !st.2 && bytes[i] == 0x22 && !spec_is_probable_string_terminator(bytes, i) {
        seq![0x5Cu8, 0x22u8]
    } else {
        seq![bytes[i]]
    }
}

/// What the inner-quote repair writes for each byte.
pub open spec fn quote_pieces(bytes: Seq<u8>) -> Seq<Seq<u8>> {
    Seq::new(bytes.len(), |i: int| quote_piece(quote_run(bytes, i), bytes, i))
}

/// `pieces` keeps each byte, except that a `"` may become `\"`.
pub open spec fn escapes_only_quotes(bytes: Seq<u8>, pieces: Seq<Seq<u8>>) -> bool {
    &&& pieces.len() == bytes.len()
    &&& forall|i: int|
        0 <= i < bytes.len() ==> #[trigger] pieces[i] == seq![bytes[i]] || (bytes[i] == 0x22
            && pieces[i] == seq![0x5Cu8, 0x22u8])
}

proof fn lemma_quote_run_pieces(bytes: Seq<u8>, n: int)
    requires
        0 <= n <= bytes.len(),
    ensures
        quote_run(bytes, n).0 == join_pieces(quote_pieces(bytes).take(n)),
        (forall|i: int| 0 <= i < n ==> bytes[i] != 0x22) ==> !quote_run(bytes, n).3,
    decreases n,
{
    if n > 0 {
        lemma_quote_run_pieces(bytes, n - 1);
        assert(quote_pieces(bytes).take(n).drop_last() =~= quote_pieces(bytes).take(n - 1));
        let st = quote_run(bytes, n - 1);
        assert(st.0.push(bytes[n - 1]) =~= st.0 + seq![bytes[n - 1]]);
        assert(st.0.push(0x5C).push(0x22) =~= st.0 + seq![0x5Cu8, 0x22u8]);
    }
}

/// The inner-quote repair changes nothing but quotes, each into an escaped
/// quote, and keeps the order of everything; a text without quotes needs no
/// repair.
pub proof fn lemma_quote_repair_only_escapes_quotes(bytes: Seq<u8>)
    ensures
        spec_repair_unescaped_inner_quotes(bytes) matches Some(o) ==> exists|pieces: Seq<Seq<u8>>|
            #[trigger] escapes_only_quotes(bytes, pieces) && valid_utf8(join_pieces(pieces)) && o
                == decode_utf8(join_pieces(pieces)),
        (forall|i: int| 0 <= i < bytes.len() ==> bytes[i] != 0x22)
            ==> spec_repair_unescaped_inner_quotes(bytes) is None,
{
    lemma_quote_run_pieces(bytes, bytes.len() as int);
    assert(quote_pieces(bytes).take(bytes.len() as int) =~= quote_pieces(bytes));
    if let Some(o) = spec_repair_unescaped_inner_quotes(bytes) {
        assert(escapes_only_quotes(bytes, quote_pieces(bytes)));
    }
}

proof fn lemma_control_run_after_escape(a: Seq<char>, b: u8)
    requires
        b < 0x20,
        control_run(a) == (a, true, false, false),
    ensures
        control_run(a + control_escape(b)) == (a + control_escape(b), true, false, false),
{
    let a1 = a.push('\\');
    assert(a1.drop_last() =~= a);
    assert(a1.last() == '\\');
    assert(control_run(a1) == (a1, true, true, false));
    if b == 0x0A || b == 0x0D || b == 0x09 {
        let x = control_escape(b)[1];
        let a2 = a1.push(x);
        assert(a2.drop_last() =~= a1);
        assert(control_run(a2) == (a2, true, false, false));
        assert(a2 =~= a + control_escape(b));
    } else {
        let h1 = hex_digit(b / 16);
        let h2 = hex_digit(b % 16);
        assert(h1 != '"' && h1 != '\\' && !is_control(h1)) by {
            if b / 16 < 10 {
                assert(h1 == ((48 + b / 16) as u8) as char);
            }
        }
        assert(h2 != '"' && h2 != '\\' && !is_control(h2)) by {
            if b % 16 < 10 {
                assert(h2 == ((48 + b % 16) as u8) as char);
            }
        }
        let a2 = a1.push('u');
        let a3 = a2.push('0');
        let a4 = a3.push('0');
        let a5 = a4.push(h1);
        let a6 = a5.push(h2);
        assert(a2.drop_last() =~= a1);
        assert(a3.drop_last() =~= a2);
        assert(a4.drop_last() =~= a3);
        assert(a5.drop_last() =~= a4);
        assert(a6.drop_last() =~= a5);
        assert(control_run(a2) == (a2, true, false, false));
        assert(control_run(a3) == (a3, true, false, false));
        assert(control_run(a4) == (a4, true, false, false));
        assert(control_run(a5) == (a5, true, false, false));
        assert(control_run(a6) == (a6, true, false, false));
        assert(a6 =~= a + control_escape(b));
    }
}

proof fn lemma_control_run_settled(text: Seq<char>)
    ensures
        control_run(control_run(text).0) == (control_run(text).0, control_run(text).1, control_run(text).2, false),
    decreases text.len(),
{
    if text.len() > 0 {
        let t = text.drop_last();
        let c = text.last();
        lemma_control_run_settled(t);
        let o = control_run(t).0;
        let in_s = control_run(t).1;
        let prev = control_run(t).2;
        if in_s && !prev && c != '\\' && c != '"' && is_control(c) {
            lemma_control_run_after_escape(o, (c as u32) as u8);
        } else {
            assert(o.push(c).drop_last() =~= o);
        }
    }
}

/// Repairing twice changes nothing more: after the control-character repair
/// no control character is left inside a JSON string.
pub proof fn lemma_control_repair_settles(text: Seq<char>)
    ensures
        spec_repair_control_chars(text) matches Some(o) ==> spec_repair_control_chars(o) is None,
{
    lemma_control_run_settled(text);
}

proof fn lemma_match_end_in_range(s: Seq<char>, open: char, close: char, start: int, n: int)
    ensures
        match_run(s, open, close, start, n).3 matches Some(e) ==> start <= e < n,
    decreases n - start,
{
    if n > start {
        lemma_match_end_in_range(s, open, close, start, n - 1);
    }
}

proof fn lemma_first_open_found(s: Seq<char>, k: int)
    requires
        0 <= k <= s.len(),
        forall|j: int| 0 <= j < k ==> !(s[j] == '{' || s[j] == '['),
        exists|i: int| k <= i < s.len() && (s[i] == '{' || s[i] == '['),
    ensures
        first_open(s) matches Some(i) && 0 <= i < s.len() && (s[i] == '{' || s[i] == '[') && forall|j: int|
            0 <= j < i ==> !(s[j] == '{' || s[j] == '['),
    decreases s.len() - k,
{
    if s[k] == '{' || s[k] == '[' {
        let w = choose|i: int| 0 <= i < s.len() && (s[i] == '{' || s[i] == '[') && forall|j: int|
            0 <= j < i ==> !(s[j] == '{' || s[j] == '[');
        assert(0 <= k < s.len() && (s[k] == '{' || s[k] == '[') && forall|j: int|
            0 <= j < k ==> !(s[j] == '{' || s[j] == '['));
    } else {
        lemma_first_open_found(s, k + 1);
    }
}

/// The extracted payload is a piece of the text, shorter than the text, that
/// starts at the text's first `{` or `[`.
pub proof fn lemma_payload_is_piece_from_first_open(s: Seq<char>)
    ensures
        spec_extract_json_payload(s) matches Some(p) ==> exists|i: int|
            0 <= i && i + p.len() <= s.len() && #[trigger] s.subrange(i, i + p.len()) == p && p.len()
                > 0 && p.len() < s.len() && (p[0] == '{' || p[0] == '[') && forall|j: int|
                0 <= j < i ==> !(s[j] == '{' || s[j] == '['),
{
    if let Some(p) = spec_extract_json_payload(s) {
        lemma_first_open_found(s, 0);
        let open_pos = first_open(s)->Some_0;
        let open = s[open_pos];
        assert(0 <= open_pos < s.len() && (s[open_pos] == '{' || s[open_pos] == '[') && forall|j: int|
            0 <= j < open_pos ==> !(s[j] == '{' || s[j] == '['));
        lemma_match_end_in_range(s, open, closer_for(open), open_pos, s.len() as int);
        let (_, _, _, found) = match_run(s, open, closer_for(open), open_pos, s.len() as int);
        let end = match found {
            Some(e) => e,
            None => s.len() - 1,
        };
        assert(open_pos <= end < s.len());
        assert(p == s.subrange(open_pos, end + 1));
        assert(p[0] == s[open_pos]);
        assert(s.subrange(open_pos, open_pos + p.len()) =~= p);
    }
}

} // verus!
