use vstd::prelude::*;

use crate::json::{
    entry_value, json_as_array, json_as_bool, json_as_i64, json_as_str, json_get, json_object,
    json_string, json_string_value, value_as_array, value_as_bool, value_as_i64, value_as_str,
    value_get,
};
use crate::calls::{CallKey, CallSet};
use crate::text::{
    chars_of, copy_string, decimal, extend_chars, extend_from_chars, join_with, spec_decimal,
    spec_join_with, str_eq, string_from_chars, trim_seq, views_of,
};
use crate::tools::{ContentPart, ToolResult};

verus! {

/// An ACP agent as the server describes it.
pub struct AcpAgentMetadata {
    pub id: String,
    pub name: String,
    pub description: String,
    pub input_schema: serde_json::Value,
}

/// The state of an ACP run.
pub enum AcpRunStatus {
    Pending,
    Complete(ToolResult),
}

/// A content part seen as character sequences.
pub enum PartView {
    Text(Seq<char>),
    Resource(Seq<char>, Option<Seq<char>>),
}

pub open spec fn opt_chars(o: Option<String>) -> Option<Seq<char>> {
    match o {
        Some(s) => Some(s@),
        None => None,
    }
}

pub open spec fn part_view(p: ContentPart) -> PartView {
    match p {
        ContentPart::Text { text } => PartView::Text(text@),
        ContentPart::Resource { uri, mime_type } => PartView::Resource(uri@, opt_chars(mime_type)),
    }
}

pub open spec fn parts_view(parts: Seq<ContentPart>) -> Seq<PartView> {
    parts.map_values(|p: ContentPart| part_view(p))
}

/// The field `k1` of an object, or `k2` when there is no `k1`.
pub open spec fn first_field(v: serde_json::Value, k1: Seq<char>, k2: Seq<char>) -> Option<serde_json::Value> {
    match json_get(v, k1) {
        Some(x) => Some(x),
        None => json_get(v, k2),
    }
}

/// The text of field `k`, when it is a string.
pub open spec fn str_field(v: serde_json::Value, k: Seq<char>) -> Option<Seq<char>> {
    match json_get(v, k) {
        Some(x) => json_as_str(x),
        None => None,
    }
}

/// One ACP content entry: a text part, a resource part, or why it is refused.
/// An entry without a string `type` is a text part.
pub open spec fn spec_part(entry: serde_json::Value) -> Result<PartView, Seq<char>> {
    let kind = match str_field(entry, "type"@) {
        Some(k) => k,
        None => "text"@,
    };
    if kind == "text"@ {
        match str_field(entry, "text"@) {
            Some(t) => Ok(PartView::Text(t)),
            None => Err("text content entry must contain text"@),
        }
    } else if kind == "resource"@ {
        match str_field(entry, "uri"@) {
            Some(u) => Ok(
                PartView::Resource(
                    u,
                    match first_field(entry, "mime_type"@, "mimeType"@) {
                        Some(m) => json_as_str(m),
                        None => None,
                    },
                ),
            ),
            None => Err("resource content entry must contain uri"@),
        }
    } else {
        Err("unsupported ACP content part type: "@ + kind)
    }
}

/// All content entries in order, or the refusal of the first bad one.
pub open spec fn spec_parts(entries: Seq<serde_json::Value>) -> Result<Seq<PartView>, Seq<char>>
    decreases entries.len(),
{
    if entries.len() == 0 {
        Ok(Seq::empty())
    } else {
        match spec_parts(entries.drop_last()) {
            Err(e) => Err(e),
            Ok(ps) => match spec_part(entries.last()) {
                Ok(p) => Ok(ps.push(p)),
                Err(e) => Err(e),
            },
        }
    }
}

/// The `content` field of an ACP tool output.
pub open spec fn spec_content_parts(value: serde_json::Value) -> Result<Seq<PartView>, Seq<char>> {
    match json_as_array(value) {
        Some(entries) => spec_parts(entries),
        None => Err("content must be an array"@),
    }
}

fn parse_content_part(entry: &serde_json::Value) -> (r: Result<ContentPart, String>)
    ensures
        match (r, spec_part(*entry)) {
            (Ok(p), Ok(v)) => part_view(p) == v,
            (Err(m), Err(e)) => m@ == e,
            _ => false,
        },
{
    let kind: &str = match value_get(entry, "type") {
        Some(t) => match value_as_str(t) {
            Some(k) => k,
            None => "text",
        },
        None => "text",
    };
    if str_eq(kind, "text") {
        let text = match value_get(entry, "text") {
            Some(t) => value_as_str(t),
            None => None,
        };
        match text {
            Some(t) => Ok(ContentPart::Text { text: copy_string(t) }),
            None => Err(copy_string("text content entry must contain text")),
        }
    } else if str_eq(kind, "resource") {
        let uri = match value_get(entry, "uri") {
            Some(u) => value_as_str(u),
            None => None,
        };
        let mime_field = match value_get(entry, "mime_type") {
            Some(m) => Some(m),
            None => value_get(entry, "mimeType"),
        };
        let mime_type: Option<String> = match mime_field {
            Some(m) => match value_as_str(m) {
                Some(s) => Some(copy_string(s)),
                None => None,
            },
            None => None,
        };
        match uri {
            Some(u) => Ok(ContentPart::Resource { uri: copy_string(u), mime_type }),
            None => Err(copy_string("resource content entry must contain uri")),
        }
    } else {
        let mut m = chars_of("unsupported ACP content part type: ");
        extend_chars(&mut m, kind);
        Err(string_from_chars(m.as_slice()))
    }
}

/// Reads the `content` array of an ACP tool output.
pub fn parse_content_parts(value: &serde_json::Value) -> (r: Result<Vec<ContentPart>, String>)
    ensures
        match (r, spec_content_parts(*value)) {
            (Ok(ps), Ok(vs)) => parts_view(ps@) == vs,
            (Err(m), Err(e)) => m@ == e,
            _ => false,
        },
{
    let entries = match value_as_array(value) {
        Some(a) => a,
        None => return Err(copy_string("content must be an array")),
    };
    let mut parts: Vec<ContentPart> = Vec::new();
    let mut i: usize = 0;
    assert(entries@.take(0) =~= Seq::<serde_json::Value>::empty());
    assert(parts_view(parts@) =~= Seq::<PartView>::empty());
    while i < entries.len()
        invariant
            i <= entries@.len(),
            json_as_array(*value) == Some(entries@),
            spec_parts(entries@.take(i as int)) == Ok::<Seq<PartView>, Seq<char>>(parts_view(parts@)),
        decreases entries@.len() - i,
    {
        assert(entries@.take(i as int + 1).drop_last() =~= entries@.take(i as int));
        assert(entries@.take(i as int + 1).last() == entries@[i as int]);
        match parse_content_part(&entries[i]) {
            Ok(p) => {
                let ghost pv = part_view(p);
                assert(spec_part(entries@[i as int]) == Ok::<PartView, Seq<char>>(pv));
                let ghost before = parts_view(parts@);
                parts.push(p);
                assert(parts_view(parts@) =~= before.push(pv));
                assert(spec_parts(entries@.take(i as int + 1)) == Ok::<Seq<PartView>, Seq<char>>(before.push(pv)));
            },
            Err(e) => {
                assert(spec_parts(entries@.take(i as int + 1)) == Err::<Seq<PartView>, Seq<char>>(e@));
                proof {
                    lemma_parts_error_sticks(entries@, i as int + 1);
                }
                return Err(e);
            },
        }
        i += 1;
    }
    assert(entries@.take(entries@.len() as int) =~= entries@);
    Ok(parts)
}

proof fn lemma_parts_error_sticks(entries: Seq<serde_json::Value>, k: int)
    requires
        0 <= k <= entries.len(),
        spec_parts(entries.take(k)) is Err,
    ensures
        spec_parts(entries) == spec_parts(entries.take(k)),
    decreases entries.len() - k,
{
    if k < entries.len() {
        assert(entries.take(k + 1).drop_last() =~= entries.take(k));
        lemma_parts_error_sticks(entries, k + 1);
    } else {
        assert(entries.take(k) =~= entries);
    }
}

/// A tool result seen as plain values.
pub struct ToolResultView {
    pub content: Seq<PartView>,
    pub exit_code: Option<i32>,
    pub is_error: bool,
    pub output_truncated: bool,
}

pub open spec fn result_view(t: ToolResult) -> ToolResultView {
    ToolResultView {
        content: parts_view(t.content@),
        exit_code: t.exit_code,
        is_error: t.is_error,
        output_truncated: t.output_truncated,
    }
}

/// An ACP tool output read as a tool result. A run that ended badly is an
/// error whatever the output says.
pub open spec fn spec_tool_result(value: serde_json::Value, default_is_error: bool) -> Result<ToolResultView, Seq<char>> {
    let is_error = match first_field(value, "is_error"@, "isError"@) {
        Some(b) => match json_as_bool(b) {
            Some(x) => x,
            None => default_is_error,
        },
        None => default_is_error,
    } || default_is_error;
    let output_truncated = match first_field(value, "output_truncated"@, "outputTruncated"@) {
        Some(b) => match json_as_bool(b) {
            Some(x) => x,
            None => false,
        },
        None => false,
    };
    let code = match first_field(value, "exit_code"@, "exitCode"@) {
        Some(c) => json_as_i64(c),
        None => None,
    };
    match code {
        Some(c) if !(i32::MIN <= c <= i32::MAX) => Err("exit code must fit within i32"@),
        _ => {
            let exit_code: Option<i32> = match code {
                Some(c) => Some(c as i32),
                None => None,
            };
            let content = match json_get(value, "content"@) {
                Some(c) => spec_content_parts(c),
                None => match str_field(value, "text"@) {
                    Some(t) => Ok(seq![PartView::Text(t)]),
                    None => Err("tool output must contain content or text"@),
                },
            };
            match content {
                Ok(parts) => Ok(ToolResultView { content: parts, exit_code, is_error, output_truncated }),
                Err(e) => Err(e),
            }
        },
    }
}

fn bool_field(value: &serde_json::Value, k1: &str, k2: &str) -> (r: Option<bool>)
    ensures
        r == match first_field(*value, k1@, k2@) {
            Some(b) => json_as_bool(b),
            None => None,
        },
{
    let field = match value_get(value, k1) {
        Some(x) => Some(x),
        None => value_get(value, k2),
    };
    match field {
        Some(b) => value_as_bool(b),
        None => None,
    }
}

/// Reads an ACP tool output.
pub fn parse_tool_result(value: &serde_json::Value, default_is_error: bool) -> (r: Result<ToolResult, String>)
    ensures
        match (r, spec_tool_result(*value, default_is_error)) {
            (Ok(t), Ok(v)) => result_view(t) == v,
            (Err(m), Err(e)) => m@ == e,
            _ => false,
        },
{
    let is_error = match bool_field(value, "is_error", "isError") {
        Some(x) => x,
        None => default_is_error,
    } || default_is_error;
    let output_truncated = match bool_field(value, "output_truncated", "outputTruncated") {
        Some(x) => x,
        None => false,
    };
    let code_field = match value_get(value, "exit_code") {
        Some(x) => Some(x),
        None => value_get(value, "exitCode"),
    };
    let code = match code_field {
        Some(c) => value_as_i64(c),
        None => None,
    };
    let exit_code: Option<i32> = match code {
        Some(c) => {
            if c < i32::MIN as i64 || c > i32::MAX as i64 {
                return Err(copy_string("exit code must fit within i32"));
            }
            Some(c as i32)
        },
        None => None,
    };
    let content = match value_get(value, "content") {
        Some(c) => match parse_content_parts(c) {
            Ok(parts) => parts,
            Err(e) => return Err(e),
        },
        None => {
            let text = match value_get(value, "text") {
                Some(t) => value_as_str(t),
                None => None,
            };
            match text {
                Some(t) => {
                    let v = vec![ContentPart::Text { text: copy_string(t) }];
                    assert(parts_view(v@) =~= seq![PartView::Text(t@)]);
                    v
                },
                None => return Err(copy_string("tool output must contain content or text")),
            }
        },
    };
    Ok(ToolResult { content, exit_code, is_error, output_truncated })
}

/// What a run status payload says: a run still going, a finished run with
/// its output, or why the payload is refused.
pub open spec fn spec_run_status(value: serde_json::Value) -> Result<Option<ToolResultView>, Seq<char>> {
    match str_field(value, "status"@) {
        None => Err("run status must be a string"@),
        Some(status) => if status == "queued"@ || status == "running"@ || status == "pending"@
            || status == "in_progress"@ {
            Ok(None)
        } else if status == "completed"@ || status == "succeeded"@ {
            match first_field(value, "output"@, "result"@) {
                None => Err("run with status '"@ + status + "' must contain output"@),
                Some(out) => match spec_tool_result(out, false) {
                    Ok(t) => Ok(Some(t)),
                    Err(e) => Err(e),
                },
            }
        } else if status == "failed"@ || status == "cancelled"@ || status == "canceled"@ {
            match first_field(value, "output"@, "result"@) {
                Some(out) => match spec_tool_result(out, true) {
                    Ok(t) => Ok(Some(t)),
                    Err(e) => Err(e),
                },
                None => Ok(
                    Some(
                        ToolResultView {
                            content: seq![PartView::Text("ACP run ended with status '"@ + status + "'"@)],
                            exit_code: None,
                            is_error: true,
                            output_truncated: false,
                        },
                    ),
                ),
            }
        } else {
            Err("unknown ACP run status '"@ + status + "'"@)
        },
    }
}

/// A status under which a run is still going.
pub open spec fn is_pending_status(s: Seq<char>) -> bool {
    s == "queued"@ || s == "running"@ || s == "pending"@ || s == "in_progress"@
}

/// A status under which a run ended without success.
pub open spec fn is_failed_status(s: Seq<char>) -> bool {
    s == "failed"@ || s == "cancelled"@ || s == "canceled"@
}

/// A run reads as still going exactly when its status says so, and a run that
/// failed or was cancelled never reads as a success.
pub proof fn lemma_run_status_readings(value: serde_json::Value)
    ensures
        (spec_run_status(value) == Ok::<Option<ToolResultView>, Seq<char>>(None)) <==> (str_field(
            value,
            "status"@,
        ) matches Some(s) && is_pending_status(s)),
        (str_field(value, "status"@) matches Some(s) && is_failed_status(s)) ==> (spec_run_status(
            value,
        ) matches Ok(Some(t)) ==> t.is_error),
{
    if let Some(out) = first_field(value, "output"@, "result"@) {
        lemma_tool_result_error_by_default(out);
    }
    if str_field(value, "status"@) matches Some(s) && is_failed_status(s) {
        let s = str_field(value, "status"@)->Some_0;
        reveal_strlit("failed");
        reveal_strlit("cancelled");
        reveal_strlit("canceled");
        reveal_strlit("queued");
        reveal_strlit("running");
        reveal_strlit("pending");
        reveal_strlit("in_progress");
        reveal_strlit("completed");
        reveal_strlit("succeeded");
        assert(s[0] == 'f' || s[0] == 'c');
        assert(!is_pending_status(s));
        assert(s != "completed"@ && s != "succeeded"@) by {
            if s == "completed"@ || s == "succeeded"@ {
                assert(s[1] == 'o' || s[1] == 'u');
            }
        }
    }
}

/// A run that completed or succeeded reads as a success unless its output
/// says otherwise: with no `is_error`/`isError` field the result is not an
/// error, and with a boolean one the result carries that boolean.
pub proof fn lemma_successful_run_reads_as_success(value: serde_json::Value)
    ensures
        (str_field(value, "status"@) == Some("completed"@) || str_field(value, "status"@) == Some(
            "succeeded"@,
        )) ==> (first_field(value, "output"@, "result"@) matches Some(out) ==> (spec_run_status(value) matches Ok(
            Some(t),
        ) ==> t.is_error == match first_field(out, "is_error"@, "isError"@) {
            Some(b) => json_as_bool(b) == Some(true),
            None => false,
        })),
{
    if str_field(value, "status"@) == Some("completed"@) || str_field(value, "status"@) == Some(
        "succeeded"@,
    ) {
        let s = str_field(value, "status"@)->Some_0;
        reveal_strlit("queued");
        reveal_strlit("running");
        reveal_strlit("pending");
        reveal_strlit("in_progress");
        reveal_strlit("completed");
        reveal_strlit("succeeded");
        assert(s.len() == 9);
        assert(!is_pending_status(s)) by {
            if s == "queued"@ || s == "running"@ || s == "pending"@ || s == "in_progress"@ {
                assert(s.len() != 9);
            }
        }
        if let Some(out) = first_field(value, "output"@, "result"@) {
            lemma_tool_result_error_flag(out);
        }
    }
}

/// Read with success as the default, a tool result is an error exactly when
/// its `is_error`/`isError` field is `true`.
proof fn lemma_tool_result_error_flag(value: serde_json::Value)
    ensures
        spec_tool_result(value, false) matches Ok(t) ==> t.is_error == match first_field(
            value,
            "is_error"@,
            "isError"@,
        ) {
            Some(b) => json_as_bool(b) == Some(true),
            None => false,
        },
{
}

/// A tool result read with errors as the default is an error.
proof fn lemma_tool_result_error_by_default(value: serde_json::Value)
    ensures
        spec_tool_result(value, true) matches Ok(t) ==> t.is_error,
{
}

pub open spec fn status_view(s: AcpRunStatus) -> Option<ToolResultView> {
    match s {
        AcpRunStatus::Pending => None,
        AcpRunStatus::Complete(t) => Some(result_view(t)),
    }
}

fn quoted_message(before: &str, status: &str, after: &str) -> (r: String)
    ensures
        r@ == before@ + status@ + after@,
{
    let mut m = chars_of(before);
    extend_chars(&mut m, status);
    extend_chars(&mut m, after);
    string_from_chars(m.as_slice())
}

/// Reads an ACP run status payload.
pub fn parse_run_status(value: &serde_json::Value) -> (r: Result<AcpRunStatus, String>)
    ensures
        match (r, spec_run_status(*value)) {
            (Ok(s), Ok(v)) => status_view(s) == v,
            (Err(m), Err(e)) => m@ == e,
            _ => false,
        },
{
    let status: &str = match value_get(value, "status") {
        Some(s) => match value_as_str(s) {
            Some(x) => x,
            None => return Err(copy_string("run status must be a string")),
        },
        None => return Err(copy_string("run status must be a string")),
    };
    let output = match value_get(value, "output") {
        Some(x) => Some(x),
        None => value_get(value, "result"),
    };
    if str_eq(status, "queued") || str_eq(status, "running") || str_eq(status, "pending") || str_eq(
        status,
        "in_progress",
    ) {
        Ok(AcpRunStatus::Pending)
    } else if str_eq(status, "completed") || str_eq(status, "succeeded") {
        match output {
            None => Err(quoted_message("run with status '", status, "' must contain output")),
            Some(out) => match parse_tool_result(out, false) {
                Ok(t) => Ok(AcpRunStatus::Complete(t)),
                Err(e) => Err(e),
            },
        }
    } else if str_eq(status, "failed") || str_eq(status, "cancelled") || str_eq(status, "canceled") {
        match output {
            Some(out) => match parse_tool_result(out, true) {
                Ok(t) => Ok(AcpRunStatus::Complete(t)),
                Err(e) => Err(e),
            },
            None => {
                let message = quoted_message("ACP run ended with status '", status, "'");
                let t = ToolResult::failure(message.as_str());
                assert(parts_view(t.content@) =~= seq![PartView::Text(message@)]);
                Ok(AcpRunStatus::Complete(t))
            },
        }
    } else {
        Err(quoted_message("unknown ACP run status '", status, "'"))
    }
}

/// The fields of an agent description as the server sent them.
pub struct AgentMetadataWire {
    pub id: String,
    pub name: Option<String>,
    pub description: Option<String>,
    pub input_schema: Option<serde_json::Value>,
}

/// A document whose `type` field is the string `object`.
pub open spec fn is_object_schema(v: serde_json::Value) -> bool {
    match json_get(v, "type"@) {
        Some(t) => json_as_str(t) == Some("object"@),
        None => false,
    }
}

/// The schema of an agent that declares none, `{"type": "object"}`: its only
/// field is `type`, the JSON string `object`.
pub open spec fn is_default_schema(v: serde_json::Value) -> bool {
    &&& is_object_schema(v)
    &&& forall|k: Seq<char>| #[trigger] json_get(v, k) == if k == "type"@ {
        Some(json_string_value("object"@))
    } else {
        None
    }
}

fn default_schema() -> (r: serde_json::Value)
    ensures
        is_default_schema(r),
{
    let mut entries: Vec<(String, serde_json::Value)> = Vec::new();
    entries.push((copy_string("type"), json_string("object")));
    let v = json_object(entries);
    proof {
        assert forall|k: Seq<char>| #[trigger] json_get(v, k) == if k == "type"@ {
            Some(json_string_value("object"@))
        } else {
            None
        } by {
            reveal_with_fuel(entry_value, 2);
        }
        assert(json_get(v, "type"@) == Some(json_string_value("object"@)));
    }
    v
}

fn trimmed_string(s: &str) -> (r: String)
    ensures
        r@ == trim_seq(s@),
{
    let c = chars_of(s);
    let a = crate::text::trim_start_index(c.as_slice());
    let n = c.len();
    let rest = crate::text::slice_chars(c.as_slice(), a, n);
    let b = crate::text::trim_end_index(rest.as_slice());
    let t = crate::text::slice_chars(rest.as_slice(), 0, b);
    assert(rest@ =~= c@.skip(a as int));
    assert(t@ =~= rest@.take(b as int));
    string_from_chars(t.as_slice())
}

/// An agent's description from its wire fields: the id must not be blank; a
/// blank or missing name falls back to the id; the description defaults to
/// empty and the schema to `{"type": "object"}`.
pub fn metadata_from_wire(wire: AgentMetadataWire) -> (r: Result<AcpAgentMetadata, String>)
    ensures
        trim_seq(wire.id@).len() == 0 ==> (r matches Err(m) && m@ == "agent id must not be empty"@),
        trim_seq(wire.id@).len() > 0 ==> (r matches Ok(md) && md.id@ == wire.id@ && md.name@ == match wire.name {
            Some(n) => if trim_seq(n@).len() > 0 {
                trim_seq(n@)
            } else {
                wire.id@
            },
            None => wire.id@,
        } && md.description@ == match wire.description {
            Some(d) => d@,
            None => Seq::empty(),
        } && match wire.input_schema {
            Some(s) => md.input_schema == s,
            None => is_default_schema(md.input_schema),
        }),
{
    let id_trimmed = trimmed_string(wire.id.as_str());
    if id_trimmed.unicode_len() == 0 {
        return Err(copy_string("agent id must not be empty"));
    }
    let name = match &wire.name {
        Some(n) => {
            let t = trimmed_string(n.as_str());
            if t.unicode_len() > 0 {
                t
            } else {
                wire.id.clone()
            }
        },
        None => wire.id.clone(),
    };
    let description = match wire.description {
        Some(d) => d,
        None => String::new(),
    };
    let input_schema = match wire.input_schema {
        Some(s) => s,
        None => default_schema(),
    };
    Ok(AcpAgentMetadata { id: wire.id, name, description, input_schema })
}

/// `endpoint` without its trailing slashes.
pub open spec fn spec_normalize_endpoint(s: Seq<char>) -> Seq<char>
    decreases s.len(),
{
    if s.len() > 0 && s.last() == '/' {
        spec_normalize_endpoint(s.drop_last())
    } else {
        s
    }
}

/// Normalizing an endpoint twice changes nothing more.
pub proof fn lemma_normalize_endpoint_idempotent(s: Seq<char>)
    ensures
        spec_normalize_endpoint(spec_normalize_endpoint(s)) == spec_normalize_endpoint(s),
    decreases s.len(),
{
    if s.len() > 0 && s.last() == '/' {
        lemma_normalize_endpoint_idempotent(s.drop_last());
    }
}

/// An endpoint without trailing slashes, so that equal endpoints compare equal.
pub fn normalize_endpoint(endpoint: &str) -> (r: String)
    ensures
        r@ == spec_normalize_endpoint(endpoint@),
{
    let c = chars_of(endpoint);
    let mut k: usize = c.len();
    assert(c@.take(k as int) =~= c@);
    while k > 0 && c[k - 1] == '/'
        invariant
            k <= c@.len(),
            spec_normalize_endpoint(c@.take(k as int)) == spec_normalize_endpoint(endpoint@),
        decreases k,
    {
        assert(c@.take(k as int).drop_last() =~= c@.take(k as int - 1));
        k -= 1;
    }
    let t = crate::text::slice_chars(c.as_slice(), 0, k);
    assert(t@ =~= c@.take(k as int));
    string_from_chars(t.as_slice())
}

/// What `reqwest::Url::parse(base)` followed by `Url::join(path)` gives: the
/// joined URL as text, or the message of the parse error.
pub uninterp spec fn url_join(base: Seq<char>, path: Seq<char>) -> Result<Seq<char>, Seq<char>>;

/// `reqwest::Url::parse(base)` and then `join(path)` on the parsed base; the
/// joined URL as text, or the error's message. The outcome is named: it depends
/// on the two texts alone.
#[verifier::external_body]
fn resolve_url(base: &str, path: &str) -> (r: Result<String, String>)
    ensures
        match r {
            Ok(u) => url_join(base@, path@) == Ok::<Seq<char>, Seq<char>>(u@),
            Err(m) => url_join(base@, path@) == Err::<Seq<char>, Seq<char>>(m@),
        },
{
    let parsed = match reqwest::Url::parse(base) {
        Ok(b) => b,
        Err(e) => return Err(e.to_string()),
    };
    match parsed.join(path) {
        Ok(u) => Ok(u.to_string()),
        Err(e) => Err(e.to_string()),
    }
}

/// The base that paths of an endpoint are resolved against: the endpoint
/// without its trailing slashes, and one slash.
pub open spec fn spec_endpoint_base(endpoint: Seq<char>) -> Seq<char> {
    spec_normalize_endpoint(endpoint) + seq!['/']
}

/// What a URL join means for an endpoint: the URL, or the endpoint refused
/// with the parser's message.
pub fn endpoint_url(endpoint: &str, joined: Result<String, String>) -> (r: Result<String, AcpClientError>)
    ensures
        match (r, joined) {
            (Ok(u), Ok(j)) => u@ == j@,
            (Err(AcpClientError::InvalidEndpoint { endpoint: ep, source }), Err(m)) => ep@ == endpoint@
                && source@ == m@,
            _ => false,
        },
{
    match joined {
        Ok(u) => Ok(u),
        Err(m) => Err(AcpClientError::InvalidEndpoint { endpoint: copy_string(endpoint), source: m }),
    }
}

/// The URL of `path` at an ACP endpoint: `path` resolved against the endpoint
/// without its trailing slashes and with one slash; an endpoint that does not
/// make a valid base is refused.
pub fn join_url(endpoint: &str, path: &str) -> (r: Result<String, AcpClientError>)
    ensures
        match (r, url_join(spec_endpoint_base(endpoint@), path@)) {
            (Ok(u), Ok(j)) => u@ == j,
            (Err(AcpClientError::InvalidEndpoint { endpoint: ep, source }), Err(m)) => ep@ == endpoint@
                && source@ == m,
            _ => false,
        },
{
    let normalized = normalize_endpoint(endpoint);
    let mut base = chars_of(normalized.as_str());
    base.push('/');
    let base = string_from_chars(base.as_slice());
    assert(base@ =~= spec_endpoint_base(endpoint@));
    let joined = resolve_url(base.as_str(), path);
    endpoint_url(endpoint, joined)
}

/// An agent found at a discovery endpoint.
pub struct DiscoveredAcpAgent {
    pub endpoint: String,
    pub metadata: AcpAgentMetadata,
}

/// Keeps an agent listed by a discovery endpoint unless the same agent (same
/// normalized endpoint and id) was seen before; `seen` records it.
pub fn admit_discovered(
    seen: &mut CallSet,
    endpoint: &str,
    metadata: AcpAgentMetadata,
) -> (r: Option<DiscoveredAcpAgent>)
    ensures
        ({
            let key = (spec_normalize_endpoint(endpoint@), metadata.id@);
            &&& final(seen).has(key)
            &&& forall|k: CallKey| k != key ==> final(seen).has(k) == old(seen).has(k)
            &&& old(seen).has(key) ==> r is None
            &&& !old(seen).has(key) ==> (r matches Some(d) && d.endpoint@ == key.0 && d.metadata
                == metadata)
        }),
{
    let normalized = normalize_endpoint(endpoint);
    if seen.insert_new(normalized.as_str(), metadata.id.as_str()) {
        Some(DiscoveredAcpAgent { endpoint: normalized, metadata })
    } else {
        None
    }
}

/// The result of a run that was still pending after the last poll.
pub open spec fn spec_poll_timeout(run_id: Seq<char>, max_polls: nat) -> Seq<char> {
    "ACP run "@ + run_id + " timed out after "@ + spec_decimal(max_polls) + " polls"@
}

pub fn poll_timeout_result(run_id: &str, max_polls: u64) -> (r: ToolResult)
    ensures
        r.is_error,
        r.exit_code is None,
        !r.output_truncated,
        parts_view(r.content@) == seq![PartView::Text(spec_poll_timeout(run_id@, max_polls as nat))],
{
    let mut m = chars_of("ACP run ");
    extend_chars(&mut m, run_id);
    extend_chars(&mut m, " timed out after ");
    let d = decimal(max_polls);
    extend_from_chars(&mut m, d.as_slice());
    extend_chars(&mut m, " polls");
    let text = string_from_chars(m.as_slice());
    let r = ToolResult::failure(text.as_str());
    assert(parts_view(r.content@) =~= seq![PartView::Text(text@)]);
    r
}

/// What a failed ACP step is reported as: `prefix` then the error.
pub fn failure_with(prefix: &str, error: &str) -> (r: ToolResult)
    ensures
        r.is_error,
        r.exit_code is None,
        !r.output_truncated,
        parts_view(r.content@) == seq![PartView::Text(prefix@ + error@)],
{
    let mut m = chars_of(prefix);
    extend_chars(&mut m, error);
    let text = string_from_chars(m.as_slice());
    let r = ToolResult::failure(text.as_str());
    assert(parts_view(r.content@) =~= seq![PartView::Text(text@)]);
    r
}

/// Why registering ACP tools failed, when discovery reported errors.
pub fn discovery_failure(errors: &[String]) -> (r: Option<String>)
    ensures
        errors@.len() == 0 ==> r is None,
        errors@.len() > 0 ==> (r matches Some(m) && m@ == "ACP discovery failed: "@ + spec_join_with(
            views_of(errors@),
            "; "@,
        )),
{
    if errors.len() == 0 {
        return None;
    }
    let joined = join_with(errors, "; ");
    let mut m = chars_of("ACP discovery failed: ");
    extend_chars(&mut m, joined.as_str());
    Some(string_from_chars(m.as_slice()))
}

/// The tool names already registered, to keep them unique.
pub struct ToolNames {
    pub names: CallSet,
}

impl ToolNames {
    pub open spec fn has(&self, name: Seq<char>) -> bool {
        self.names.has((name, Seq::empty()))
    }

    pub fn new() -> (r: Self)
        ensures
            forall|n: Seq<char>| !r.has(n),
    {
        ToolNames { names: CallSet::new() }
    }

    /// Registers a configured agent's tool name; a name taken already is an error.
    pub fn claim_configured(&mut self, name: &str) -> (r: Result<(), String>)
        ensures
            final(self).has(name@),
            forall|n: Seq<char>| n != name@ ==> final(self).has(n) == old(self).has(n),
            old(self).has(name@) ==> (r matches Err(m) && m@ == "duplicate ACP tool name: "@ + name@),
            !old(self).has(name@) ==> r is Ok,
    {
        proof {
            assert(""@ =~= Seq::<char>::empty()) by {
                reveal_strlit("");
            }
        }
        if self.names.insert_new(name, "") {
            Ok(())
        } else {
            let mut m = chars_of("duplicate ACP tool name: ");
            extend_chars(&mut m, name);
            Err(string_from_chars(m.as_slice()))
        }
    }

    /// Registers a discovered agent's tool name; returns whether it was free
    /// (a discovered agent whose name is taken is skipped).
    pub fn claim_discovered(&mut self, name: &str) -> (r: bool)
        ensures
            final(self).has(name@),
            forall|n: Seq<char>| n != name@ ==> final(self).has(n) == old(self).has(n),
            r == !old(self).has(name@),
    {
        proof {
            assert(""@ =~= Seq::<char>::empty()) by {
                reveal_strlit("");
            }
        }
        self.names.insert_new(name, "")
    }
}

/// Why talking to an ACP server failed; errors of the HTTP stack are held
/// as their messages.
pub enum AcpClientError {
    InvalidEndpoint { endpoint: String, source: String },
    HttpClient { source: String },
    Request { endpoint: String, action: String, source: String },
    HttpStatus { endpoint: String, action: String, status: String },
    Decode { endpoint: String, action: String, source: String },
    Protocol { endpoint: String, action: String, message: String },
}

/// How an ACP client error reads.
pub open spec fn spec_client_error_text(e: AcpClientError) -> Seq<char> {
    match e {
        AcpClientError::InvalidEndpoint { endpoint, source } => "invalid ACP endpoint "@ + endpoint@
            + ": "@ + source@,
        AcpClientError::HttpClient { source } => "cannot build ACP HTTP client: "@ + source@,
        AcpClientError::Request { endpoint, action, source } => action@ + " against "@ + endpoint@
            + " failed: "@ + source@,
        AcpClientError::HttpStatus { endpoint, action, status } => action@ + " against "@
            + endpoint@ + " returned HTTP "@ + status@,
        AcpClientError::Decode { endpoint, action, source } => action@ + " against "@ + endpoint@
            + " returned invalid JSON: "@ + source@,
        AcpClientError::Protocol { endpoint, action, message } => action@ + " against "@
            + endpoint@ + " returned invalid ACP payload: "@ + message@,
    }
}

fn concat3(a: &str, b: &str, c: &str) -> (r: Vec<char>)
    ensures
        r@ == a@ + b@ + c@,
{
    let mut m = chars_of(a);
    extend_chars(&mut m, b);
    extend_chars(&mut m, c);
    m
}

impl AcpClientError {
    /// The error's message.
    pub fn to_display_string(&self) -> (r: String)
        ensures
            r@ == spec_client_error_text(*self),
    {
        let m = match self {
            AcpClientError::InvalidEndpoint { endpoint, source } => {
                let mut m = concat3("invalid ACP endpoint ", endpoint.as_str(), ": ");
                extend_chars(&mut m, source.as_str());
                m
            },
            AcpClientError::HttpClient { source } => concat3(
                "cannot build ACP HTTP client: ",
                source.as_str(),
                "",
            ),
            AcpClientError::Request { endpoint, action, source } => {
                let mut m = concat3(action.as_str(), " against ", endpoint.as_str());
                extend_chars(&mut m, " failed: ");
                extend_chars(&mut m, source.as_str());
                m
            },
            AcpClientError::HttpStatus { endpoint, action, status } => {
                let mut m = concat3(action.as_str(), " against ", endpoint.as_str());
                extend_chars(&mut m, " returned HTTP ");
                extend_chars(&mut m, status.as_str());
                m
            },
            AcpClientError::Decode { endpoint, action, source } => {
                let mut m = concat3(action.as_str(), " against ", endpoint.as_str());
                extend_chars(&mut m, " returned invalid JSON: ");
                extend_chars(&mut m, source.as_str());
                m
            },
            AcpClientError::Protocol { endpoint, action, message } => {
                let mut m = concat3(action.as_str(), " against ", endpoint.as_str());
                extend_chars(&mut m, " returned invalid ACP payload: ");
                extend_chars(&mut m, message.as_str());
                m
            },
        };
        proof {
            reveal_strlit("");
        }
        string_from_chars(m.as_slice())
    }
}

/// The agents a listing holds: its `agents` field, or the payload itself,
/// when that is an array.
pub open spec fn spec_agent_entries(payload: serde_json::Value) -> Option<Seq<serde_json::Value>> {
    match json_get(payload, "agents"@) {
        Some(a) => json_as_array(a),
        None => json_as_array(payload),
    }
}

pub fn agent_entries(payload: &serde_json::Value) -> (r: Result<&Vec<serde_json::Value>, String>)
    ensures
        match (r, spec_agent_entries(*payload)) {
            (Ok(a), Some(e)) => a@ == e,
            (Err(m), None) => m@ == "response must contain an array of agents"@,
            _ => false,
        },
{
    let listed = match value_get(payload, "agents") {
        Some(a) => a,
        None => payload,
    };
    match value_as_array(listed) {
        Some(a) => Ok(a),
        None => Err(copy_string("response must contain an array of agents")),
    }
}

/// The id of a created run: its `id` field, or `run_id` when there is no
/// `id`, when that is a string.
pub open spec fn spec_run_id(payload: serde_json::Value) -> Option<Seq<char>> {
    match first_field(payload, "id"@, "run_id"@) {
        Some(v) => json_as_str(v),
        None => None,
    }
}

pub fn run_id_of(payload: &serde_json::Value) -> (r: Result<String, String>)
    ensures
        match (r, spec_run_id(*payload)) {
            (Ok(id), Some(e)) => id@ == e,
            (Err(m), None) => m@ == "response must contain run id"@,
            _ => false,
        },
{
    let field = match value_get(payload, "id") {
        Some(v) => Some(v),
        None => value_get(payload, "run_id"),
    };
    let id = match field {
        Some(v) => value_as_str(v),
        None => None,
    };
    match id {
        Some(s) => Ok(copy_string(s)),
        None => Err(copy_string("response must contain run id")),
    }
}

} // verus!
