use vstd::prelude::*;

use crate::acp::{failure_with, parts_view, PartView};
use crate::capability::{CapabilityClaim};
use crate::driver::MessageView;
use crate::json::{
    entry_value, json_as_str, json_as_u64, json_get, json_object, json_string, json_string_value,
    json_u64, json_u64_value, value_as_str, value_get,
};
use crate::text::{chars_of, copy_string, decimal, extend_chars, extend_from_chars, spec_decimal, string_from_chars};
use crate::tools::{
    normalize_workspace_resource_claim, spec_capability_claim, spec_normalized_claim,
    spec_resource_claim, ResourceAccess, ResourceClaim, ToolKind, ToolResult,
};
use crate::turn::TurnOutcome;
use vstd::string::StringSliceAdditionalSpecFns;

verus! {

/// Local tools, and agents that are not ACP agents, run through the local
/// capability wrapper.
pub fn should_use_local_capability_wrapper(kind: ToolKind) -> (r: bool)
    ensures
        r == (kind == ToolKind::Local || kind == (ToolKind::Agent { is_acp: false })),
{
    match kind {
        ToolKind::Local => true,
        ToolKind::Agent { is_acp } => !is_acp,
    }
}

/// Resource claims seen on the capability side.
pub fn claims_to_capability(claims: Vec<ResourceClaim>) -> (r: Vec<CapabilityClaim>)
    ensures
        r@ == claims@.map_values(|c: ResourceClaim| spec_capability_claim(c)),
{
    let ghost all = claims@;
    let mut out: Vec<CapabilityClaim> = Vec::new();
    let mut rest = claims;
    while rest.len() > 0
        invariant
            out@.len() + rest@.len() == all.len(),
            rest@ == all.skip(out@.len() as int),
            out@ == all.take(out@.len() as int).map_values(|c: ResourceClaim| spec_capability_claim(c)),
        decreases rest@.len(),
    {
        let ghost k = out@.len() as int;
        let c = rest.remove(0);
        assert(c == all[k]);
        assert(rest@ =~= all.skip(k + 1));
        out.push(c.into_capability_claim());
        assert(all.take(k + 1).map_values(|c: ResourceClaim| spec_capability_claim(c)) =~= all.take(k).map_values(|c: ResourceClaim| spec_capability_claim(c)).push(spec_capability_claim(all[k])));
    }
    assert(all.take(all.len() as int) =~= all);
    out
}

/// Capability claims seen on the tool side.
pub fn claims_from_capability(claims: Vec<CapabilityClaim>) -> (r: Vec<ResourceClaim>)
    ensures
        r@ == claims@.map_values(|c: CapabilityClaim| spec_resource_claim(c)),
{
    let ghost all = claims@;
    let mut out: Vec<ResourceClaim> = Vec::new();
    let mut rest = claims;
    while rest.len() > 0
        invariant
            out@.len() + rest@.len() == all.len(),
            rest@ == all.skip(out@.len() as int),
            out@ == all.take(out@.len() as int).map_values(|c: CapabilityClaim| spec_resource_claim(c)),
        decreases rest@.len(),
    {
        let ghost k = out@.len() as int;
        let c = rest.remove(0);
        assert(c == all[k]);
        assert(rest@ =~= all.skip(k + 1));
        out.push(ResourceClaim::from_capability_claim(c));
        assert(all.take(k + 1).map_values(|c: CapabilityClaim| spec_resource_claim(c)) =~= all.take(k).map_values(|c: CapabilityClaim| spec_resource_claim(c)).push(spec_resource_claim(all[k])));
    }
    assert(all.take(all.len() as int) =~= all);
    out
}

/// The string field `key` of tool arguments.
pub fn string_arg<'a>(args: &'a serde_json::Value, key: &str) -> (r: Option<&'a str>)
    ensures
        match r {
            Some(s) => (match json_get(*args, key@) {
                Some(v) => json_as_str(v) == Some(s@),
                None => false,
            }),
            None => match json_get(*args, key@) {
                Some(v) => json_as_str(v) is None,
                None => true,
            },
        },
{
    match value_get(args, key) {
        Some(v) => value_as_str(v),
        None => None,
    }
}

/// The string field `key` of tool arguments, as a spec.
pub open spec fn spec_string_arg(args: serde_json::Value, key: Seq<char>) -> Option<Seq<char>> {
    match json_get(args, key) {
        Some(v) => json_as_str(v),
        None => None,
    }
}

/// Reads a UTF-8 file of the workspace.
pub struct ReadFileTool {
    pub workspace_root: std::path::PathBuf,
}

impl ReadFileTool {
    pub fn new(workspace_root: std::path::PathBuf) -> (r: Self)
        ensures
            r.workspace_root == workspace_root,
    {
        ReadFileTool { workspace_root }
    }

    /// Reading a file claims it read-only, under its normalized name; a call
    /// without a usable path claims nothing.
    pub fn resource_claims(&self, args: &serde_json::Value) -> (r: Vec<ResourceClaim>)
        ensures
            match spec_string_arg(*args, "path"@) {
                Some(p) => match spec_normalized_claim(p) {
                    Ok(res) => r@.len() == 1 && r@[0].resource@ == res && r@[0].access
                        == ResourceAccess::ReadOnly,
                    Err(_) => r@.len() == 0,
                },
                None => r@.len() == 0,
            },
    {
        match string_arg(args, "path") {
            Some(path) => match normalize_workspace_resource_claim(&self.workspace_root, path) {
                Ok(resource) => vec![ResourceClaim { resource, access: ResourceAccess::ReadOnly }],
                Err(_) => Vec::new(),
            },
            None => Vec::new(),
        }
    }
}

/// Writes a UTF-8 file of the workspace.
pub struct WriteFileTool {
    pub workspace_root: std::path::PathBuf,
}

impl WriteFileTool {
    pub fn new(workspace_root: std::path::PathBuf) -> (r: Self)
        ensures
            r.workspace_root == workspace_root,
    {
        WriteFileTool { workspace_root }
    }
}

/// The path and content a `write_file` call asks for, or why it is refused.
pub fn write_file_args(args: &serde_json::Value) -> (r: Result<(&str, &str), String>)
    ensures
        match (spec_string_arg(*args, "path"@), spec_string_arg(*args, "content"@)) {
            (None, _) => r matches Err(m) && m@ == "write_file requires a string path"@,
            (Some(_), None) => r matches Err(m) && m@ == "write_file requires string content"@,
            (Some(p), Some(c)) => r matches Ok((x, y)) && x@ == p && y@ == c,
        },
{
    let path = match string_arg(args, "path") {
        Some(p) => p,
        None => return Err(copy_string("write_file requires a string path")),
    };
    let content = match string_arg(args, "content") {
        Some(c) => c,
        None => return Err(copy_string("write_file requires string content")),
    };
    Ok((path, content))
}

/// The report of a successful write: how many bytes went to which path.
pub open spec fn spec_wrote(byte_len: nat, path: Seq<char>) -> Seq<char> {
    "wrote "@ + spec_decimal(byte_len) + " bytes to "@ + path
}

pub fn wrote_message(content: &str, path: &str) -> (r: String)
    ensures
        r@ == spec_wrote(content.spec_bytes().len(), path@),
{
    let len = content.as_bytes().len();
    let n = len as u64;
    assert(n as nat == content.spec_bytes().len());
    let mut m = chars_of("wrote ");
    let d = decimal(n);
    extend_from_chars(&mut m, d.as_slice());
    extend_chars(&mut m, " bytes to ");
    extend_chars(&mut m, path);
    string_from_chars(m.as_slice())
}

/// Lists a workspace directory two levels deep.
pub struct ListDirTool {
    pub workspace_root: std::path::PathBuf,
}

impl ListDirTool {
    pub fn new(workspace_root: std::path::PathBuf) -> (r: Self)
        ensures
            r.workspace_root == workspace_root,
    {
        ListDirTool { workspace_root }
    }
}

/// How deep a listing goes below the listed directory.
pub const MAX_DEPTH: usize = 2;

/// How many entries a listing holds at most.
pub const MAX_ENTRIES: usize = 200;

/// The line of a listing entry: directories end with `/`.
pub open spec fn spec_entry_line(prefix: Seq<char>, name: Seq<char>, is_dir: bool) -> Seq<char> {
    if is_dir {
        prefix + name + "/"@
    } else {
        prefix + name
    }
}

pub fn entry_line(prefix: &str, name: &str, is_dir: bool) -> (r: String)
    ensures
        r@ == spec_entry_line(prefix@, name@, is_dir),
{
    let mut m = chars_of(prefix);
    extend_chars(&mut m, name);
    if is_dir {
        extend_chars(&mut m, "/");
    }
    string_from_chars(m.as_slice())
}

/// The text of a listing: its lines, and a note when it was cut short.
pub open spec fn spec_listing(lines: Seq<Seq<char>>, truncated: bool) -> Seq<char> {
    let text = crate::text::spec_join_with(lines, "\n"@);
    if truncated {
        text + "\n[list truncated]"@
    } else {
        text
    }
}

pub fn listing_result(lines: &[String], truncated: bool) -> (r: ToolResult)
    ensures
        !r.is_error,
        r.exit_code is None,
        !r.output_truncated,
        parts_view(r.content@) == seq![PartView::Text(spec_listing(crate::text::views_of(lines@), truncated))],
{
    let joined = crate::text::join_with(lines, "\n");
    let text = if truncated {
        let mut m = chars_of(joined.as_str());
        extend_chars(&mut m, "\n[list truncated]");
        string_from_chars(m.as_slice())
    } else {
        joined
    };
    let r = ToolResult::success(text.as_str());
    assert(parts_view(r.content@) =~= seq![PartView::Text(text@)]);
    r
}

/// How a tool fits the capability architecture.
#[derive(Debug, Clone, Copy, PartialEq, Eq)]
pub enum ToolCompatibilityTier {
    /// Written for the capability architecture.
    KernelNative,
    /// Kept behind the older tool facade.
    CompatibilityBridge,
}

/// The tier of a known built-in tool: `bash` is the one bridged tool.
pub fn compatibility_tier_for_name(name: &str) -> (r: Option<ToolCompatibilityTier>)
    ensures
        name@ == "bash"@ ==> r == Some(ToolCompatibilityTier::CompatibilityBridge),
        name@ != "bash"@ ==> r is None,
{
    if crate::text::str_eq(name, "bash") {
        Some(ToolCompatibilityTier::CompatibilityBridge)
    } else {
        None
    }
}

/// The shell command a vet mode runs.
pub open spec fn spec_vet_command(mode: Seq<char>) -> Result<Seq<char>, Seq<char>> {
    if mode == "quick"@ {
        Ok("just fmt-check && just lint"@)
    } else if mode == "full"@ {
        Ok("just fmt-check && just lint && just test"@)
    } else if mode == "cargo-vet"@ {
        Ok("cargo vet"@)
    } else {
        Err("vet mode must be one of: quick, full, cargo-vet (got: "@ + mode + ")"@)
    }
}

pub fn command_for_mode(mode: &str) -> (r: Result<&'static str, String>)
    ensures
        match (r, spec_vet_command(mode@)) {
            (Ok(c), Ok(e)) => c@ == e,
            (Err(m), Err(e)) => m@ == e,
            _ => false,
        },
{
    if crate::text::str_eq(mode, "quick") {
        Ok("just fmt-check && just lint")
    } else if crate::text::str_eq(mode, "full") {
        Ok("just fmt-check && just lint && just test")
    } else if crate::text::str_eq(mode, "cargo-vet") {
        Ok("cargo vet")
    } else {
        let mut m = chars_of("vet mode must be one of: quick, full, cargo-vet (got: ");
        extend_chars(&mut m, mode);
        extend_chars(&mut m, ")");
        Err(string_from_chars(m.as_slice()))
    }
}

/// The command a `vet` call runs: its `mode`, `quick` when it names none.
pub fn vet_command(args: &serde_json::Value) -> (r: Result<&'static str, String>)
    ensures
        ({
            let mode = match spec_string_arg(*args, "mode"@) {
                Some(m) => m,
                None => "quick"@,
            };
            match (r, spec_vet_command(mode)) {
                (Ok(c), Ok(e)) => c@ == e,
                (Err(m), Err(e)) => m@ == e,
                _ => false,
            }
        }),
{
    let mode = match string_arg(args, "mode") {
        Some(m) => m,
        None => "quick",
    };
    command_for_mode(mode)
}

/// The timeout a `vet` call passes on to the shell, when it gives one.
pub fn vet_timeout(args: &serde_json::Value) -> (r: Option<u64>)
    ensures
        r == match json_get(*args, "timeout_secs"@) {
            Some(v) => crate::json::json_as_u64(v),
            None => None,
        },
{
    match value_get(args, "timeout_secs") {
        Some(v) => crate::json::value_as_u64(v),
        None => None,
    }
}

/// The unsigned integer field `key` of tool arguments, as a spec.
pub open spec fn spec_u64_arg(args: serde_json::Value, key: Seq<char>) -> Option<u64> {
    match json_get(args, key) {
        Some(v) => json_as_u64(v),
        None => None,
    }
}

/// A field of the shell arguments of a `vet` call: `command` holds the
/// command as a JSON string, `timeout_secs` the timeout as a JSON number when
/// one is given, and there is no other field.
pub open spec fn spec_vet_shell_field(command: Seq<char>, timeout: Option<u64>, key: Seq<char>) -> Option<serde_json::Value> {
    if key == "command"@ {
        Some(json_string_value(command))
    } else if key == "timeout_secs"@ {
        match timeout {
            Some(n) => Some(json_u64_value(n)),
            None => None,
        }
    } else {
        None
    }
}

/// The vet command of `vet` arguments: that of their `mode`, `quick` when
/// they name none.
pub open spec fn spec_vet_call_command(args: serde_json::Value) -> Result<Seq<char>, Seq<char>> {
    spec_vet_command(
        match spec_string_arg(args, "mode"@) {
            Some(m) => m,
            None => "quick"@,
        },
    )
}

/// The arguments a `vet` call hands the shell: the command of its mode and,
/// when it gives one, its `timeout_secs`; or the message refusing the mode.
pub fn vet_shell_args(args: &serde_json::Value) -> (r: Result<serde_json::Value, String>)
    ensures
        match (r, spec_vet_call_command(*args)) {
            (Ok(v), Ok(c)) => {
                &&& forall|k: Seq<char>| #[trigger] json_get(v, k) == spec_vet_shell_field(
                    c,
                    spec_u64_arg(*args, "timeout_secs"@),
                    k,
                )
                &&& spec_string_arg(v, "command"@) == Some(c)
                &&& match spec_u64_arg(*args, "timeout_secs"@) {
                    Some(n) => spec_u64_arg(v, "timeout_secs"@) == Some(n),
                    None => json_get(v, "timeout_secs"@) is None,
                }
            },
            (Err(m), Err(e)) => m@ == e,
            _ => false,
        },
{
    let command = match vet_command(args) {
        Ok(c) => c,
        Err(e) => return Err(e),
    };
    let timeout = vet_timeout(args);
    let mut entries: Vec<(String, serde_json::Value)> = Vec::new();
    entries.push((copy_string("command"), json_string(command)));
    if let Some(n) = timeout {
        entries.push((copy_string("timeout_secs"), json_u64(n)));
    }
    proof {
        reveal_strlit("command");
        reveal_strlit("timeout_secs");
        reveal_with_fuel(entry_value, 3);
        assert("command"@.len() != "timeout_secs"@.len());
    }
    let v = json_object(entries);
    proof {
        reveal_strlit("command");
        reveal_strlit("timeout_secs");
        assert("command"@.len() != "timeout_secs"@.len());
        assert forall|k: Seq<char>| #[trigger] json_get(v, k) == spec_vet_shell_field(
            command@,
            timeout,
            k,
        ) by {
            reveal_with_fuel(entry_value, 3);
        }
        assert(json_get(v, "command"@) == Some(json_string_value(command@)));
        assert(json_get(v, "timeout_secs"@) == spec_vet_shell_field(command@, timeout, "timeout_secs"@));
    }
    Ok(v)
}

/// Runs the shell for the `vet` tool; the system's implementation runs the
/// `bash` tool.
pub trait ShellExecutor {
    fn execute_shell(&self, args: serde_json::Value) -> ToolResult;
}

/// Runs the repository's checks through a shell executor.
pub struct VetTool<E> {
    pub executor: E,
}

impl<E: ShellExecutor> VetTool<E> {
    pub fn with_executor(executor: E) -> (r: Self)
        ensures
            r.executor == executor,
    {
        VetTool { executor }
    }

    /// Runs the checks of the call's mode: a mode that is not known fails
    /// without running anything; else the executor gets the arguments of
    /// [`vet_shell_args`] and its answer is handed back as it is.
    pub fn execute(&self, args: serde_json::Value) -> (r: ToolResult)
        ensures
            spec_vet_call_command(args) matches Err(e) ==> refusal_of(r, e),
    {
        match vet_shell_args(&args) {
            Err(e) => {
                let r = ToolResult::failure(e.as_str());
                assert(parts_view(r.content@) =~= seq![PartView::Text(e@)]);
                r
            },
            Ok(shell_args) => self.executor.execute_shell(shell_args),
        }
    }
}

/// A failure whose only part is the text `text`.
pub open spec fn refusal_of(r: ToolResult, text: Seq<char>) -> bool {
    &&& r.is_error
    &&& r.exit_code is None
    &&& !r.output_truncated
    &&& parts_view(r.content@) == seq![PartView::Text(text)]
}

/// Running vet takes the shell for itself.
pub fn vet_resource_claims() -> (r: Vec<ResourceClaim>)
    ensures
        r@.len() == 1,
        r@[0].resource@ == "process:bash"@,
        r@[0].access == ResourceAccess::Exclusive,
{
    vec![ResourceClaim { resource: copy_string("process:bash"), access: ResourceAccess::Exclusive }]
}

/// The text of the last assistant message of a conversation, or nothing.
pub open spec fn spec_last_assistant(msgs: Seq<MessageView>) -> Seq<char>
    decreases msgs.len(),
{
    if msgs.len() == 0 {
        Seq::empty()
    } else {
        match msgs.last() {
            MessageView::Assistant(t) => t,
            _ => spec_last_assistant(msgs.drop_last()),
        }
    }
}

/// What a sub-agent turn gives back as a tool result: its final answer, or
/// why it did not finish.
pub open spec fn spec_sub_agent_result(outcome: TurnOutcome, msgs: Seq<MessageView>) -> (bool, Seq<char>) {
    match outcome {
        TurnOutcome::Complete => (false, spec_last_assistant(msgs)),
        TurnOutcome::Cancelled => (true, "sub-agent turn was cancelled"@),
        TurnOutcome::TransientError(e) => (true, "sub-agent error: "@ + e@),
        TurnOutcome::FatalError { error, .. } => (true, "sub-agent error: "@ + error@),
    }
}

/// A completed sub-agent turn answers with its latest assistant message: the
/// text is that of an assistant message after which no assistant message
/// comes, or empty when the conversation has none.
pub proof fn lemma_sub_agent_answers_with_latest_assistant(msgs: Seq<MessageView>)
    ensures
        (exists|i: int| 0 <= i < msgs.len() && #[trigger] msgs[i] is Assistant) ==> exists|i: int|
            0 <= i < msgs.len() && #[trigger] msgs[i] == MessageView::Assistant(
                spec_sub_agent_result(TurnOutcome::Complete, msgs).1,
            ) && forall|j: int| i < j < msgs.len() ==> !(#[trigger] msgs[j] is Assistant),
        (forall|i: int| 0 <= i < msgs.len() ==> !(#[trigger] msgs[i] is Assistant))
            ==> spec_sub_agent_result(TurnOutcome::Complete, msgs).1 == Seq::<char>::empty(),
        !spec_sub_agent_result(TurnOutcome::Complete, msgs).0,
    decreases msgs.len(),
{
    if msgs.len() > 0 {
        let rest = msgs.drop_last();
        lemma_sub_agent_answers_with_latest_assistant(rest);
        let n = msgs.len() - 1;
        if msgs.last() is Assistant {
            assert(msgs[n] == MessageView::Assistant(spec_last_assistant(msgs)));
        } else {
            assert(spec_last_assistant(msgs) == spec_last_assistant(rest));
            if exists|i: int| 0 <= i < msgs.len() && #[trigger] msgs[i] is Assistant {
                let k = choose|i: int| 0 <= i < msgs.len() && #[trigger] msgs[i] is Assistant;
                assert(k < n);
                assert(rest[k] == msgs[k]);
                let w = choose|i: int|
                    0 <= i < rest.len() && #[trigger] rest[i] == MessageView::Assistant(
                        spec_sub_agent_result(TurnOutcome::Complete, rest).1,
                    ) && forall|j: int| i < j < rest.len() ==> !(#[trigger] rest[j] is Assistant);
                assert(msgs[w] == rest[w]);
                assert forall|j: int| w < j < msgs.len() implies !(#[trigger] msgs[j] is Assistant) by {
                    if j < n {
                        assert(msgs[j] == rest[j]);
                    }
                }
            } else {
                assert forall|i: int| 0 <= i < rest.len() implies !(#[trigger] rest[i] is Assistant) by {
                    assert(rest[i] == msgs[i]);
                }
            }
        }
    }
}

/// The text of the last assistant message, or nothing.
pub fn last_assistant_text(messages: &Vec<crate::driver::ProviderMessage>) -> (r: String)
    ensures
        r@ == spec_last_assistant(crate::driver::messages_view(messages@)),
{
    let ghost msgs = crate::driver::messages_view(messages@);
    let mut i = messages.len();
    assert(msgs.take(i as int) =~= msgs);
    while i > 0
        invariant
            i <= messages@.len(),
            msgs == crate::driver::messages_view(messages@),
            spec_last_assistant(msgs) == spec_last_assistant(msgs.take(i as int)),
        decreases i,
    {
        assert(msgs.take(i as int).drop_last() =~= msgs.take(i as int - 1));
        assert(msgs.take(i as int).last() == msgs[i as int - 1]);
        match &messages[i - 1] {
            crate::driver::ProviderMessage::Assistant { content } => {
                return content.clone();
            },
            _ => {},
        }
        i -= 1;
    }
    String::new()
}

/// The tool result of a sub-agent turn.
pub fn sub_agent_result(outcome: TurnOutcome, messages: &Vec<crate::driver::ProviderMessage>) -> (r: ToolResult)
    ensures
        ({
            let (is_error, text) = spec_sub_agent_result(outcome, crate::driver::messages_view(messages@));
            &&& r.is_error == is_error
            &&& r.exit_code is None
            &&& !r.output_truncated
            &&& parts_view(r.content@) == seq![PartView::Text(text)]
        }),
{
    match outcome {
        TurnOutcome::Complete => {
            let text = last_assistant_text(messages);
            let r = ToolResult::success(text.as_str());
            assert(parts_view(r.content@) =~= seq![PartView::Text(text@)]);
            r
        },
        TurnOutcome::Cancelled => {
            proof {
                reveal_strlit("");
            }
            let r = failure_with("sub-agent turn was cancelled", "");
            assert("sub-agent turn was cancelled"@ + ""@ =~= "sub-agent turn was cancelled"@);
            r
        },
        TurnOutcome::TransientError(e) => failure_with("sub-agent error: ", e.as_str()),
        TurnOutcome::FatalError { error, .. } => failure_with("sub-agent error: ", error.as_str()),
    }
}

} // verus!
