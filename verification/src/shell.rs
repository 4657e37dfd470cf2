use vstd::prelude::*;

use crate::acp::{parts_view, PartView};
use crate::json::{json_as_str, json_as_u64, json_get, value_as_str, value_as_u64, value_get};
use crate::text::{
    chars_of, copy_string, decimal, extend_chars, extend_from_chars, spec_decimal,
    string_from_chars,
};
use crate::tools::{ContentPart, ToolResult};

verus! {

/// A filesystem path, carried opaquely.
#[verifier::external_type_specification]
#[verifier::external_body]
pub struct ExPathBuf(std::path::PathBuf);

/// What `PathBuf::from` makes of a string.
pub uninterp spec fn path_from_str(s: Seq<char>) -> std::path::PathBuf;

/// `PathBuf::from(&str)`; the result is named.
#[verifier::external_body]
pub(crate) fn path_buf(s: &str) -> (r: std::path::PathBuf)
    ensures
        r == path_from_str(s@),
{
    std::path::PathBuf::from(s)
}

/// What `Duration::from_secs` makes of a number of seconds.
pub uninterp spec fn duration_of_secs(secs: u64) -> core::time::Duration;

/// The whole seconds of a duration, as `Duration::as_secs` reads them.
pub uninterp spec fn duration_secs(d: core::time::Duration) -> u64;

/// `Duration::from_secs`; the result is named, and it holds exactly `secs`
/// whole seconds.
#[verifier::external_body]
pub(crate) fn seconds(secs: u64) -> (r: core::time::Duration)
    ensures
        r == duration_of_secs(secs),
        duration_secs(r) == secs,
{
    core::time::Duration::from_secs(secs)
}

/// `Duration::as_secs`; the result is named.
#[verifier::external_body]
pub(crate) fn whole_seconds(d: &core::time::Duration) -> (r: u64)
    ensures
        r == duration_secs(*d),
{
    d.as_secs()
}

/// The most output a shell command keeps, in bytes.
pub const MAX_OUTPUT_BYTES: usize = 8192;

/// The timeout of a shell command that asks for none.
pub const DEFAULT_TIMEOUT_SECS: u64 = 30;

/// What is added to output that was cut short.
pub const OUTPUT_TRUNCATED_MARKER: &'static str = "\n[output truncated]";

/// Which shell runs commands, and for how long by default.
pub struct ShellConfig {
    pub shell_path: std::path::PathBuf,
    pub default_timeout: core::time::Duration,
}

impl ShellConfig {
    pub fn new(shell_path: std::path::PathBuf, default_timeout: core::time::Duration) -> (r: Self)
        ensures
            r.shell_path == shell_path,
            r.default_timeout == default_timeout,
    {
        ShellConfig { shell_path, default_timeout }
    }

    /// The shell from the environment when it exists, else `/bin/bash` or
    /// `/bin/sh` when one exists, else `/bin/sh`; the default timeout.
    pub fn detect_from<F: Fn(&std::path::PathBuf) -> bool>(
        env_shell: Option<std::path::PathBuf>,
        path_exists: &F,
    ) -> (r: Self)
        requires
            forall|p: &std::path::PathBuf| path_exists.requires((p,)),
        ensures
            r.default_timeout == duration_of_secs(DEFAULT_TIMEOUT_SECS),
            is_selected_shell(env_shell, *path_exists, r.shell_path),
    {
        let shell_path = select_shell_path(env_shell, path_exists);
        ShellConfig::new(shell_path, seconds(DEFAULT_TIMEOUT_SECS))
    }

    pub fn shell_path(&self) -> (r: &std::path::PathBuf)
        ensures
            *r == self.shell_path,
    {
        &self.shell_path
    }

    pub fn default_timeout(&self) -> (r: core::time::Duration)
        ensures
            r == self.default_timeout,
    {
        self.default_timeout
    }
}

/// Whether `r` is the shell chosen given what `path_exists` answered: the
/// first existing of the environment's shell, `/bin/bash` and `/bin/sh`, or
/// `/bin/sh` when none exists.
pub open spec fn is_selected_shell<F: Fn(&std::path::PathBuf) -> bool>(
    env_shell: Option<std::path::PathBuf>,
    path_exists: F,
    r: std::path::PathBuf,
) -> bool {
    let env_rejected = match env_shell {
        Some(e) => path_exists.ensures((&e,), false),
        None => true,
    };
    let bash = path_from_str("/bin/bash"@);
    let sh = path_from_str("/bin/sh"@);
    ||| (env_shell matches Some(e) && path_exists.ensures((&e,), true) && r == e)
    ||| (env_rejected && path_exists.ensures((&bash,), true) && r == bash)
    ||| (env_rejected && path_exists.ensures((&bash,), false) && r == sh)
}

fn select_shell_path<F: Fn(&std::path::PathBuf) -> bool>(
    env_shell: Option<std::path::PathBuf>,
    path_exists: &F,
) -> (r: std::path::PathBuf)
    requires
        forall|p: &std::path::PathBuf| path_exists.requires((p,)),
    ensures
        is_selected_shell(env_shell, *path_exists, r),
{
    if let Some(candidate) = env_shell {
        if path_exists(&candidate) {
            return candidate;
        }
    }
    let bash = path_buf("/bin/bash");
    if path_exists(&bash) {
        return bash;
    }
    let sh = path_buf("/bin/sh");
    if path_exists(&sh) {
        return sh;
    }
    path_buf("/bin/sh")
}

/// A command for the shell to run.
pub struct BashRequest<'a> {
    pub shell_path: &'a std::path::PathBuf,
    pub workspace_root: &'a std::path::PathBuf,
    pub command: &'a str,
    pub timeout: core::time::Duration,
}

/// Runs shell commands; the system's implementation spawns a process.
pub trait ProcessRunner {
    fn run(&self, request: BashRequest<'_>) -> ToolResult;
}

/// The message for a timeout that is not a positive whole number.
pub open spec fn bad_timeout_message() -> Seq<char> {
    "bash timeout_secs must be an integer >= 1"@
}

/// The timeout a `bash` call asks for: the default when it names none, an
/// error when it is not a positive integer.
pub open spec fn spec_timeout(args: serde_json::Value, default_timeout: core::time::Duration) -> Result<core::time::Duration, Seq<char>> {
    match json_get(args, "timeout_secs"@) {
        None => Ok(default_timeout),
        Some(t) => match json_as_u64(t) {
            None => Err(bad_timeout_message()),
            Some(n) => if n == 0 {
                Err(bad_timeout_message())
            } else {
                Ok(duration_of_secs(n))
            },
        },
    }
}

pub fn parse_timeout(args: &serde_json::Value, default_timeout: core::time::Duration) -> (r: Result<core::time::Duration, String>)
    ensures
        match (r, spec_timeout(*args, default_timeout)) {
            (Ok(d), Ok(e)) => d == e,
            (Err(m), Err(e)) => m@ == e,
            _ => false,
        },
{
    let timeout_value = match value_get(args, "timeout_secs") {
        None => return Ok(default_timeout),
        Some(t) => t,
    };
    match value_as_u64(timeout_value) {
        None => Err(copy_string("bash timeout_secs must be an integer >= 1")),
        Some(n) => {
            if n == 0 {
                Err(copy_string("bash timeout_secs must be an integer >= 1"))
            } else {
                Ok(seconds(n))
            }
        },
    }
}

/// Runs shell commands in a workspace.
pub struct BashTool<R> {
    pub workspace_root: std::path::PathBuf,
    pub shell: ShellConfig,
    pub runner: R,
}

impl<R: ProcessRunner> BashTool<R> {
    pub fn with_runner(workspace_root: std::path::PathBuf, shell: ShellConfig, runner: R) -> (r: Self)
        ensures
            r.workspace_root == workspace_root,
            r.shell == shell,
            r.runner == runner,
    {
        BashTool { workspace_root, shell, runner }
    }

    /// The request a `bash` call hands the runner: the configured shell, the
    /// workspace, the `command` of the arguments and their timeout (the
    /// default when they name none). A call without a string command, or with
    /// a bad timeout, is refused with the failure that answers it.
    pub fn bash_request<'a>(&'a self, args: &'a serde_json::Value) -> (r: Result<BashRequest<'a>, ToolResult>)
        ensures
            r is Ok <==> (spec_command(*args) is Some && spec_timeout(*args, self.shell.default_timeout) is Ok),
            match r {
                Ok(q) => {
                    &&& spec_command(*args) == Some(q.command@)
                    &&& spec_timeout(*args, self.shell.default_timeout) == Ok::<core::time::Duration, Seq<char>>(q.timeout)
                    &&& *q.shell_path == self.shell.shell_path
                    &&& *q.workspace_root == self.workspace_root
                },
                Err(t) => match spec_command(*args) {
                    None => bash_refusal(t, missing_command_message()),
                    Some(_) => spec_timeout(*args, self.shell.default_timeout) matches Err(e)
                        && bash_refusal(t, e),
                },
            },
    {
        let command = match value_get(args, "command") {
            Some(c) => value_as_str(c),
            None => None,
        };
        let command = match command {
            Some(c) => c,
            None => {
                let r = ToolResult::failure("bash requires a string command");
                assert(parts_view(r.content@) =~= seq![PartView::Text(missing_command_message())]);
                return Err(r);
            },
        };
        let timeout = match parse_timeout(args, self.shell.default_timeout()) {
            Ok(t) => t,
            Err(e) => {
                let r = ToolResult::failure(e.as_str());
                assert(parts_view(r.content@) =~= seq![PartView::Text(e@)]);
                return Err(r);
            },
        };
        Ok(
            BashRequest {
                shell_path: self.shell.shell_path(),
                workspace_root: &self.workspace_root,
                command,
                timeout,
            },
        )
    }

    /// Runs the `command` of the arguments with their timeout; a call without
    /// a string command, or with a bad timeout, fails without running. What
    /// the runner answers for the request of [`BashTool::bash_request`] is
    /// handed back as it is.
    pub fn execute(&self, args: &serde_json::Value) -> (r: ToolResult)
        ensures
            spec_command(*args) is None ==> bash_refusal(r, missing_command_message()),
            spec_command(*args) is Some ==> match spec_timeout(*args, self.shell.default_timeout) {
                Err(e) => bash_refusal(r, e),
                Ok(_) => true,
            },
    {
        match self.bash_request(args) {
            Err(refusal) => refusal,
            Ok(request) => self.runner.run(request),
        }
    }
}

/// The command text of `bash` arguments: their `command` when it is a string.
pub open spec fn spec_command(args: serde_json::Value) -> Option<Seq<char>> {
    match json_get(args, "command"@) {
        Some(c) => json_as_str(c),
        None => None,
    }
}

/// The message for `bash` arguments without a string command.
pub open spec fn missing_command_message() -> Seq<char> {
    "bash requires a string command"@
}

/// A failure whose text is `text`.
pub open spec fn bash_refusal(r: ToolResult, text: Seq<char>) -> bool {
    &&& r.is_error
    &&& r.exit_code is None
    &&& !r.output_truncated
    &&& parts_view(r.content@) == seq![PartView::Text(text)]
}

/// What `String::from_utf8_lossy` makes of bytes.
pub uninterp spec fn utf8_lossy(bytes: Seq<u8>) -> Seq<char>;

/// `String::from_utf8_lossy`; the result is named. Valid UTF-8 is decoded
/// unchanged.
#[verifier::external_body]
fn lossy_text(bytes: &[u8]) -> (r: String)
    ensures
        r@ == utf8_lossy(bytes@),
        vstd::utf8::valid_utf8(bytes@) ==> r@ == vstd::utf8::decode_utf8(bytes@),
{
    String::from_utf8_lossy(bytes).into_owned()
}

/// Keeping a chunk: as much as still fits under the cap, and the truncation
/// mark set when something had to be dropped.
pub open spec fn spec_absorb(kept: Seq<u8>, truncated: bool, chunk: Seq<u8>) -> (Seq<u8>, bool) {
    let room = MAX_OUTPUT_BYTES - kept.len();
    let keep = if chunk.len() < room {
        chunk.len() as int
    } else {
        room
    };
    (kept + chunk.take(keep), truncated || chunk.len() > room)
}

/// Everything read, chunk after chunk.
pub open spec fn concat_chunks(chunks: Seq<Seq<u8>>) -> Seq<u8>
    decreases chunks.len(),
{
    if chunks.len() == 0 {
        Seq::empty()
    } else {
        concat_chunks(chunks.drop_last()) + chunks.last()
    }
}

/// The output state after taking in `chunks` one by one from nothing.
pub open spec fn absorb_all(chunks: Seq<Seq<u8>>) -> (Seq<u8>, bool)
    decreases chunks.len(),
{
    if chunks.len() == 0 {
        (Seq::empty(), false)
    } else {
        let (kept, truncated) = absorb_all(chunks.drop_last());
        spec_absorb(kept, truncated, chunks.last())
    }
}

/// However the output arrives in chunks, what is kept is its first
/// [`MAX_OUTPUT_BYTES`] bytes, and it is marked truncated exactly when there
/// was more than that.
pub proof fn lemma_output_cap(chunks: Seq<Seq<u8>>)
    ensures
        ({
            let all = concat_chunks(chunks);
            let (kept, truncated) = absorb_all(chunks);
            &&& kept == all.take(if all.len() < MAX_OUTPUT_BYTES { all.len() as int } else { MAX_OUTPUT_BYTES as int })
            &&& truncated == (all.len() > MAX_OUTPUT_BYTES)
        }),
    decreases chunks.len(),
{
    if chunks.len() > 0 {
        lemma_output_cap(chunks.drop_last());
        let a = concat_chunks(chunks.drop_last());
        let c = chunks.last();
        let m = MAX_OUTPUT_BYTES as int;
        let (kept, truncated) = absorb_all(chunks.drop_last());
        if a.len() >= m {
            assert(kept =~= a.take(m));
            assert((a + c).take(m) =~= a.take(m));
            assert(c.take(0) =~= Seq::<u8>::empty());
            assert(kept + c.take(0) =~= kept);
        } else {
            assert(kept =~= a);
            let room = m - a.len();
            let keep = if c.len() < room { c.len() as int } else { room };
            assert(a + c.take(keep) =~= (a + c).take(a.len() + keep));
        }
    }
}

/// What a shell command printed so far, capped at [`MAX_OUTPUT_BYTES`].
pub struct OutputState {
    pub bytes: Vec<u8>,
    pub truncated: bool,
}

impl OutputState {
    pub open spec fn well_formed(&self) -> bool {
        self.bytes@.len() <= MAX_OUTPUT_BYTES
    }

    pub fn new() -> (r: Self)
        ensures
            r.well_formed(),
            r.bytes@.len() == 0,
            !r.truncated,
    {
        OutputState { bytes: Vec::new(), truncated: false }
    }

    /// Takes in one chunk of output: as much as still fits is kept, and the
    /// output is marked truncated when something had to be dropped.
    pub fn absorb(&mut self, chunk: &[u8])
        requires
            old(self).well_formed(),
        ensures
            final(self).well_formed(),
            (final(self).bytes@, final(self).truncated) == spec_absorb(old(self).bytes@, old(self).truncated, chunk@),
    {
        let remaining = MAX_OUTPUT_BYTES - self.bytes.len();
        let keep = if chunk.len() < remaining {
            chunk.len()
        } else {
            remaining
        };
        let mut i: usize = 0;
        let ghost start = self.bytes@;
        while i < keep
            invariant
                i <= keep <= chunk@.len(),
                keep <= MAX_OUTPUT_BYTES - start.len(),
                start.len() <= MAX_OUTPUT_BYTES,
                self.bytes@ == start + chunk@.take(i as int),
                self.truncated == old(self).truncated,
            decreases keep - i,
        {
            self.bytes.push(chunk[i]);
            assert(chunk@.take(i as int + 1) =~= chunk@.take(i as int).push(chunk@[i as int]));
            i += 1;
        }
        if chunk.len() > remaining {
            self.truncated = true;
        }
    }

    /// The output as text, with the truncation marker when it was cut short.
    pub fn snapshot(&self) -> (r: (String, bool))
        ensures
            r.1 == self.truncated,
            r.0@ == if self.truncated {
                utf8_lossy(self.bytes@) + OUTPUT_TRUNCATED_MARKER@
            } else {
                utf8_lossy(self.bytes@)
            },
    {
        let text = lossy_text(self.bytes.as_slice());
        if self.truncated {
            let mut c = chars_of(text.as_str());
            extend_chars(&mut c, OUTPUT_TRUNCATED_MARKER);
            (string_from_chars(c.as_slice()), true)
        } else {
            (text, false)
        }
    }
}

/// `note` after the output, on a line of its own when there is output.
pub open spec fn spec_with_note(output: Seq<char>, note: Seq<char>) -> Seq<char> {
    if output.len() > 0 {
        output + "\n"@ + note
    } else {
        note
    }
}

pub fn with_note(output: &str, note: &str) -> (r: String)
    ensures
        r@ == spec_with_note(output@, note@),
{
    let mut c = chars_of(output);
    if c.len() > 0 {
        c.push('\n');
    }
    extend_chars(&mut c, note);
    proof {
        reveal_strlit("\n");
    }
    string_from_chars(c.as_slice())
}

/// How a shell command's run ended.
pub enum RunEnd {
    /// The process exited, with its exit code when it has one.
    Exited { code: Option<i32>, success: bool },
    /// The timeout passed; the process group was terminated.
    TimedOut { timeout: core::time::Duration },
    /// Waiting for the process failed.
    WaitFailed { error: String },
}

/// The note a run that did not exit carries.
pub open spec fn spec_end_note(end: RunEnd) -> Seq<char> {
    match end {
        RunEnd::TimedOut { timeout } => "command timed out after "@ + spec_decimal(
            duration_secs(timeout) as nat,
        ) + "s"@,
        RunEnd::WaitFailed { error } => "wait error: "@ + error@,
        RunEnd::Exited { .. } => Seq::empty(),
    }
}

/// The tool result of a finished shell command from its collected output.
pub fn finish_bash_run(output: String, output_truncated: bool, end: RunEnd) -> (r: ToolResult)
    ensures
        r.output_truncated == output_truncated,
        match end {
            RunEnd::Exited { code, success } => r.exit_code == code && r.is_error == !success
                && parts_view(r.content@) == seq![PartView::Text(output@)],
            _ => r.exit_code is None && r.is_error && parts_view(r.content@) == seq![
                PartView::Text(spec_with_note(output@, spec_end_note(end))),
            ],
        },
{
    let ghost e = end;
    let (text, exit_code, is_error) = match end {
        RunEnd::Exited { code, success } => (output, code, !success),
        RunEnd::TimedOut { timeout } => {
            let mut note = chars_of("command timed out after ");
            let d = decimal(whole_seconds(&timeout));
            extend_from_chars(&mut note, d.as_slice());
            extend_chars(&mut note, "s");
            let note = string_from_chars(note.as_slice());
            (with_note(output.as_str(), note.as_str()), None, true)
        },
        RunEnd::WaitFailed { error } => {
            let mut note = chars_of("wait error: ");
            extend_chars(&mut note, error.as_str());
            let note = string_from_chars(note.as_slice());
            (with_note(output.as_str(), note.as_str()), None, true)
        },
    };
    let content = vec![ContentPart::Text { text }];
    assert(parts_view(content@) =~= seq![PartView::Text(content@[0]->text@)]);
    ToolResult { content, exit_code, is_error, output_truncated }
}

/// How reading a command's output ended, as far as its collector saw.
pub enum ReaderEnd {
    /// The reader finished, or did not finish in time: the output is taken as it is.
    Done,
    /// The reader failed.
    Failed { error: String },
    /// The reader went away without a word.
    Disconnected,
}

/// The collected output of a command: the snapshot, with a note when the
/// reader failed.
pub fn collect_output(state: &OutputState, reader: ReaderEnd) -> (r: (String, bool))
    ensures
        r.1 == state.truncated,
        ({
            let snap = if state.truncated {
                utf8_lossy(state.bytes@) + OUTPUT_TRUNCATED_MARKER@
            } else {
                utf8_lossy(state.bytes@)
            };
            r.0@ == match reader {
                ReaderEnd::Done => snap,
                ReaderEnd::Failed { error } => spec_with_note(snap, "cannot read shell output: "@ + error@),
                ReaderEnd::Disconnected => spec_with_note(
                    snap,
                    "cannot read shell output: reader thread disconnected"@,
                ),
            }
        }),
{
    let (output, truncated) = state.snapshot();
    match reader {
        ReaderEnd::Done => (output, truncated),
        ReaderEnd::Failed { error } => {
            let mut note = chars_of("cannot read shell output: ");
            extend_chars(&mut note, error.as_str());
            let note = string_from_chars(note.as_slice());
            (with_note(output.as_str(), note.as_str()), truncated)
        },
        ReaderEnd::Disconnected => (
            with_note(output.as_str(), "cannot read shell output: reader thread disconnected"),
            truncated,
        ),
    }
}

} // verus!
