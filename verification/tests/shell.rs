use std::path::PathBuf;
use std::time::Duration;

use blazar::shell::{
    collect_output, finish_bash_run, parse_timeout, with_note, BashRequest, BashTool, OutputState,
    ProcessRunner, ReaderEnd, RunEnd, ShellConfig, MAX_OUTPUT_BYTES,
};
use blazar::tools::ToolResult;

struct Echo;

impl ProcessRunner for Echo {
    fn run(&self, request: BashRequest<'_>) -> ToolResult {
        ToolResult::success(&format!("{} {}", request.command, request.timeout.as_secs()))
    }
}

fn json(text: &str) -> serde_json::Value {
    serde_json::from_str(text).unwrap()
}

#[test]
fn shell_detection_prefers_existing_environment_shell() {
    let c = ShellConfig::detect_from(Some(PathBuf::from("/usr/bin/zsh")), &|_p: &PathBuf| true);
    assert_eq!(c.shell_path(), &PathBuf::from("/usr/bin/zsh"));
    assert_eq!(c.default_timeout(), Duration::from_secs(30));
    let c = ShellConfig::detect_from(Some(PathBuf::from("/nope")), &|p: &PathBuf| p == &PathBuf::from("/bin/sh"));
    assert_eq!(c.shell_path(), &PathBuf::from("/bin/sh"));
    let c = ShellConfig::detect_from(None, &|_p: &PathBuf| false);
    assert_eq!(c.shell_path(), &PathBuf::from("/bin/sh"));
    let c = ShellConfig::detect_from(None, &|p: &PathBuf| p == &PathBuf::from("/bin/bash"));
    assert_eq!(c.shell_path(), &PathBuf::from("/bin/bash"));
}

#[test]
fn timeout_must_be_a_positive_integer() {
    let d = Duration::from_secs(30);
    assert_eq!(parse_timeout(&json("{}"), d).unwrap(), d);
    assert_eq!(parse_timeout(&json(r#"{"timeout_secs": 5}"#), d).unwrap(), Duration::from_secs(5));
    assert_eq!(parse_timeout(&json(r#"{"timeout_secs": 0}"#), d).unwrap_err(), "bash timeout_secs must be an integer >= 1");
    assert!(parse_timeout(&json(r#"{"timeout_secs": "5"}"#), d).is_err());
}

#[test]
fn bash_tool_checks_arguments_before_running() {
    let tool = BashTool::with_runner(
        PathBuf::from("/w"),
        ShellConfig::new(PathBuf::from("/bin/sh"), Duration::from_secs(30)),
        Echo,
    );
    assert_eq!(tool.execute(&json(r#"{"command": "ls"}"#)).text_output(), "ls 30");
    assert_eq!(tool.execute(&json(r#"{"command": "ls", "timeout_secs": 2}"#)).text_output(), "ls 2");
    let r = tool.execute(&json(r#"{}"#));
    assert!(r.is_error);
    assert_eq!(r.text_output(), "bash requires a string command");
}

#[test]
fn bash_request_carries_shell_workspace_command_and_timeout() {
    let tool = BashTool::with_runner(
        PathBuf::from("/w"),
        ShellConfig::new(PathBuf::from("/bin/sh"), Duration::from_secs(30)),
        Echo,
    );
    let args = json(r#"{"command": "echo hi", "timeout_secs": 7}"#);
    let q = tool.bash_request(&args).ok().expect("valid call");
    assert_eq!(q.shell_path, &PathBuf::from("/bin/sh"));
    assert_eq!(q.workspace_root, &PathBuf::from("/w"));
    assert_eq!(q.command, "echo hi");
    assert_eq!(q.timeout, Duration::from_secs(7));
    let args = json(r#"{"command": "ls"}"#);
    assert_eq!(tool.bash_request(&args).ok().expect("valid call").timeout, Duration::from_secs(30));
    let args = json(r#"{"command": 3}"#);
    let refused = tool.bash_request(&args).err().expect("refused");
    assert!(refused.is_error);
    assert_eq!(refused.text_output(), "bash requires a string command");
    let args = json(r#"{"command": "ls", "timeout_secs": -1}"#);
    let refused = tool.bash_request(&args).err().expect("refused");
    assert_eq!(refused.text_output(), "bash timeout_secs must be an integer >= 1");
}

#[test]
fn output_is_capped_and_marked() {
    let mut s = OutputState::new();
    s.absorb(&vec![b'a'; MAX_OUTPUT_BYTES - 1]);
    assert!(!s.truncated);
    s.absorb(b"bc");
    assert!(s.truncated);
    assert_eq!(s.bytes.len(), MAX_OUTPUT_BYTES);
    let (text, truncated) = s.snapshot();
    assert!(truncated);
    assert!(text.ends_with("ab\n[output truncated]"));
}

#[test]
fn run_endings_are_reported() {
    let r = finish_bash_run("out".into(), false, RunEnd::TimedOut { timeout: Duration::from_secs(7) });
    assert!(r.is_error);
    assert_eq!(r.exit_code, None);
    assert_eq!(r.text_output(), "out\ncommand timed out after 7s");
    let r = finish_bash_run(String::new(), false, RunEnd::WaitFailed { error: "e".into() });
    assert_eq!(r.text_output(), "wait error: e");
    let r = finish_bash_run("x".into(), true, RunEnd::Exited { code: Some(1), success: false });
    assert!(r.is_error);
    assert_eq!(r.exit_code, Some(1));
    assert!(r.output_truncated);
    assert_eq!(with_note("", "n"), "n");
}

#[test]
fn reader_failures_are_noted() {
    let mut s = OutputState::new();
    s.absorb(b"hi");
    assert_eq!(collect_output(&s, ReaderEnd::Done).0, "hi");
    assert_eq!(collect_output(&s, ReaderEnd::Failed { error: "io".into() }).0, "hi\ncannot read shell output: io");
    assert_eq!(
        collect_output(&s, ReaderEnd::Disconnected).0,
        "hi\ncannot read shell output: reader thread disconnected"
    );
}
