use std::sync::{Arc, Mutex};

use blazar::tool_set::{vet_shell_args, ShellExecutor, VetTool};
use blazar::tools::ToolResult;
use serde_json::Value;

/// A shell executor that keeps the arguments it gets and answers with a fixed result.
struct StubShellExecutor {
    captured: Mutex<Vec<Value>>,
    result: ToolResult,
}

impl StubShellExecutor {
    fn new(result: ToolResult) -> Self {
        Self { captured: Mutex::new(Vec::new()), result }
    }

    fn captured_args(&self) -> Vec<Value> {
        self.captured.lock().unwrap().clone()
    }
}

impl ShellExecutor for StubShellExecutor {
    fn execute_shell(&self, args: Value) -> ToolResult {
        self.captured.lock().unwrap().push(args);
        self.result.clone()
    }
}

struct ArcStub(Arc<StubShellExecutor>);

impl ShellExecutor for ArcStub {
    fn execute_shell(&self, args: Value) -> ToolResult {
        self.0.execute_shell(args)
    }
}

fn json(text: &str) -> Value {
    serde_json::from_str(text).unwrap()
}

#[test]
fn execute_quick_mode_passes_correct_command() {
    let stub = StubShellExecutor::new(ToolResult::success("ok"));
    let tool = VetTool::with_executor(stub);
    let result = tool.execute(json(r#"{"mode": "quick"}"#));
    assert!(!result.is_error);
}

#[test]
fn execute_full_mode_passes_correct_command() {
    let stub = StubShellExecutor::new(ToolResult::success("tests passed"));
    let tool = VetTool::with_executor(stub);
    let result = tool.execute(json(r#"{"mode": "full"}"#));
    assert!(!result.is_error);
    assert_eq!(result.text_output(), "tests passed");
}

#[test]
fn execute_invalid_mode_returns_error_without_calling_shell() {
    let stub = Arc::new(StubShellExecutor::new(ToolResult::success("should not run")));
    let tool = VetTool::with_executor(ArcStub(stub.clone()));
    let result = tool.execute(json(r#"{"mode": "bad_mode"}"#));
    assert!(result.is_error);
    assert!(result.text_output().contains("quick, full, cargo-vet"));
    assert!(stub.captured_args().is_empty());
}

#[test]
fn execute_defaults_to_quick_when_mode_missing() {
    let stub = Arc::new(StubShellExecutor::new(ToolResult::success("ok")));
    let tool = VetTool::with_executor(ArcStub(stub.clone()));
    let result = tool.execute(json("{}"));
    assert!(!result.is_error);
    assert_eq!(stub.captured_args()[0]["command"], "just fmt-check && just lint");
}

#[test]
fn execute_passes_timeout_secs_to_shell() {
    let stub_ref = Arc::new(StubShellExecutor::new(ToolResult::success("ok")));
    let tool = VetTool::with_executor(ArcStub(stub_ref.clone()));
    let _result = tool.execute(json(r#"{"mode": "quick", "timeout_secs": 120}"#));
    let captured = stub_ref.captured_args();
    assert_eq!(captured.len(), 1);
    assert_eq!(captured[0]["timeout_secs"], 120);
    assert_eq!(captured[0]["command"], "just fmt-check && just lint");
}

#[test]
fn execute_propagates_shell_failure() {
    let stub = StubShellExecutor::new(ToolResult::failure("lint failed"));
    let tool = VetTool::with_executor(stub);
    let result = tool.execute(json(r#"{"mode": "quick"}"#));
    assert!(result.is_error);
    assert_eq!(result.text_output(), "lint failed");
}

#[test]
fn vet_shell_args_carry_the_command_and_only_a_given_timeout() {
    let a = vet_shell_args(&json(r#"{"mode": "cargo-vet"}"#)).unwrap();
    assert_eq!(a["command"], "cargo vet");
    assert!(a.get("timeout_secs").is_none());
    let a = vet_shell_args(&json(r#"{"mode": "full", "timeout_secs": 9}"#)).unwrap();
    assert_eq!(a["command"], "just fmt-check && just lint && just test");
    assert_eq!(a["timeout_secs"], 9);
    let e = vet_shell_args(&json(r#"{"mode": "slow"}"#)).unwrap_err();
    assert_eq!(e, "vet mode must be one of: quick, full, cargo-vet (got: slow)");
}

#[test]
fn vet_shell_args_hold_no_other_field() {
    let a = vet_shell_args(&json(r#"{"mode": "quick", "timeout_secs": 3, "extra": 1}"#)).unwrap();
    assert_eq!(a, json(r#"{"command": "just fmt-check && just lint", "timeout_secs": 3}"#));
    let a = vet_shell_args(&json(r#"{"extra": true}"#)).unwrap();
    assert_eq!(a, json(r#"{"command": "just fmt-check && just lint"}"#));
}
