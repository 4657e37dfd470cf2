use blazar::conformance::{run_adapter_conformance_suite, AgentAdapterContractProbe};

#[derive(Default)]
struct AcpAdapterContractProbe {
    fail_at: Option<&'static str>,
}

impl AgentAdapterContractProbe for AcpAdapterContractProbe {
    fn fetch_agent(&self) -> Result<(), String> {
        if self.fail_at == Some("fetch") { Err("no agent".into()) } else { Ok(()) }
    }

    fn create_run(&self) -> Result<(), String> {
        if self.fail_at == Some("create") { Err("no run".into()) } else { Ok(()) }
    }

    fn poll_terminal(&self) -> Result<(), String> {
        if self.fail_at == Some("poll") { Err("stuck".into()) } else { Ok(()) }
    }
}

#[test]
fn acp_adapter_satisfies_generic_agent_adapter_contract() {
    let report = run_adapter_conformance_suite(AcpAdapterContractProbe::default());
    assert!(report.all_passed(), "ACP adapter must satisfy generic contract");
}

#[test]
fn conformance_stops_at_the_first_failing_step() {
    let report = run_adapter_conformance_suite(AcpAdapterContractProbe { fail_at: Some("create") });
    assert_eq!(report.failures, vec!["create_run: no run".to_string()]);
    assert!(!report.all_passed());
    let report = run_adapter_conformance_suite(AcpAdapterContractProbe { fail_at: Some("fetch") });
    assert_eq!(report.failures, vec!["fetch_agent: no agent".to_string()]);
    let report = run_adapter_conformance_suite(AcpAdapterContractProbe { fail_at: Some("poll") });
    assert_eq!(report.failures, vec!["poll_terminal: stuck".to_string()]);
}
