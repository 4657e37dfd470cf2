use vstd::prelude::*;

use crate::text::{chars_of, extend_chars, string_from_chars};

verus! {

/// The steps an agent adapter must get through, for the adapter to implement.
pub trait AgentAdapterContractProbe {
    fn fetch_agent(&self) -> Result<(), String>;

    fn create_run(&self) -> Result<(), String>;

    fn poll_terminal(&self) -> Result<(), String>;
}

/// The failures a conformance run found.
#[derive(Debug, Default, Clone, PartialEq, Eq)]
pub struct ConformanceReport {
    pub failures: Vec<String>,
}

impl ConformanceReport {
    pub fn all_passed(&self) -> (r: bool)
        ensures
            r == (self.failures@.len() == 0),
    {
        self.failures.len() == 0
    }
}

/// The report line of a failed step.
pub open spec fn spec_failure_line(step: Seq<char>, error: Seq<char>) -> Seq<char> {
    step + ": "@ + error
}

/// What the suite reports for the steps' outcomes, in order; a failed step
/// ends the run, so the steps after it have no outcome.
pub open spec fn spec_conformance(
    fetch: Result<(), String>,
    create: Option<Result<(), String>>,
    poll: Option<Result<(), String>>,
) -> Seq<Seq<char>> {
    match fetch {
        Err(e) => seq![spec_failure_line("fetch_agent"@, e@)],
        Ok(()) => match create {
            Some(Err(e)) => seq![spec_failure_line("create_run"@, e@)],
            _ => match poll {
                Some(Err(e)) => seq![spec_failure_line("poll_terminal"@, e@)],
                _ => Seq::empty(),
            },
        },
    }
}

fn failure_line(step: &str, error: &str) -> (r: String)
    ensures
        r@ == spec_failure_line(step@, error@),
{
    let mut m = chars_of(step);
    extend_chars(&mut m, ": ");
    extend_chars(&mut m, error);
    string_from_chars(m.as_slice())
}

/// The report for the outcomes of the steps that were run.
pub fn conformance_report(
    fetch: Result<(), String>,
    create: Option<Result<(), String>>,
    poll: Option<Result<(), String>>,
) -> (r: ConformanceReport)
    ensures
        r.failures@.map_values(|s: String| s@) == spec_conformance(fetch, create, poll),
{
    let mut failures: Vec<String> = Vec::new();
    match fetch {
        Err(e) => failures.push(failure_line("fetch_agent", e.as_str())),
        Ok(()) => match create {
            Some(Err(e)) => failures.push(failure_line("create_run", e.as_str())),
            _ => match poll {
                Some(Err(e)) => failures.push(failure_line("poll_terminal", e.as_str())),
                _ => {},
            },
        },
    }
    assert(failures@.map_values(|s: String| s@) =~= spec_conformance(fetch, create, poll));
    ConformanceReport { failures }
}

/// Runs the adapter through fetching an agent, creating a run and polling it
/// to the end, stopping at the first step that fails.
pub fn run_adapter_conformance_suite<P: AgentAdapterContractProbe>(probe: P) -> (r: ConformanceReport)
    ensures
        exists|fetch: Result<(), String>, create: Option<Result<(), String>>, poll: Option<Result<(), String>>|
            (fetch is Err ==> create is None && poll is None) && (create matches Some(Err(_))
                ==> poll is None) && (fetch is Ok ==> create is Some) && (create matches Some(Ok(_))
                ==> poll is Some) && r.failures@.map_values(|s: String| s@) == spec_conformance(
                fetch,
                create,
                poll,
            ),
{
    let fetch = probe.fetch_agent();
    if fetch.is_err() {
        return conformance_report(fetch, None, None);
    }
    let create = probe.create_run();
    if create.is_err() {
        return conformance_report(fetch, Some(create), None);
    }
    let poll = probe.poll_terminal();
    conformance_report(fetch, Some(create), Some(poll))
}

/// The suite passes exactly when every step succeeds, and otherwise reports
/// one failure: the first step that failed.
pub proof fn lemma_conformance_passes_iff_all_steps_pass(
    fetch: Result<(), String>,
    create: Option<Result<(), String>>,
    poll: Option<Result<(), String>>,
)
    ensures
        (spec_conformance(fetch, create, poll).len() == 0) == (fetch is Ok && !(create matches Some(
            Err(_),
        )) && !(poll matches Some(Err(_)))),
        spec_conformance(fetch, create, poll).len() <= 1,
{
}

} // verus!
