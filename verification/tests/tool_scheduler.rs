use blazar::tool_scheduler::{schedule_batches, ScheduledCall};
use blazar::tools::{ResourceAccess, ResourceClaim};

fn call(id: &'static str, claims: Vec<ResourceClaim>) -> ScheduledCall<&'static str> {
    ScheduledCall { item: id, claims }
}

fn claim(resource: &str, access: ResourceAccess) -> ResourceClaim {
    ResourceClaim { resource: resource.into(), access }
}

#[test]
fn tests_scheduler_batches_shared_read_only_claims_together() {
    let batches = schedule_batches(vec![
        call("read-a", vec![claim("fs:src/lib.rs", ResourceAccess::ReadOnly)]),
        call("read-b", vec![claim("fs:src/lib.rs", ResourceAccess::ReadOnly)]),
    ]);

    assert_eq!(batches.len(), 1);
    assert_eq!(batches[0].iter().map(|call| call.item).collect::<Vec<_>>(), vec!["read-a", "read-b"]);
}

#[test]
fn tests_scheduler_serializes_read_write_conflicts_on_same_resource() {
    let batches = schedule_batches(vec![
        call("read-a", vec![claim("fs:src/lib.rs", ResourceAccess::ReadOnly)]),
        call("write-a", vec![claim("fs:src/lib.rs", ResourceAccess::ReadWrite)]),
        call("read-b", vec![claim("fs:src/other.rs", ResourceAccess::ReadOnly)]),
    ]);

    assert_eq!(batches.len(), 2);
    assert_eq!(batches[0].iter().map(|call| call.item).collect::<Vec<_>>(), vec!["read-a"]);
    assert_eq!(batches[1].iter().map(|call| call.item).collect::<Vec<_>>(), vec!["write-a", "read-b"]);
}

#[test]
fn tests_scheduler_treats_exclusive_claims_as_global_conflicts() {
    let batches = schedule_batches(vec![
        call("read-a", vec![claim("fs:src/lib.rs", ResourceAccess::ReadOnly)]),
        call("bash", vec![claim("process:bash", ResourceAccess::Exclusive)]),
        call("read-b", vec![claim("fs:src/other.rs", ResourceAccess::ReadOnly)]),
    ]);

    assert_eq!(batches.len(), 3);
    assert_eq!(batches[0].iter().map(|call| call.item).collect::<Vec<_>>(), vec!["read-a"]);
    assert_eq!(batches[1].iter().map(|call| call.item).collect::<Vec<_>>(), vec!["bash"]);
    assert_eq!(batches[2].iter().map(|call| call.item).collect::<Vec<_>>(), vec!["read-b"]);
}

#[test]
fn exclusive_call_always_runs_alone() {
    let batches = schedule_batches(vec![
        call("x", vec![]),
        call("bash", vec![claim("process:bash", ResourceAccess::Exclusive)]),
        call("y", vec![]),
    ]);
    let with_bash: Vec<_> = batches.iter().filter(|b| b.iter().any(|c| c.item == "bash")).collect();
    assert_eq!(with_bash.len(), 1);
    assert_eq!(with_bash[0].len(), 1);
}
