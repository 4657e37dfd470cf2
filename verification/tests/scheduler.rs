use blazar::capability::{CapabilityAccess, CapabilityClaim, ConflictPolicy};
use blazar::scheduler::{schedule_batches, ScheduledCall};

fn call(id: &'static str, claims: Vec<CapabilityClaim>) -> ScheduledCall<&'static str> {
    ScheduledCall { item: id, claims }
}

fn claim_ro(resource: &str) -> CapabilityClaim {
    CapabilityClaim { resource: resource.into(), access: CapabilityAccess::ReadOnly }
}

fn claim_rw(resource: &str) -> CapabilityClaim {
    CapabilityClaim { resource: resource.into(), access: CapabilityAccess::ReadWrite }
}

fn claim_ex(resource: &str) -> CapabilityClaim {
    CapabilityClaim { resource: resource.into(), access: CapabilityAccess::Exclusive }
}

#[test]
fn scheduler_contract_matrix_is_stable_for_claim_set_pairs() {
    let cases = vec![
        ("ro/ro same resource", vec![claim_ro("fs:a")], vec![claim_ro("fs:a")], false),
        ("ro/rw same resource", vec![claim_ro("fs:a")], vec![claim_rw("fs:a")], true),
        ("rw/ro same resource", vec![claim_rw("fs:a")], vec![claim_ro("fs:a")], true),
        ("rw/rw same resource", vec![claim_rw("fs:a")], vec![claim_rw("fs:a")], true),
        ("rw/rw different resources", vec![claim_rw("fs:a")], vec![claim_rw("fs:b")], false),
        ("ex/ro different resources", vec![claim_ex("process:bash")], vec![claim_ro("fs:a")], true),
        ("ex/ex same resource", vec![claim_ex("process:bash")], vec![claim_ex("process:bash")], true),
        (
            "multi-claim without overlap conflicts",
            vec![claim_ro("fs:a"), claim_rw("fs:b")],
            vec![claim_ro("fs:a"), claim_ro("fs:c")],
            false,
        ),
        (
            "multi-claim with overlapping rw conflicts",
            vec![claim_ro("fs:a"), claim_rw("fs:b")],
            vec![claim_ro("fs:a"), claim_rw("fs:b")],
            true,
        ),
    ];

    for (name, left, right, expected_conflict) in cases {
        let actual = ConflictPolicy::from_claims(&left, &right).is_conflicting();
        assert_eq!(actual, expected_conflict, "unexpected conflict policy for {name}");
    }
}

#[test]
fn scheduler_scheduler_batches_shared_read_only_claims_together() {
    let batches = schedule_batches(vec![
        call("read-a", vec![claim_ro("fs:src/main.rs")]),
        call("read-b", vec![claim_ro("fs:src/main.rs")]),
        call("write-c", vec![claim_rw("fs:src/main.rs")]),
    ]);

    assert_eq!(batches.len(), 2);
    assert_eq!(
        batches[0].iter().map(|scheduled| scheduled.item).collect::<Vec<_>>(),
        vec!["read-a", "read-b"]
    );
    assert_eq!(
        batches[1].iter().map(|scheduled| scheduled.item).collect::<Vec<_>>(),
        vec!["write-c"]
    );
}

#[test]
fn scheduler_scheduler_serializes_read_write_conflicts_on_same_resource() {
    let batches = schedule_batches(vec![
        call("read-a", vec![claim_ro("fs:src/lib.rs")]),
        call("write-b", vec![claim_rw("fs:src/lib.rs")]),
        call("read-c", vec![claim_ro("fs:src/lib.rs")]),
    ]);

    assert_eq!(batches.len(), 3);
    assert_eq!(
        batches.iter().map(|batch| batch[0].item).collect::<Vec<&str>>(),
        vec!["read-a", "write-b", "read-c"]
    );
}

#[test]
fn scheduler_batches_unrelated_reads_with_conflicting_writes() {
    let batches = schedule_batches(vec![
        call("read-a", vec![claim_ro("fs:src/lib.rs")]),
        call("write-b", vec![claim_rw("fs:src/lib.rs")]),
        call("read-c", vec![claim_ro("fs:src/other.rs")]),
    ]);

    assert_eq!(batches.len(), 2);
    assert_eq!(
        batches[0].iter().map(|scheduled| scheduled.item).collect::<Vec<_>>(),
        vec!["read-a"]
    );
    assert_eq!(
        batches[1].iter().map(|scheduled| scheduled.item).collect::<Vec<_>>(),
        vec!["write-b", "read-c"]
    );
}

#[test]
fn scheduler_scheduler_treats_exclusive_claims_as_global_conflicts() {
    let batches = schedule_batches(vec![
        call("read-a", vec![claim_ro("fs:src/lib.rs")]),
        call("exclusive-bash", vec![claim_ex("process:bash")]),
        call("read-c", vec![claim_ro("fs:src/main.rs")]),
    ]);

    assert_eq!(batches.len(), 3);
    assert_eq!(
        batches.iter().map(|batch| batch[0].item).collect::<Vec<&str>>(),
        vec!["read-a", "exclusive-bash", "read-c"]
    );
}

#[test]
fn schedule_batches_batch_conflicts_check() {
    let batches = schedule_batches(vec![
        call("a", vec![claim_rw("fs:x")]),
        call("b", vec![claim_rw("fs:x")]),
        call("c", vec![]),
    ]);
    assert_eq!(batches.len(), 2);
    assert_eq!(batches[0].iter().map(|s| s.item).collect::<Vec<_>>(), vec!["a"]);
    assert_eq!(batches[1].iter().map(|s| s.item).collect::<Vec<_>>(), vec!["b", "c"]);
}

#[test]
fn scheduling_keeps_every_call_in_order() {
    let batches = schedule_batches(vec![
        call("a", vec![claim_rw("fs:x")]),
        call("b", vec![claim_ro("fs:x")]),
        call("c", vec![claim_ro("fs:y")]),
        call("d", vec![claim_ex("process:bash")]),
    ]);
    let flat: Vec<&str> = batches.iter().flat_map(|b| b.iter().map(|s| s.item)).collect();
    assert_eq!(flat, vec!["a", "b", "c", "d"]);
    assert!(batches.iter().all(|b| !b.is_empty()));
}

#[test]
fn scheduling_no_calls_gives_no_batches() {
    let batches = schedule_batches(Vec::<ScheduledCall<&'static str>>::new());
    assert!(batches.is_empty());
}
