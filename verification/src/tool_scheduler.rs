use vstd::prelude::*;

use crate::tools::{ResourceAccess, ResourceClaim};

verus! {

/// A tool call waiting to be scheduled, with the resource claims it makes.
#[derive(Debug, PartialEq, Eq)]
pub struct ScheduledCall<T> {
    pub item: T,
    pub claims: Vec<ResourceClaim>,
}

pub open spec fn spec_has_exclusive_resource(claims: Seq<ResourceClaim>) -> bool {
    exists|i: int| 0 <= i < claims.len() && claims[i].access == ResourceAccess::Exclusive
}

pub open spec fn spec_resource_pair_conflicts(a: ResourceClaim, b: ResourceClaim) -> bool {
    a.resource@ == b.resource@ && !(a.access == ResourceAccess::ReadOnly && b.access
        == ResourceAccess::ReadOnly)
}

pub open spec fn spec_resource_claims_conflict(left: Seq<ResourceClaim>, right: Seq<ResourceClaim>) -> bool {
    exists|i: int, j: int|
        0 <= i < left.len() && 0 <= j < right.len() && spec_resource_pair_conflicts(left[i], right[j])
}

/// A non-empty batch conflicts with new claims when either side holds an
/// exclusive claim, or some call in it touches a resource the claims touch with
/// a write on at least one side.
pub open spec fn spec_tool_batch_conflicts<T>(batch: Seq<ScheduledCall<T>>, claims: Seq<ResourceClaim>) -> bool {
    batch.len() > 0 && (spec_has_exclusive_resource(claims) || (exists|k: int|
        0 <= k < batch.len() && spec_has_exclusive_resource(batch[k].claims@)) || (exists|k: int|
        0 <= k < batch.len() && spec_resource_claims_conflict(batch[k].claims@, claims)))
}

/// Greedy batching in arrival order.
pub open spec fn spec_tool_schedule<T>(calls: Seq<ScheduledCall<T>>) -> Seq<Seq<ScheduledCall<T>>>
    decreases calls.len(),
{
    if calls.len() == 0 {
        Seq::empty()
    } else {
        let b = spec_tool_schedule(calls.drop_last());
        let c = calls.last();
        if b.len() == 0 {
            seq![seq![c]]
        } else if !spec_tool_batch_conflicts(b.last(), c.claims@) {
            b.update(b.len() - 1, b.last().push(c))
        } else {
            b.push(seq![c])
        }
    }
}

pub open spec fn tool_batch_views<T>(batches: Seq<Vec<ScheduledCall<T>>>) -> Seq<Seq<ScheduledCall<T>>> {
    batches.map_values(|v: Vec<ScheduledCall<T>>| v@)
}

fn has_exclusive_claim(claims: &[ResourceClaim]) -> (r: bool)
    ensures
        r == spec_has_exclusive_resource(claims@),
{
    let mut i: usize = 0;
    while i < claims.len()
        invariant
            i <= claims@.len(),
            forall|k: int| 0 <= k < i ==> claims@[k].access != ResourceAccess::Exclusive,
        decreases claims@.len() - i,
    {
        match claims[i].access {
            ResourceAccess::Exclusive => return true,
            _ => {},
        }
        i += 1;
    }
    false
}

fn claims_conflict(left: &[ResourceClaim], right: &[ResourceClaim]) -> (r: bool)
    ensures
        r == spec_resource_claims_conflict(left@, right@),
{
    let mut i: usize = 0;
    while i < left.len()
        invariant
            i <= left@.len(),
            forall|a: int, b: int|
                0 <= a < i && 0 <= b < right@.len() ==> !spec_resource_pair_conflicts(left@[a], right@[b]),
        decreases left@.len() - i,
    {
        let mut j: usize = 0;
        while j < right.len()
            invariant
                i < left@.len(),
                j <= right@.len(),
                forall|a: int, b: int|
                    0 <= a < i && 0 <= b < right@.len() ==> !spec_resource_pair_conflicts(
                        left@[a],
                        right@[b],
                    ),
                forall|b: int| 0 <= b < j ==> !spec_resource_pair_conflicts(left@[i as int], right@[b]),
            decreases right@.len() - j,
        {
            let both_read = match (left[i].access, right[j].access) {
                (ResourceAccess::ReadOnly, ResourceAccess::ReadOnly) => true,
                _ => false,
            };
            if left[i].resource == right[j].resource && !both_read {
                assert(spec_resource_pair_conflicts(left@[i as int], right@[j as int]));
                return true;
            }
            j += 1;
        }
        i += 1;
    }
    false
}

fn batch_conflicts<T>(batch: &[ScheduledCall<T>], claims: &[ResourceClaim]) -> (r: bool)
    ensures
        r == spec_tool_batch_conflicts(batch@, claims@),
{
    if batch.len() == 0 {
        return false;
    }
    if has_exclusive_claim(claims) {
        return true;
    }
    let mut k: usize = 0;
    while k < batch.len()
        invariant
            k <= batch@.len(),
            forall|j: int| 0 <= j < k ==> !spec_has_exclusive_resource(batch@[j].claims@),
        decreases batch@.len() - k,
    {
        if has_exclusive_claim(batch[k].claims.as_slice()) {
            return true;
        }
        k += 1;
    }
    let mut k: usize = 0;
    while k < batch.len()
        invariant
            k <= batch@.len(),
            forall|j: int| 0 <= j < batch@.len() ==> !spec_has_exclusive_resource(batch@[j].claims@),
            forall|j: int| 0 <= j < k ==> !spec_resource_claims_conflict(batch@[j].claims@, claims@),
        decreases batch@.len() - k,
    {
        if claims_conflict(batch[k].claims.as_slice(), claims) {
            return true;
        }
        k += 1;
    }
    false
}

/// Splits tool calls into consecutive batches whose members may run side by side.
pub fn schedule_batches<T>(calls: Vec<ScheduledCall<T>>) -> (r: Vec<Vec<ScheduledCall<T>>>)
    ensures
        tool_batch_views(r@) == spec_tool_schedule(calls@),
{
    let mut batches: Vec<Vec<ScheduledCall<T>>> = Vec::new();
    let mut current: Vec<ScheduledCall<T>> = Vec::new();
    let ghost all = calls@;
    let ghost mut n: int = 0;
    for call in it: calls
        invariant
            it.seq() == all,
            n == it.index(),
            0 <= n <= all.len(),
            (if current@.len() == 0 {
                tool_batch_views(batches@)
            } else {
                tool_batch_views(batches@).push(current@)
            }) == spec_tool_schedule(all.take(n)),
            current@.len() == 0 ==> n == 0 && batches@.len() == 0,
    {
        proof {
            assert(all.take(n + 1).drop_last() =~= all.take(n));
            assert(all.take(n + 1).last() == call);
        }
        let ghost prev_views = tool_batch_views(batches@);
        let ghost prev_current = current@;
        if current.len() == 0 {
            current.push(call);
            proof {
                assert(prev_views =~= Seq::<Seq<ScheduledCall<T>>>::empty());
                assert(spec_tool_schedule(all.take(n)) =~= Seq::<Seq<ScheduledCall<T>>>::empty());
                assert(current@ =~= seq![call]);
                assert(tool_batch_views(batches@).push(current@) =~= spec_tool_schedule(all.take(n + 1)));
            }
        } else if !batch_conflicts(current.as_slice(), call.claims.as_slice()) {
            current.push(call);
            proof {
                let b = spec_tool_schedule(all.take(n));
                assert(b == prev_views.push(prev_current));
                assert(tool_batch_views(batches@).push(current@) =~= spec_tool_schedule(all.take(n + 1)));
            }
        } else {
            let finished = current;
            proof {
                let b = spec_tool_schedule(all.take(n));
                assert(b == prev_views.push(prev_current));
            }
            batches.push(finished);
            current = Vec::new();
            current.push(call);
            proof {
                assert(tool_batch_views(batches@) =~= prev_views.push(finished@));
                assert(tool_batch_views(batches@).push(current@) =~= spec_tool_schedule(all.take(n + 1)));
            }
        }
        proof {
            n = n + 1;
        }
    }
    assert(all.take(all.len() as int) =~= all);
    if current.len() > 0 {
        let ghost old_views = tool_batch_views(batches@);
        batches.push(current);
        assert(tool_batch_views(batches@) =~= old_views.push(current@));
    }
    batches
}

pub open spec fn flatten_tool_batches<T>(batches: Seq<Seq<ScheduledCall<T>>>) -> Seq<ScheduledCall<T>>
    decreases batches.len(),
{
    if batches.len() == 0 {
        Seq::empty()
    } else {
        flatten_tool_batches(batches.drop_last()) + batches.last()
    }
}

/// Tool batching keeps every call exactly once and in arrival order.
pub proof fn lemma_tool_schedule_preserves_calls<T>(calls: Seq<ScheduledCall<T>>)
    ensures
        flatten_tool_batches(spec_tool_schedule(calls)) == calls,
    decreases calls.len(),
{
    if calls.len() > 0 {
        let prefix = calls.drop_last();
        lemma_tool_schedule_preserves_calls(prefix);
        let b = spec_tool_schedule(prefix);
        let c = calls.last();
        if b.len() == 0 {
            assert(calls =~= seq![c]);
            let r = seq![seq![c]];
            assert(r.drop_last() =~= Seq::<Seq<ScheduledCall<T>>>::empty());
            assert(flatten_tool_batches(r) =~= seq![c]);
        } else if !spec_tool_batch_conflicts(b.last(), c.claims@) {
            let r = b.update(b.len() - 1, b.last().push(c));
            assert(r.drop_last() =~= b.drop_last());
            assert(flatten_tool_batches(r) =~= flatten_tool_batches(b).push(c));
            assert(calls =~= prefix.push(c));
        } else {
            let r = b.push(seq![c]);
            assert(r.drop_last() =~= b);
            assert(flatten_tool_batches(r) =~= flatten_tool_batches(b).push(c));
            assert(calls =~= prefix.push(c));
        }
    }
}

/// An exclusive call always runs alone in its batch.
pub proof fn lemma_exclusive_runs_alone<T>(calls: Seq<ScheduledCall<T>>)
    ensures
        forall|b: int, i: int|
            0 <= b < spec_tool_schedule(calls).len() && 0 <= i < spec_tool_schedule(calls)[b].len()
                && spec_has_exclusive_resource(#[trigger] spec_tool_schedule(calls)[b][i].claims@)
                ==> spec_tool_schedule(calls)[b].len() == 1,
    decreases calls.len(),
{
    if calls.len() > 0 {
        let prefix = calls.drop_last();
        lemma_exclusive_runs_alone(prefix);
        let b = spec_tool_schedule(prefix);
        let c = calls.last();
        let r = spec_tool_schedule(calls);
        if b.len() == 0 {
        } else if !spec_tool_batch_conflicts(b.last(), c.claims@) {
            assert forall|x: int, i: int|
                0 <= x < r.len() && 0 <= i < r[x].len() && spec_has_exclusive_resource(
                    #[trigger] r[x][i].claims@,
                ) implies r[x].len() == 1 by {
                if x == r.len() - 1 {
                    if i == r[x].len() - 1 {
                        assert(r[x][i] == c);
                    } else {
                        assert(r[x][i] == b.last()[i]);
                        assert(spec_has_exclusive_resource(b.last()[i].claims@));
                    }
                } else {
                    assert(r[x] == b[x]);
                }
            }
        } else {
            assert forall|x: int, i: int|
                0 <= x < r.len() && 0 <= i < r[x].len() && spec_has_exclusive_resource(
                    #[trigger] r[x][i].claims@,
                ) implies r[x].len() == 1 by {
                if x < b.len() {
                    assert(r[x] == b[x]);
                }
            }
        }
    }
}

/// Within a batch, two calls touch the same resource only when both only
/// read it; in particular two writes to one resource never share a batch.
pub proof fn lemma_batch_shares_resources_only_for_reading<T>(calls: Seq<ScheduledCall<T>>)
    ensures
        forall|x: int, i: int, j: int, p: int, q: int|
            0 <= x < spec_tool_schedule(calls).len() && 0 <= i < j < spec_tool_schedule(calls)[x].len()
                && 0 <= p < spec_tool_schedule(calls)[x][i].claims@.len() && 0 <= q
                < spec_tool_schedule(calls)[x][j].claims@.len() && (#[trigger] spec_tool_schedule(
                calls,
            )[x][i].claims@[p]).resource@ == (#[trigger] spec_tool_schedule(calls)[x][j].claims@[q]).resource@
                ==> spec_tool_schedule(calls)[x][i].claims@[p].access == ResourceAccess::ReadOnly
                && spec_tool_schedule(calls)[x][j].claims@[q].access == ResourceAccess::ReadOnly,
    decreases calls.len(),
{
    if calls.len() > 0 {
        let prefix = calls.drop_last();
        lemma_batch_shares_resources_only_for_reading(prefix);
        let b = spec_tool_schedule(prefix);
        let c = calls.last();
        let r = spec_tool_schedule(calls);
        if b.len() == 0 {
        } else if !spec_tool_batch_conflicts(b.last(), c.claims@) {
            assert forall|x: int, i: int, j: int, p: int, q: int|
                0 <= x < r.len() && 0 <= i < j < r[x].len() && 0 <= p < r[x][i].claims@.len() && 0 <= q
                    < r[x][j].claims@.len() && (#[trigger] r[x][i].claims@[p]).resource@
                    == (#[trigger] r[x][j].claims@[q]).resource@ implies r[x][i].claims@[p].access
                == ResourceAccess::ReadOnly && r[x][j].claims@[q].access == ResourceAccess::ReadOnly by {
                if x == r.len() - 1 {
                    assert(r[x][i] == b.last()[i]);
                    if j == r[x].len() - 1 {
                        assert(r[x][j] == c);
                        assert(!spec_resource_claims_conflict(b.last()[i].claims@, c.claims@));
                        assert(!spec_resource_pair_conflicts(b.last()[i].claims@[p], c.claims@[q]));
                    } else {
                        assert(r[x][j] == b.last()[j]);
                        assert(b[b.len() - 1] == b.last());
                        assert(b[b.len() - 1][i].claims@[p] == r[x][i].claims@[p]);
                        assert(b[b.len() - 1][j].claims@[q] == r[x][j].claims@[q]);
                    }
                } else {
                    assert(r[x] == b[x]);
                    assert(b[x][i].claims@[p] == r[x][i].claims@[p]);
                    assert(b[x][j].claims@[q] == r[x][j].claims@[q]);
                }
            }
        } else {
            assert forall|x: int, i: int, j: int, p: int, q: int|
                0 <= x < r.len() && 0 <= i < j < r[x].len() && 0 <= p < r[x][i].claims@.len() && 0 <= q
                    < r[x][j].claims@.len() && (#[trigger] r[x][i].claims@[p]).resource@
                    == (#[trigger] r[x][j].claims@[q]).resource@ implies r[x][i].claims@[p].access
                == ResourceAccess::ReadOnly && r[x][j].claims@[q].access == ResourceAccess::ReadOnly by {
                assert(x < b.len());
                assert(r[x] == b[x]);
                assert(b[x][i].claims@[p] == r[x][i].claims@[p]);
                assert(b[x][j].claims@[q] == r[x][j].claims@[q]);
            }
        }
    }
}

/// A call with an exclusive claim runs in a batch of its own.
pub proof fn lemma_exclusive_claim_runs_alone<T>(calls: Seq<ScheduledCall<T>>)
    ensures
        forall|x: int, i: int, p: int|
            0 <= x < spec_tool_schedule(calls).len() && 0 <= i < spec_tool_schedule(calls)[x].len() && 0
                <= p < spec_tool_schedule(calls)[x][i].claims@.len() && (#[trigger] spec_tool_schedule(
                calls,
            )[x][i].claims@[p]).access == ResourceAccess::Exclusive ==> spec_tool_schedule(calls)[x].len()
                == 1,
{
    lemma_exclusive_runs_alone(calls);
    let r = spec_tool_schedule(calls);
    assert forall|x: int, i: int, p: int|
        0 <= x < r.len() && 0 <= i < r[x].len() && 0 <= p < r[x][i].claims@.len() && (
        #[trigger] r[x][i].claims@[p]).access == ResourceAccess::Exclusive implies r[x].len() == 1 by {
        assert(spec_has_exclusive_resource(r[x][i].claims@));
    }
}

/// Whether a call may not join a batch: it or a call of the batch holds an
/// exclusive claim, or the two touch one resource and not both only read it.
pub open spec fn must_wait_for<T>(batch: Seq<ScheduledCall<T>>, c: ScheduledCall<T>) -> bool {
    ||| exists|q: int| 0 <= q < c.claims@.len() && (#[trigger] c.claims@[q]).access == ResourceAccess::Exclusive
    ||| exists|k: int, p: int|
        0 <= k < batch.len() && 0 <= p < batch[k].claims@.len() && (#[trigger] batch[k].claims@[p]).access
            == ResourceAccess::Exclusive
    ||| exists|k: int, p: int, q: int|
        0 <= k < batch.len() && 0 <= p < batch[k].claims@.len() && 0 <= q < c.claims@.len() && (
        #[trigger] batch[k].claims@[p]).resource@ == (#[trigger] c.claims@[q]).resource@ && !(
        batch[k].claims@[p].access == ResourceAccess::ReadOnly && c.claims@[q].access
            == ResourceAccess::ReadOnly)
}

/// Batches are never empty, and a call opens a new batch only when it must
/// wait for the batch before it: calls that may run side by side are not
/// split apart.
pub proof fn lemma_new_batch_only_when_waiting<T>(calls: Seq<ScheduledCall<T>>)
    ensures
        forall|x: int| 0 <= x < spec_tool_schedule(calls).len() ==> #[trigger] spec_tool_schedule(calls)[x].len() > 0,
        forall|x: int|
            0 < x < spec_tool_schedule(calls).len() ==> must_wait_for(
                spec_tool_schedule(calls)[x - 1],
                #[trigger] spec_tool_schedule(calls)[x][0],
            ),
    decreases calls.len(),
{
    if calls.len() > 0 {
        let prefix = calls.drop_last();
        lemma_new_batch_only_when_waiting(prefix);
        let b = spec_tool_schedule(prefix);
        let c = calls.last();
        let r = spec_tool_schedule(calls);
        if b.len() == 0 {
            assert(r =~= seq![seq![c]]);
        } else if !spec_tool_batch_conflicts(b.last(), c.claims@) {
            assert forall|x: int| 0 <= x < r.len() implies #[trigger] r[x].len() > 0 by {
                if x < b.len() - 1 {
                    assert(r[x] == b[x]);
                }
            }
            assert forall|x: int| 0 < x < r.len() implies must_wait_for(r[x - 1], #[trigger] r[x][0]) by {
                if x == r.len() - 1 {
                    assert(b[x].len() > 0);
                    assert(r[x][0] == b[x][0]);
                    if x - 1 < b.len() - 1 {
                        assert(r[x - 1] == b[x - 1]);
                    }
                    assert(must_wait_for(b[x - 1], b[x][0]));
                } else {
                    assert(r[x] == b[x]);
                    assert(r[x - 1] == b[x - 1]);
                    assert(must_wait_for(b[x - 1], b[x][0]));
                }
            }
        } else {
            assert forall|x: int| 0 <= x < r.len() implies #[trigger] r[x].len() > 0 by {
                if x < b.len() {
                    assert(r[x] == b[x]);
                }
            }
            assert forall|x: int| 0 < x < r.len() implies must_wait_for(r[x - 1], #[trigger] r[x][0]) by {
                if x == r.len() - 1 {
                    let last = b.last();
                    assert(r[x - 1] == last);
                    assert(r[x][0] == c);
                    if spec_has_exclusive_resource(c.claims@) {
                        let q = choose|q: int| 0 <= q < c.claims@.len() && c.claims@[q].access == ResourceAccess::Exclusive;
                        assert(c.claims@[q].access == ResourceAccess::Exclusive);
                    } else if exists|k: int| 0 <= k < last.len() && spec_has_exclusive_resource(last[k].claims@) {
                        let k = choose|k: int| 0 <= k < last.len() && spec_has_exclusive_resource(last[k].claims@);
                        let p = choose|p: int| 0 <= p < last[k].claims@.len() && last[k].claims@[p].access == ResourceAccess::Exclusive;
                        assert(last[k].claims@[p].access == ResourceAccess::Exclusive);
                    } else {
                        let k = choose|k: int| 0 <= k < last.len() && spec_resource_claims_conflict(last[k].claims@, c.claims@);
                        let (p, q) = choose|p: int, q: int|
                            0 <= p < last[k].claims@.len() && 0 <= q < c.claims@.len()
                                && spec_resource_pair_conflicts(last[k].claims@[p], c.claims@[q]);
                        assert(last[k].claims@[p].resource@ == c.claims@[q].resource@);
                    }
                } else {
                    assert(r[x] == b[x]);
                    assert(r[x - 1] == b[x - 1]);
                    assert(must_wait_for(b[x - 1], b[x][0]));
                }
            }
        }
    }
}

} // verus!
