use vstd::prelude::*;

use crate::capability::{spec_conflicting, CapabilityClaim, ConflictPolicy};

verus! {

/// A call waiting to be scheduled, with the resource claims it makes.
#[derive(Debug, PartialEq, Eq)]
pub struct ScheduledCall<T> {
    pub item: T,
    pub claims: Vec<CapabilityClaim>,
}

/// Some call already in the batch conflicts with `claims`.
pub open spec fn spec_batch_conflicts<T>(batch: Seq<ScheduledCall<T>>, claims: Seq<CapabilityClaim>) -> bool {
    exists|k: int| 0 <= k < batch.len() && spec_conflicting(batch[k].claims@, claims)
}

/// Greedy batching in arrival order: a call joins the current batch unless it
/// conflicts with a call already there, in which case it opens a new batch.
pub open spec fn spec_schedule<T>(calls: Seq<ScheduledCall<T>>) -> Seq<Seq<ScheduledCall<T>>>
    decreases calls.len(),
{
    if calls.len() == 0 {
        Seq::empty()
    } else {
        let b = spec_schedule(calls.drop_last());
        let c = calls.last();
        if b.len() == 0 {
            seq![seq![c]]
        } else if !spec_batch_conflicts(b.last(), c.claims@) {
            b.update(b.len() - 1, b.last().push(c))
        } else {
            b.push(seq![c])
        }
    }
}

pub open spec fn batch_views<T>(batches: Seq<Vec<ScheduledCall<T>>>) -> Seq<Seq<ScheduledCall<T>>> {
    batches.map_values(|v: Vec<ScheduledCall<T>>| v@)
}

fn batch_conflicts<T>(batch: &[ScheduledCall<T>], claims: &[CapabilityClaim]) -> (r: bool)
    ensures
        r == spec_batch_conflicts(batch@, claims@),
{
    let mut k: usize = 0;
    while k < batch.len()
        invariant
            k <= batch@.len(),
            forall|j: int| 0 <= j < k ==> !spec_conflicting(batch@[j].claims@, claims@),
        decreases batch@.len() - k,
    {
        if ConflictPolicy::from_claims(batch[k].claims.as_slice(), claims).is_conflicting() {
            return true;
        }
        k += 1;
    }
    false
}

/// Splits calls into consecutive batches whose members may run side by side.
pub fn schedule_batches<T>(calls: Vec<ScheduledCall<T>>) -> (r: Vec<Vec<ScheduledCall<T>>>)
    ensures
        batch_views(r@) == spec_schedule(calls@),
{
    let mut batches: Vec<Vec<ScheduledCall<T>>> = Vec::new();
    let mut current: Vec<ScheduledCall<T>> = Vec::new();
    let ghost all = calls@;
    let ghost mut n: int = 0;
    for call in it: calls
        invariant
            it.seq() == all,
            n == it.index(),
            0 <= n <= all.len(),
            (if current@.len() == 0 {
                batch_views(batches@)
            } else {
                batch_views(batches@).push(current@)
            }) == spec_schedule(all.take(n as int)),
            current@.len() == 0 ==> n == 0 && batches@.len() == 0,
    {
        proof {
            assert(all.take(n + 1).drop_last() =~= all.take(n));
            assert(all.take(n + 1).last() == call);
        }
        let ghost prev_views = batch_views(batches@);
        let ghost prev_current = current@;
        if current.len() == 0 {
            current.push(call);
            proof {
                assert(prev_views =~= Seq::<Seq<ScheduledCall<T>>>::empty());
                assert(spec_schedule(all.take(n)) =~= Seq::<Seq<ScheduledCall<T>>>::empty());
                assert(current@ =~= seq![call]);
                assert(batch_views(batches@).push(current@) =~= spec_schedule(all.take(n + 1)));
            }
        } else if !batch_conflicts(current.as_slice(), call.claims.as_slice()) {
            current.push(call);
            proof {
                let b = spec_schedule(all.take(n));
                assert(b == prev_views.push(prev_current));
                assert(b.last() == prev_current);
                assert(batch_views(batches@).push(current@) =~= spec_schedule(all.take(n + 1)));
            }
        } else {
            let ghost old_views = batch_views(batches@);
            let finished = current;
            proof {
                let b = spec_schedule(all.take(n));
                assert(b == prev_views.push(prev_current));
            }
            batches.push(finished);
            current = Vec::new();
            current.push(call);
            proof {
                assert(batch_views(batches@) =~= old_views.push(finished@));
                assert(batch_views(batches@).push(current@) =~= spec_schedule(all.take(n + 1)));
            }
        }
        proof {
            n = n + 1;
        }
    }
    assert(all.take(all.len() as int) =~= all);
    if current.len() > 0 {
        let ghost old_views = batch_views(batches@);
        batches.push(current);
        assert(batch_views(batches@) =~= old_views.push(current@));
    }
    batches
}

/// All calls of a batch sequence, in order.
pub open spec fn flatten_batches<T>(batches: Seq<Seq<ScheduledCall<T>>>) -> Seq<ScheduledCall<T>>
    decreases batches.len(),
{
    if batches.len() == 0 {
        Seq::empty()
    } else {
        flatten_batches(batches.drop_last()) + batches.last()
    }
}

/// Batching keeps every call exactly once and in arrival order, and never makes
/// an empty batch.
pub proof fn lemma_schedule_preserves_calls<T>(calls: Seq<ScheduledCall<T>>)
    ensures
        flatten_batches(spec_schedule(calls)) == calls,
        forall|b: int| 0 <= b < spec_schedule(calls).len() ==> #[trigger] spec_schedule(calls)[b].len() > 0,
    decreases calls.len(),
{
    if calls.len() > 0 {
        let prefix = calls.drop_last();
        lemma_schedule_preserves_calls(prefix);
        let b = spec_schedule(prefix);
        let c = calls.last();
        if b.len() == 0 {
            assert(prefix.len() == 0);
            assert(calls =~= seq![c]);
            let r = seq![seq![c]];
            assert(r.drop_last() =~= Seq::<Seq<ScheduledCall<T>>>::empty());
            assert(flatten_batches(r) =~= seq![c]);
        } else if !spec_batch_conflicts(b.last(), c.claims@) {
            let r = b.update(b.len() - 1, b.last().push(c));
            assert(r.drop_last() =~= b.drop_last());
            assert(flatten_batches(b) == flatten_batches(b.drop_last()) + b.last());
            assert(flatten_batches(r) =~= flatten_batches(b) .push(c));
            assert(calls =~= prefix.push(c));
        } else {
            let r = b.push(seq![c]);
            assert(r.drop_last() =~= b);
            assert(flatten_batches(r) =~= flatten_batches(b).push(c));
            assert(calls =~= prefix.push(c));
        }
    }
}

/// Within a batch, no call conflicts with a call that came before it.
pub proof fn lemma_batches_conflict_free<T>(calls: Seq<ScheduledCall<T>>)
    ensures
        forall|b: int, i: int, j: int|
            0 <= b < spec_schedule(calls).len() && 0 <= i < j < spec_schedule(calls)[b].len()
                ==> !spec_conflicting(
                #[trigger] spec_schedule(calls)[b][i].claims@,
                #[trigger] spec_schedule(calls)[b][j].claims@,
            ),
    decreases calls.len(),
{
    if calls.len() > 0 {
        let prefix = calls.drop_last();
        lemma_batches_conflict_free(prefix);
        let b = spec_schedule(prefix);
        let c = calls.last();
        let r = spec_schedule(calls);
        if b.len() == 0 {
        } else if !spec_batch_conflicts(b.last(), c.claims@) {
            assert forall|x: int, i: int, j: int|
                0 <= x < r.len() && 0 <= i < j < r[x].len() implies !spec_conflicting(
                #[trigger] r[x][i].claims@,
                #[trigger] r[x][j].claims@,
            ) by {
                if x == r.len() - 1 && j == r[x].len() - 1 {
                    assert(r[x][j] == c);
                    assert(r[x][i] == b.last()[i]);
                    if spec_conflicting(r[x][i].claims@, c.claims@) {
                        assert(spec_batch_conflicts(b.last(), c.claims@));
                    }
                } else {
                    assert(r[x][i] == b[x][i]);
                    assert(r[x][j] == b[x][j]);
                }
            }
        } else {
            assert forall|x: int, i: int, j: int|
                0 <= x < r.len() && 0 <= i < j < r[x].len() implies !spec_conflicting(
                #[trigger] r[x][i].claims@,
                #[trigger] r[x][j].claims@,
            ) by {
                assert(x < b.len());
                assert(r[x] == b[x]);
            }
        }
    }
}

/// A new batch is only opened for a call that conflicts with the batch before it.
pub proof fn lemma_batches_are_greedy<T>(calls: Seq<ScheduledCall<T>>)
    ensures
        forall|b: int|
            1 <= b < spec_schedule(calls).len() ==> spec_batch_conflicts(
                spec_schedule(calls)[b - 1],
                (#[trigger] spec_schedule(calls)[b])[0].claims@,
            ),
    decreases calls.len(),
{
    if calls.len() > 0 {
        let prefix = calls.drop_last();
        lemma_batches_are_greedy(prefix);
        lemma_schedule_preserves_calls(prefix);
        let b = spec_schedule(prefix);
        let c = calls.last();
        let r = spec_schedule(calls);
        if b.len() == 0 {
        } else if !spec_batch_conflicts(b.last(), c.claims@) {
            assert forall|x: int| 1 <= x < r.len() implies spec_batch_conflicts(
                r[x - 1],
                (#[trigger] r[x])[0].claims@,
            ) by {
                assert(b[x].len() > 0);
                assert(r[x][0] == b[x][0]);
                if x == r.len() - 1 {
                    assert(spec_batch_conflicts(b[x - 1], b[x][0].claims@));
                    assert(r[x - 1] == b[x - 1]);
                } else {
                    assert(r[x - 1] == b[x - 1]);
                    assert(r[x] == b[x]);
                }
            }
        } else {
            assert forall|x: int| 1 <= x < r.len() implies spec_batch_conflicts(
                r[x - 1],
                (#[trigger] r[x])[0].claims@,
            ) by {
                if x == r.len() - 1 {
                    assert(r[x - 1] == b.last());
                    assert(r[x][0] == c);
                } else {
                    assert(r[x - 1] == b[x - 1]);
                    assert(r[x] == b[x]);
                }
            }
        }
    }
}

} // verus!
