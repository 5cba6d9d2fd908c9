//! Recovery: an expired run is handed on once, within its attempts.
use vstd::prelude::*;

use crate::consistency;
use crate::ids::RunId;
use crate::models::SchedulerRun;
use crate::laws::keeping;
use crate::selection;
use crate::store::finalize;
use crate::store::reap;
use crate::tables;
use crate::tables::TablesView;
use crate::time::Timestamp;

verus! {

/// Every expired run that a recovery takes is recovered: it is pending and
/// available at once where attempts are left, and failed otherwise. No other run
/// changes.
pub proof fn law_recovery_hands_on_or_fails(
    v: TablesView,
    wall: Timestamp,
    limit: nat,
    after: TablesView,
    summary: reap::RecoverySummary,
    i: int,
)
    requires
        consistency::consistent(v),
        reap::recovery(v, wall, limit, after, summary),
        0 <= i < v.runs.len(),
    ensures
        after.runs.len() == v.runs.len(),
        !reap::recoverable(v, wall, limit).contains(v.runs[i].id) ==> after.runs[i] == v.runs[i],
        reap::recoverable(v, wall, limit).contains(v.runs[i].id) ==> {
            &&& reap::expired(v.runs[i], wall)
            &&& v.runs[i].attempt_count < v.runs[i].max_attempts ==> after.runs[i].state
                is Pending && after.runs[i].available_at == wall
            &&& v.runs[i].attempt_count >= v.runs[i].max_attempts ==> after.runs[i].state
                is Failed && after.runs[i].finished_at == Some(wall)
                && after.runs[i].last_error is Some && after.runs[i].last_error->0@
                == "lease expired; max attempts exhausted"@
        },
{
    let ids = reap::recoverable(v, wall, limit);
    if ids.contains(v.runs[i].id) {
        lemma_taken_recovers(v, wall, limit, i);
    }
}

/// In consistent tables whatever a recovery takes has an attempt to interrupt.
pub proof fn lemma_taken_recovers(v: TablesView, wall: Timestamp, limit: nat, i: int)
    requires
        consistency::consistent(v),
        0 <= i < v.runs.len(),
        reap::recoverable(v, wall, limit).contains(v.runs[i].id),
    ensures
        reap::expired(v.runs[i], wall),
        reap::recovers(v, reap::recoverable(v, wall, limit), v.runs[i].id),
{
    let ids = reap::recoverable(v, wall, limit);
    let p = |r: SchedulerRun| reap::expired(r, wall);
    let key = |r: SchedulerRun| reap::expiry_rank(r);
    consistency::lemma_distinct(v);
    selection::lemma_selected_distinct(v.runs, p, key, limit);
    assert(p(v.runs[i]));
    consistency::lemma_position(v, i);
    let n = choose|n: int| 0 <= n < ids.len() && ids[n] == v.runs[i].id;
    let k = consistency::lemma_one_live_attempt(v, i);
    assert(consistency::run_ok(v.runs[i]));
    assert(v.run(ids[n])->0.lease_token == Some(v.attempts[k].lease_token));
    assert(reap::covers(v, ids, v.attempts[k].lease_token));
    assert(reap::interrupted(v, ids, v.attempts[k]));
}

/// A run that a recovery took is taken by no recovery after it, until it has been
/// claimed and has expired again.
pub proof fn law_no_run_is_recovered_twice(
    v: TablesView,
    wall: Timestamp,
    limit: nat,
    after: TablesView,
    summary: reap::RecoverySummary,
    later: Timestamp,
    other_limit: nat,
    i: int,
)
    requires
        consistency::consistent(v),
        reap::recovery(v, wall, limit, after, summary),
        0 <= i < v.runs.len(),
        reap::recoverable(v, wall, limit).contains(v.runs[i].id),
    ensures
        !reap::recoverable(after, later, other_limit).contains(v.runs[i].id),
{
    law_recovery_hands_on_or_fails(v, wall, limit, after, summary, i);
    keeping::law_recovery_keeps_consistency(v, wall, limit, after, summary);
    let again = reap::recoverable(after, later, other_limit);
    if again.contains(v.runs[i].id) {
        assert(after.runs[i].id == v.runs[i].id);
        lemma_taken_recovers(after, later, other_limit, i);
    }
}

/// Splitting a count by a second condition.
proof fn lemma_count_split<T>(
    rows: Seq<T>,
    p: spec_fn(T) -> bool,
    q: spec_fn(T) -> bool,
    both: spec_fn(T) -> bool,
)
    requires
        forall|r: T| #[trigger] both(r) <==> p(r) || q(r),
        forall|r: T| !(#[trigger] p(r) && q(r)),
    ensures
        tables::count_where(rows, both) == tables::count_where(rows, p) + tables::count_where(
            rows,
            q,
        ),
    decreases rows.len(),
{
    if rows.len() > 0 {
        lemma_count_split(rows.drop_last(), p, q, both);
        let r = rows.last();
        assert(both(r) <==> p(r) || q(r));
        assert(!(p(r) && q(r)));
    }
}

/// Counting equal conditions.
pub proof fn lemma_count_same<T>(rows: Seq<T>, p: spec_fn(T) -> bool, q: spec_fn(T) -> bool)
    requires
        forall|j: int| 0 <= j < rows.len() ==> p(#[trigger] rows[j]) == q(rows[j]),
    ensures
        tables::count_where(rows, p) == tables::count_where(rows, q),
    decreases rows.len(),
{
    if rows.len() > 0 {
        let init = rows.drop_last();
        assert forall|j: int| 0 <= j < init.len() implies p(#[trigger] init[j]) == q(init[j]) by {
            assert(init[j] == rows[j]);
        }
        lemma_count_same(init, p, q);
        assert(p(rows[rows.len() - 1]) == q(rows[rows.len() - 1]));
    }
}

/// As many rows have one of the distinct `ids` as there are `ids`.
pub proof fn lemma_count_ids(runs: Seq<SchedulerRun>, ids: Seq<RunId>)
    requires
        selection::distinct_runs(runs),
        ids.no_duplicates(),
        forall|i: int|
            0 <= i < ids.len() ==> exists|j: int|
                0 <= j < runs.len() && (#[trigger] runs[j]).id == #[trigger] ids[i],
    ensures
        tables::count_where(runs, |r: SchedulerRun| ids.contains(r.id)) == ids.len(),
    decreases ids.len(),
{
    let p = |r: SchedulerRun| ids.contains(r.id);
    if ids.len() == 0 {
        assert forall|j: int| 0 <= j < runs.len() implies !p(#[trigger] runs[j]) by {}
        consistency::lemma_count_none(runs, p);
    } else {
        let init = ids.drop_last();
        let last = ids.last();
        assert forall|i: int| 0 <= i < init.len() implies exists|j: int|
            0 <= j < runs.len() && (#[trigger] runs[j]).id == #[trigger] init[i] by {
            assert(init[i] == ids[i]);
        }
        lemma_count_ids(runs, init);
        let q = |r: SchedulerRun| init.contains(r.id);
        let one = |r: SchedulerRun| r.id == last;
        assert(ids[ids.len() - 1] == last);
        let at = choose|j: int| 0 <= j < runs.len() && (#[trigger] runs[j]).id == last;
        assert forall|j: int| 0 <= j < runs.len() && j != at implies !one(#[trigger] runs[j]) by {
            if j < at {
                assert(runs[j].id != runs[at].id);
            } else {
                assert(runs[at].id != runs[j].id);
            }
        }
        consistency::lemma_count_one(runs, one, at);
        assert forall|r: SchedulerRun| #[trigger] p(r) <==> q(r) || one(r) by {
            if q(r) {
                let i = choose|i: int| 0 <= i < init.len() && init[i] == r.id;
                assert(ids[i] == r.id);
            }
            if one(r) {
                assert(ids[ids.len() - 1] == r.id);
            }
            if p(r) {
                let i = choose|i: int| 0 <= i < ids.len() && ids[i] == r.id;
                if i < init.len() {
                    assert(init[i] == r.id);
                }
            }
        }
        assert forall|r: SchedulerRun| !(#[trigger] q(r) && one(r)) by {
            if q(r) && one(r) {
                let i = choose|i: int| 0 <= i < init.len() && init[i] == r.id;
                assert(ids[i] == ids[ids.len() - 1]);
            }
        }
        lemma_count_split(runs, q, one, p);
    }
}

/// The summary of a recovery accounts for every run it took, at most `limit`.
pub proof fn law_recovery_accounts_for_every_run(
    v: TablesView,
    wall: Timestamp,
    limit: nat,
    after: TablesView,
    summary: reap::RecoverySummary,
)
    requires
        consistency::consistent(v),
        reap::recovery(v, wall, limit, after, summary),
    ensures
        summary.requeued + summary.failed == reap::recoverable(v, wall, limit).len(),
        summary.requeued + summary.failed <= limit,
{
    let ids = reap::recoverable(v, wall, limit);
    let p = |r: SchedulerRun| reap::expired(r, wall);
    let key = |r: SchedulerRun| reap::expiry_rank(r);
    consistency::lemma_distinct(v);
    selection::lemma_selected(v.runs, p, key, limit);
    selection::lemma_selected_distinct(v.runs, p, key, limit);
    let again = |r: SchedulerRun| reap::recovers(v, ids, r.id) && reap::has_attempts_left(r);
    let over = |r: SchedulerRun| reap::recovers(v, ids, r.id) && !reap::has_attempts_left(r);
    let either = |r: SchedulerRun| reap::recovers(v, ids, r.id);
    let taken = |r: SchedulerRun| ids.contains(r.id);
    lemma_count_split(v.runs, again, over, either);
    assert forall|j: int| 0 <= j < v.runs.len() implies either(#[trigger] v.runs[j]) == taken(
        v.runs[j],
    ) by {
        if ids.contains(v.runs[j].id) {
            lemma_taken_recovers(v, wall, limit, j);
        }
    }
    lemma_count_same(v.runs, either, taken);
    assert forall|i: int| 0 <= i < ids.len() implies exists|j: int|
        0 <= j < v.runs.len() && (#[trigger] v.runs[j]).id == #[trigger] ids[i] by {
        consistency::lemma_found(v, ids[i]);
        assert(v.runs[v.run_position(ids[i])].id == ids[i]);
    }
    lemma_count_ids(v.runs, ids);
}

/// The longest expired runs are recovered first: an expired run is left only where
/// the batch is full of runs that expired no later.
pub proof fn law_recovery_takes_the_longest_expired(
    v: TablesView,
    wall: Timestamp,
    limit: nat,
    left: int,
    taken: int,
)
    requires
        consistency::consistent(v),
        0 <= left < v.runs.len(),
        0 <= taken < v.runs.len(),
        reap::expired(v.runs[left], wall),
        !reap::recoverable(v, wall, limit).contains(v.runs[left].id),
        reap::recoverable(v, wall, limit).contains(v.runs[taken].id),
    ensures
        reap::recoverable(v, wall, limit).len() == limit,
        v.runs[taken].lease_expires_at->0.micros <= v.runs[left].lease_expires_at->0.micros,
{
    let p = |r: SchedulerRun| reap::expired(r, wall);
    let key = |r: SchedulerRun| reap::expiry_rank(r);
    consistency::lemma_distinct(v);
    selection::lemma_selected_distinct(v.runs, p, key, limit);
    assert(p(v.runs[left]));
    assert(p(v.runs[taken]));
}

/// An ended run is never recovered: it stays as it is.
pub proof fn law_ended_runs_are_not_recovered(
    v: TablesView,
    wall: Timestamp,
    limit: nat,
    after: TablesView,
    summary: reap::RecoverySummary,
    done: RunId,
)
    requires
        consistency::consistent(v),
        reap::recovery(v, wall, limit, after, summary),
        finalize::is_over(v, done),
    ensures
        after.run(done) == v.run(done),
{
    consistency::lemma_found(v, done);
    let i = v.run_position(done);
    law_recovery_hands_on_or_fails(v, wall, limit, after, summary, i);
    keeping::law_recovery_keeps_consistency(v, wall, limit, after, summary);
    consistency::lemma_distinct(after);
    consistency::lemma_position(after, i);
}

} // verus!
