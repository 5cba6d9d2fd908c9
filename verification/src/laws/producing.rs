//! Producing and retaining tasks: what is enqueued is there to be claimed, once
//! for each key, and only ended tasks are ever deleted.
use vstd::prelude::*;

use crate::consistency;
use crate::error::SchedulerError;
use crate::ids::{JobName, LeaseToken, RunId};
use crate::laws::fencing;
use crate::laws::keeping;
use crate::laws::recovery;
use crate::models::{AttemptRow, Outcome, SchedulerRun};
use crate::queue;
use crate::queue::EnqueuedTask;
use crate::selection;
use crate::store::claim;
use crate::store::finalize;
use crate::tables;
use crate::tables::TablesView;
use crate::time;
use crate::time::Timestamp;

verus! {

/// A new task is there under its identifier, pending and without attempts. It can
/// be claimed from its availability on, and not before.
pub proof fn law_an_enqueued_task_can_be_claimed(
    v: TablesView,
    now: Timestamp,
    id: RunId,
    name: JobName,
    args: serde_json::Value,
    options: queue::OptionsView,
    names: Seq<String>,
    later: Timestamp,
)
    requires
        !v.has_run(id),
        options.key is Some ==> !v.has_keyed(name@, options.key->0@),
        claim::named_in(names, name@),
    ensures
        ({
            let (after, res) = queue::enqueue_effect(v, now, id, name, args, options);
            let from = match options.available_at {
                Some(at) => at,
                None => now,
            };
            &&& res == Ok::<EnqueuedTask, SchedulerError>(EnqueuedTask { task_id: id })
            &&& after.run(id) == Some(queue::enqueued_run(id, name, args, options, now))
            &&& claim::claimable(after.run(id)->0, names, later) <==> from.micros <= later.micros
            &&& forall|i: int| 0 <= i < v.runs.len() ==> #[trigger] after.runs[i] == v.runs[i]
        }),
{
    let after = queue::enqueue_effect(v, now, id, name, args, options).0;
    let p = |r: SchedulerRun| r.id == id;
    tables::lemma_first_position(v.runs, p);
    assert forall|j: int| 0 <= j < v.runs.len() implies !p(#[trigger] after.runs[j]) by {
        assert(!p(v.runs[j]));
    }
    tables::lemma_is_first_position(after.runs, p, v.runs.len() as int);
}

/// A run that failed for another attempt can be claimed again from the end of its
/// backoff on, and not before.
pub proof fn law_a_retry_waits_for_its_backoff(
    v: TablesView,
    wall: Timestamp,
    id: RunId,
    token: LeaseToken,
    error: String,
    names: Seq<String>,
    later: Timestamp,
)
    requires
        consistency::consistent(v),
        finalize::held(v, id, token, wall),
        v.run(id)->0.attempt_count < v.run(id)->0.max_attempts,
        time::instant_after(wall, v.run(id)->0.retry_backoff) is Some,
        claim::named_in(names, v.run(id)->0.job_name@),
    ensures
        ({
            let after = finalize::fail_effect(v, wall, id, token, error, true).0;
            let from = time::instant_after(wall, v.run(id)->0.retry_backoff)->0;
            &&& after.has_run(id)
            &&& claim::claimable(after.run(id)->0, names, later) <==> from.micros <= later.micros
            &&& after.run(id)->0.attempt_count == v.run(id)->0.attempt_count
        }),
{
    consistency::lemma_found(v, id);
    fencing::law_the_holder_is_served(v, wall, id, token, Outcome::Completed, error, true);
    let after = finalize::fail_effect(v, wall, id, token, error, true).0;
    fencing::lemma_replaced(v, after.runs[v.run_position(id)], after);
}

/// Enqueueing a task again under a key that is taken changes nothing and gives the
/// identifier of the task that is there.
pub proof fn law_a_key_is_enqueued_once(
    v: TablesView,
    now: Timestamp,
    id: RunId,
    name: JobName,
    args: serde_json::Value,
    options: queue::OptionsView,
    later: Timestamp,
    other_id: RunId,
    other_name: JobName,
    other_args: serde_json::Value,
    other: queue::OptionsView,
)
    requires
        options.key is Some,
        other.key is Some,
        other.key->0@ == options.key->0@,
        other_name@ == name@,
        queue::enqueue_effect(v, now, id, name, args, options).1 is Ok,
    ensures
        ({
            let first = queue::enqueue_effect(v, now, id, name, args, options);
            queue::enqueue_effect(first.0, later, other_id, other_name, other_args, other) == (
                first.0,
                first.1,
            )
        }),
{
    let after = queue::enqueue_effect(v, now, id, name, args, options).0;
    let key = options.key->0@;
    let p = |r: SchedulerRun| tables::is_keyed(r, name@, key);
    tables::lemma_first_position(v.runs, p);
    if !v.has_keyed(name@, key) {
        assert forall|j: int| 0 <= j < v.runs.len() implies !p(#[trigger] after.runs[j]) by {
            assert(!p(v.runs[j]));
        }
        assert(p(after.runs[v.runs.len() as int]));
        tables::lemma_is_first_position(after.runs, p, v.runs.len() as int);
    }
}

/// A key stays taken as long as its run is there, in whatever state: rows that
/// change in place keep it.
pub proof fn law_a_key_stays_taken(
    v: TablesView,
    u: TablesView,
    name: Seq<char>,
    key: Seq<char>,
)
    requires
        consistency::same_runs(v, u),
    ensures
        v.has_keyed(name, key) == u.has_keyed(name, key),
        v.has_keyed(name, key) ==> v.runs[v.keyed_position(name, key)].id
            == u.runs[u.keyed_position(name, key)].id,
{
    let p = |r: SchedulerRun| tables::is_keyed(r, name, key);
    tables::lemma_first_position(v.runs, p);
    let at = v.keyed_position(name, key);
    assert forall|j: int| 0 <= j < at implies !p(#[trigger] u.runs[j]) by {
        assert(consistency::same_run(v.runs[j], u.runs[j]));
        assert(!p(v.runs[j]));
    }
    if at < v.runs.len() {
        assert(consistency::same_run(v.runs[at], u.runs[at]));
        assert(p(u.runs[at]));
    }
    tables::lemma_is_first_position(u.runs, p, at);
}

/// Pruning deletes ended runs only, at most `limit`, all of which ended before the
/// cutoff, and every attempt of a run goes with the run and only with it.
pub proof fn law_pruning_deletes_only_ended_runs(v: TablesView, before: Timestamp, limit: nat)
    requires
        consistency::consistent(v),
    ensures
        ({
            let after = queue::without(v, queue::doomed(v, before, limit));
            &&& v.runs.len() - after.runs.len() == queue::doomed(v, before, limit).len()
            &&& v.runs.len() - after.runs.len() <= limit
            &&& forall|i: int|
                0 <= i < v.runs.len() && !queue::prunable(v.runs[i], before)
                    ==> after.runs.contains(#[trigger] v.runs[i])
            &&& forall|i: int|
                0 <= i < v.runs.len() && !after.runs.contains(#[trigger] v.runs[i])
                    ==> v.runs[i].state.terminal() && v.runs[i].finished_at->0.micros
                    < before.micros
            &&& forall|k: int|
                0 <= k < v.attempts.len() ==> (after.attempts.contains(#[trigger] v.attempts[k])
                    <==> after.has_run(v.attempts[k].run_id))
        }),
{
    let ids = queue::doomed(v, before, limit);
    let after = queue::without(v, ids);
    let p = |r: SchedulerRun| queue::prunable(r, before);
    let key = |r: SchedulerRun| queue::prune_rank(r);
    let kept = |r: SchedulerRun| !ids.contains(r.id);
    let lost = |r: SchedulerRun| ids.contains(r.id);
    let still = |a: AttemptRow| !ids.contains(a.run_id);
    consistency::lemma_distinct(v);
    selection::lemma_selected(v.runs, p, key, limit);
    selection::lemma_selected_distinct(v.runs, p, key, limit);
    let from = keeping::lemma_filter_positions(v.runs, kept);
    let attempts_from = keeping::lemma_filter_positions(v.attempts, still);
    assert forall|i: int| 0 <= i < v.runs.len() && kept(#[trigger] v.runs[i]) implies
        after.runs.contains(v.runs[i]) by {
        let n = choose|n: int| 0 <= n < from.len() && from[n] == i;
        assert(after.runs[n] == v.runs[i]);
    }
    assert forall|i: int| 0 <= i < v.runs.len() && lost(#[trigger] v.runs[i]) implies p(
        v.runs[i],
    ) by {}
    assert forall|k: int| 0 <= k < v.attempts.len() implies (after.attempts.contains(
        #[trigger] v.attempts[k],
    ) <==> after.has_run(v.attempts[k].run_id)) by {
        let id = v.attempts[k].run_id;
        consistency::lemma_found(after, id);
        consistency::lemma_found(v, id);
        assert(consistency::attempt_linked(v, k));
        if still(v.attempts[k]) {
            let m = choose|m: int| 0 <= m < attempts_from.len() && attempts_from[m] == k;
            assert(after.attempts[m] == v.attempts[k]);
            let j = v.run_position(id);
            assert(kept(v.runs[j]));
            let n = choose|n: int| 0 <= n < from.len() && from[n] == j;
            assert(after.runs[n].id == id);
        } else {
            if after.has_run(id) {
                let n = after.run_position(id);
                assert(kept(v.runs[from[n]]));
            }
            if after.attempts.contains(v.attempts[k]) {
                let m = choose|m: int|
                    0 <= m < after.attempts.len() && after.attempts[m] == v.attempts[k];
                assert(still(v.attempts[attempts_from[m]]));
            }
        }
    }
    assert forall|i: int| 0 <= i < ids.len() implies exists|j: int|
        0 <= j < v.runs.len() && (#[trigger] v.runs[j]).id == #[trigger] ids[i] by {
        consistency::lemma_found(v, ids[i]);
        assert(v.runs[v.run_position(ids[i])].id == ids[i]);
    }
    recovery::lemma_count_ids(v.runs, ids);
    lemma_filter_count(v.runs, kept, lost);
}

/// What a filter drops is what its opposite counts.
proof fn lemma_filter_count<T>(rows: Seq<T>, kept: spec_fn(T) -> bool, lost: spec_fn(T) -> bool)
    requires
        forall|r: T| #[trigger] lost(r) <==> !kept(r),
    ensures
        rows.filter(kept).len() + tables::count_where(rows, lost) == rows.len(),
    decreases rows.len(),
{
    reveal(Seq::filter);
    if rows.len() > 0 {
        lemma_filter_count(rows.drop_last(), kept, lost);
        assert(lost(rows.last()) <==> !kept(rows.last()));
    }
}

} // verus!
