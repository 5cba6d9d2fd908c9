//! Asking for work and clearing it away: a task is stored as it was asked for, and
//! what has ended long enough ago is deleted. What these laws say they say of the
//! columns of the rows.
use vstd::prelude::*;

use crate::consistency;
use crate::error::{DatabaseError, SchedulerError};
use crate::ids;
use crate::ids::{JobName, RunId};
use crate::laws::keeping;
use crate::laws::producing;
use crate::laws::taking;
use crate::models::{AttemptRow, SchedulerRun};
use crate::queue;
use crate::queue::EnqueuedTask;
use crate::ranking;
use crate::selection;
use crate::store::claim;
use crate::tables;
use crate::tables::TablesView;
use crate::time::Timestamp;

verus! {

/// A new task is stored exactly as it was asked for: its name and arguments, its
/// priority, attempts, lease, backoff and key, due and available at the instant that
/// was asked for, or at once. It waits, without attempts, under the identifier that is
/// returned. Nothing else changes.
pub proof fn law_a_task_is_stored_as_asked(
    v: TablesView,
    now: Timestamp,
    id: RunId,
    name: JobName,
    args: serde_json::Value,
    options: queue::OptionsView,
)
    requires
        forall|r: int| 0 <= r < v.runs.len() ==> (#[trigger] v.runs[r]).id != id,
        options.key is Some ==> forall|r: int|
            0 <= r < v.runs.len() ==> !((#[trigger] v.runs[r]).job_name@ == name@
                && v.runs[r].deduplication_key is Some && v.runs[r].deduplication_key->0@
                == options.key->0@),
    ensures
        ({
            let (after, res) = queue::enqueue_effect(v, now, id, name, args, options);
            let row = after.runs[v.runs.len() as int];
            &&& res == Ok::<EnqueuedTask, SchedulerError>(EnqueuedTask { task_id: id })
            &&& after.jobs == v.jobs
            &&& after.attempts == v.attempts
            &&& after.runs == v.runs.push(row)
            &&& row.id == id
            &&& row.job_id is None
            &&& row.job_name == name
            &&& row.job_args == args
            &&& row.priority == options.priority
            &&& row.max_attempts == options.max_attempts
            &&& row.lease_duration == options.lease_duration
            &&& row.retry_backoff == options.retry_backoff
            &&& row.deduplication_key == options.key
            &&& row.scheduled_for == row.available_at
            &&& options.available_at is Some ==> row.available_at == options.available_at->0
            &&& options.available_at is None ==> row.available_at == now
            &&& row.state is Pending
            &&& row.attempt_count == 0
            &&& row.worker_id is None
            &&& row.lease_token is None
            &&& row.lease_expires_at is None
            &&& row.started_at is None
            &&& row.finished_at is None
            &&& row.last_error is None
            &&& row.created_at == now
            &&& row.updated_at == now
        }),
{
    consistency::lemma_found(v, id);
    if v.has_run(id) {
        assert(v.runs[v.run_position(id)].id == id);
    }
    if options.key is Some {
        let key = options.key->0@;
        let p = |r: SchedulerRun| tables::is_keyed(r, name@, key);
        tables::lemma_first_position(v.runs, p);
        if v.has_keyed(name@, key) {
            assert(p(v.runs[v.keyed_position(name@, key)]));
        }
    }
}

/// A task is not added again where one of its name has its key, whatever state that one
/// is in: nothing changes, and the identifier of that one is returned.
pub proof fn law_a_key_that_is_there_is_returned(
    v: TablesView,
    now: Timestamp,
    id: RunId,
    name: JobName,
    args: serde_json::Value,
    options: queue::OptionsView,
    r: int,
)
    requires
        consistency::consistent(v),
        options.key is Some,
        0 <= r < v.runs.len(),
        v.runs[r].job_name@ == name@,
        v.runs[r].deduplication_key is Some,
        v.runs[r].deduplication_key->0@ == options.key->0@,
    ensures
        queue::enqueue_effect(v, now, id, name, args, options) == (
            v,
            Ok::<EnqueuedTask, SchedulerError>(EnqueuedTask { task_id: v.runs[r].id }),
        ),
{
    let key = options.key->0@;
    let p = |r: SchedulerRun| tables::is_keyed(r, name@, key);
    tables::lemma_first_position(v.runs, p);
    assert(p(v.runs[r]));
    let at = v.keyed_position(name@, key);
    assert(at <= r);
    if at < r {
        assert(consistency::runs_apart(v.runs[at], v.runs[r]));
    }
}

/// A task that would be added under an identifier that a run has is refused, and
/// changes nothing.
pub proof fn law_a_taken_identifier_is_refused(
    v: TablesView,
    now: Timestamp,
    id: RunId,
    name: JobName,
    args: serde_json::Value,
    options: queue::OptionsView,
    r: int,
)
    requires
        0 <= r < v.runs.len(),
        v.runs[r].id == id,
        options.key is Some ==> forall|r: int|
            0 <= r < v.runs.len() ==> !((#[trigger] v.runs[r]).job_name@ == name@
                && v.runs[r].deduplication_key is Some && v.runs[r].deduplication_key->0@
                == options.key->0@),
    ensures
        queue::enqueue_effect(v, now, id, name, args, options) == (
            v,
            Err::<EnqueuedTask, SchedulerError>(
                SchedulerError::Database(DatabaseError::UniqueViolation),
            ),
        ),
{
    consistency::lemma_found(v, id);
    if options.key is Some {
        let key = options.key->0@;
        let p = |r: SchedulerRun| tables::is_keyed(r, name@, key);
        tables::lemma_first_position(v.runs, p);
        if v.has_keyed(name@, key) {
            assert(p(v.runs[v.keyed_position(name@, key)]));
        }
    }
}

/// A new task is chosen by every claim for its name from the instant on at which it is
/// to be available, or that claim chooses as many runs as were asked for; and by none
/// before.
pub proof fn law_a_task_is_chosen_once_available(
    v: TablesView,
    now: Timestamp,
    id: RunId,
    name: JobName,
    args: serde_json::Value,
    options: queue::OptionsView,
    names: Seq<String>,
    n: int,
    later: Timestamp,
    limit: nat,
)
    requires
        consistency::consistent(v),
        options.max_attempts >= 1,
        forall|r: int| 0 <= r < v.runs.len() ==> (#[trigger] v.runs[r]).id != id,
        options.key is Some ==> forall|r: int|
            0 <= r < v.runs.len() ==> !((#[trigger] v.runs[r]).job_name@ == name@
                && v.runs[r].deduplication_key is Some && v.runs[r].deduplication_key->0@
                == options.key->0@),
        0 <= n < names.len(),
        names[n]@ == name@,
    ensures
        ({
            let after = queue::enqueue_effect(v, now, id, name, args, options).0;
            let ids = claim::chosen(after, names, later, limit);
            let from = match options.available_at {
                Some(at) => at.micros,
                None => now.micros,
            };
            &&& from <= later.micros ==> ids.contains(id) || ids.len() == limit
            &&& from > later.micros ==> !ids.contains(id)
        }),
{
    law_a_task_is_stored_as_asked(v, now, id, name, args, options);
    let after = queue::enqueue_effect(v, now, id, name, args, options).0;
    let ids = claim::chosen(after, names, later, limit);
    keeping::law_enqueue_keeps_consistency(v, now, id, name, args, options);
    let last = v.runs.len() as int;
    if after.runs[last].available_at.micros <= later.micros {
        taking::law_every_available_run_is_chosen(after, names, later, limit, last, n);
    } else if ids.contains(id) {
        let k = choose|k: int| 0 <= k < ids.len() && ids[k] == id;
        taking::law_only_available_runs_are_chosen(after, names, later, limit, k);
        let (i, m) = choose|i: int, m: int|
            #![trigger after.runs[i], names[m]]
            {
                &&& 0 <= i < after.runs.len()
                &&& 0 <= m < names.len()
                &&& after.runs[i].id == ids[k]
                &&& after.runs[i].state is Pending
                &&& after.runs[i].available_at.micros <= later.micros
                &&& after.runs[i].job_name@ == names[m]@
            };
        if i < last {
            assert(after.runs[i] == v.runs[i]);
        }
    }
}

/// Of two new tasks that are both available and of the names, the one that was asked
/// for with the higher priority is chosen before the other, whichever was asked for
/// first.
pub proof fn law_the_higher_priority_is_chosen_first(
    v: TablesView,
    now: Timestamp,
    id: RunId,
    name: JobName,
    args: serde_json::Value,
    options: queue::OptionsView,
    then: Timestamp,
    other_id: RunId,
    other_name: JobName,
    other_args: serde_json::Value,
    other: queue::OptionsView,
    names: Seq<String>,
    n: int,
    m: int,
    later: Timestamp,
    limit: nat,
    k: int,
)
    requires
        consistency::consistent(v),
        options.max_attempts >= 1,
        other.max_attempts >= 1,
        options.key is None,
        other.key is None,
        id != other_id,
        forall|r: int|
            0 <= r < v.runs.len() ==> (#[trigger] v.runs[r]).id != id && v.runs[r].id != other_id,
        0 <= n < names.len(),
        names[n]@ == name@,
        0 <= m < names.len(),
        names[m]@ == other_name@,
        options.available_at is Some ==> options.available_at->0.micros <= later.micros,
        options.available_at is None ==> now.micros <= later.micros,
        other.available_at is Some ==> other.available_at->0.micros <= later.micros,
        other.available_at is None ==> then.micros <= later.micros,
    ensures
        ({
            let first = queue::enqueue_effect(v, now, id, name, args, options).0;
            let both = queue::enqueue_effect(
                first,
                then,
                other_id,
                other_name,
                other_args,
                other,
            ).0;
            let ids = claim::chosen(both, names, later, limit);
            &&& options.priority > other.priority && 0 <= k < ids.len() && ids[k] == other_id
                ==> exists|j: int| 0 <= j < k && #[trigger] ids[j] == id
            &&& options.priority < other.priority && 0 <= k < ids.len() && ids[k] == id
                ==> exists|j: int| 0 <= j < k && #[trigger] ids[j] == other_id
        }),
{
    let first = queue::enqueue_effect(v, now, id, name, args, options).0;
    law_a_task_is_stored_as_asked(v, now, id, name, args, options);
    keeping::law_enqueue_keeps_consistency(v, now, id, name, args, options);
    assert forall|r: int| 0 <= r < first.runs.len() implies (#[trigger] first.runs[r]).id
        != other_id by {
        if r < v.runs.len() {
            assert(first.runs[r] == v.runs[r]);
        }
    }
    law_a_task_is_stored_as_asked(first, then, other_id, other_name, other_args, other);
    keeping::law_enqueue_keeps_consistency(
        first,
        then,
        other_id,
        other_name,
        other_args,
        other,
    );
    let both = queue::enqueue_effect(first, then, other_id, other_name, other_args, other).0;
    let ids = claim::chosen(both, names, later, limit);
    let a = v.runs.len() as int;
    let b = first.runs.len() as int;
    assert(both.runs[a] == first.runs[a]);
    if options.priority > other.priority && 0 <= k < ids.len() && ids[k] == other_id {
        if !(exists|j: int| 0 <= j < k && #[trigger] ids[j] == id) {
            taking::law_runs_are_chosen_in_order(both, names, later, limit, k, b, a, n);
        }
    }
    if options.priority < other.priority && 0 <= k < ids.len() && ids[k] == id {
        if !(exists|j: int| 0 <= j < k && #[trigger] ids[j] == other_id) {
            taking::law_runs_are_chosen_in_order(both, names, later, limit, k, a, b, m);
        }
    }
}

/// Every run that has ended, before the cutoff, is deleted, or as many runs are deleted
/// as were asked for. No other run is deleted, and those that ended earlier go first.
pub proof fn law_old_runs_are_deleted(
    v: TablesView,
    before: Timestamp,
    limit: nat,
    i: int,
    left: int,
)
    requires
        consistency::consistent(v),
        0 <= i < v.runs.len(),
        0 <= left < v.runs.len(),
    ensures
        ({
            let after = queue::without(v, queue::doomed(v, before, limit));
            let old = (v.runs[i].state is Completed || v.runs[i].state is Failed
                || v.runs[i].state is Cancelled) && v.runs[i].finished_at->0.micros
                < before.micros;
            let left_old = (v.runs[left].state is Completed || v.runs[left].state is Failed
                || v.runs[left].state is Cancelled) && v.runs[left].finished_at->0.micros
                < before.micros;
            &&& after.jobs == v.jobs
            &&& v.runs.len() - after.runs.len() <= limit
            &&& old ==> !after.runs.contains(v.runs[i]) || v.runs.len() - after.runs.len() == limit
            &&& !old ==> after.runs.contains(v.runs[i])
            &&& !after.runs.contains(v.runs[i]) && left_old && after.runs.contains(v.runs[left])
                ==> v.runs[i].finished_at->0.micros <= v.runs[left].finished_at->0.micros
        }),
{
    let ids = queue::doomed(v, before, limit);
    let after = queue::without(v, ids);
    let p = |r: SchedulerRun| queue::prunable(r, before);
    let key = |r: SchedulerRun| queue::prune_rank(r);
    producing::law_pruning_deletes_only_ended_runs(v, before, limit);
    consistency::lemma_distinct(v);
    selection::lemma_selected_distinct(v.runs, p, key, limit);
    assert(consistency::run_ok(v.runs[i]));
    assert(consistency::run_ok(v.runs[left]));
    lemma_kept(v, ids, i);
    lemma_kept(v, ids, left);
    if p(v.runs[i]) && ids.len() != limit && !ids.contains(v.runs[i].id) {
        let ranks = ranking::ranks_where(v.runs, p, key);
        let best = ranking::first_ranked(ranks, limit);
        ranking::lemma_first_ranked(ranks, limit);
        ranking::lemma_ranks_where(v.runs, p, key, key(v.runs[i]));
        ranking::lemma_all_taken(ranks, limit);
        assert(ranks.contains(key(v.runs[i])));
        let k = choose|k: int| 0 <= k < best.len() && best[k] == key(v.runs[i]);
        assert(ids[k] == v.runs[i].id);
    }
    if ids.contains(v.runs[i].id) && p(v.runs[left]) && !ids.contains(v.runs[left].id) {
        assert(ranking::precedes(key(v.runs[i]), key(v.runs[left])));
        assert(p(v.runs[i]));
    }
}

/// A run is kept where it is not among those to delete, and only there.
proof fn lemma_kept(v: TablesView, ids: Seq<RunId>, i: int)
    requires
        0 <= i < v.runs.len(),
    ensures
        queue::without(v, ids).runs.contains(v.runs[i]) <==> !ids.contains(v.runs[i].id),
{
    let kept = |r: SchedulerRun| !ids.contains(r.id);
    let after = queue::without(v, ids);
    let from = keeping::lemma_filter_positions(v.runs, kept);
    if kept(v.runs[i]) {
        let n = choose|n: int| 0 <= n < from.len() && from[n] == i;
        assert(after.runs[n] == v.runs[i]);
    } else if after.runs.contains(v.runs[i]) {
        let n = choose|n: int| 0 <= n < after.runs.len() && after.runs[n] == v.runs[i];
        assert(kept(v.runs[from[n]]));
    }
}

/// The attempts of a run go with the run when it is deleted, and only then.
pub proof fn law_attempts_go_with_their_run(
    v: TablesView,
    before: Timestamp,
    limit: nat,
    i: int,
    k: int,
)
    requires
        consistency::consistent(v),
        0 <= i < v.runs.len(),
        0 <= k < v.attempts.len(),
        v.attempts[k].run_id == v.runs[i].id,
    ensures
        ({
            let after = queue::without(v, queue::doomed(v, before, limit));
            after.attempts.contains(v.attempts[k]) <==> after.runs.contains(v.runs[i])
        }),
{
    let ids = queue::doomed(v, before, limit);
    let after = queue::without(v, ids);
    let still = |a: AttemptRow| !ids.contains(a.run_id);
    lemma_kept(v, ids, i);
    let from = keeping::lemma_filter_positions(v.attempts, still);
    if still(v.attempts[k]) {
        let n = choose|n: int| 0 <= n < from.len() && from[n] == k;
        assert(after.attempts[n] == v.attempts[k]);
    } else if after.attempts.contains(v.attempts[k]) {
        let n = choose|n: int| 0 <= n < after.attempts.len() && after.attempts[n] == v.attempts[k];
        assert(still(v.attempts[from[n]]));
    }
}

/// Whatever identifier a request draws is random, and the request does under it what
/// one under that identifier does.
pub proof fn law_a_task_is_added_under_the_identifier_it_draws(
    v: TablesView,
    now: Timestamp,
    name: JobName,
    args: serde_json::Value,
    options: queue::OptionsView,
    id: RunId,
    after: TablesView,
    res: Result<EnqueuedTask, SchedulerError>,
)
    requires
        queue::enqueues(v, now, name, args, options, id, after, res),
    ensures
        ids::is_random_uuid(id.0),
        (after, res) == queue::enqueue_effect(v, now, id, name, args, options),
{
}

} // verus!
