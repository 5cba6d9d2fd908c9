//! Reading: the state of a run can always be read, and what is read is what was
//! written.
use vstd::prelude::*;

use crate::consistency;
use crate::error::SchedulerError;
use crate::ids::{LeaseToken, RunId};
use crate::laws::fencing;
use crate::models::{AttemptRow, Outcome, RunState};
use crate::queue;
use crate::ranking;
use crate::store::finalize;
use crate::store::inspect;
use crate::tables;
use crate::tables::TablesView;
use crate::time::Timestamp;

verus! {

/// What reading the state of run `id` gives, where there is such a run.
pub open spec fn read(v: TablesView, id: RunId) -> Result<RunState, SchedulerError> {
    inspect::state_read(inspect::status_of(v.run(id)->0))
}

/// In consistent tables the state of every run can be read, with all the facts
/// that go with it.
pub proof fn law_every_state_can_be_read(v: TablesView, id: RunId)
    requires
        consistency::consistent(v),
        v.has_run(id),
    ensures
        read(v, id) is Ok,
        read(v, id)->Ok_0 is Pending <==> v.run(id)->0.state is Pending,
        read(v, id)->Ok_0 is Running <==> v.run(id)->0.state is Running,
        read(v, id)->Ok_0 is Completed <==> v.run(id)->0.state is Completed,
        read(v, id)->Ok_0 is Failed <==> v.run(id)->0.state is Failed,
        read(v, id)->Ok_0 is Cancelled <==> v.run(id)->0.state is Cancelled,
{
    consistency::lemma_found(v, id);
    assert(consistency::run_ok(v.runs[v.run_position(id)]));
}

/// The end that was recorded is the end that is read.
pub proof fn law_ends_are_read_back(
    v: TablesView,
    wall: Timestamp,
    id: RunId,
    token: LeaseToken,
    error: String,
)
    requires
        consistency::consistent(v),
        finalize::held(v, id, token, wall),
    ensures
        read(finalize::finalize_effect(v, wall, id, token, Outcome::Completed).0, id) == Ok::<
            RunState,
            SchedulerError,
        >(RunState::Completed { finished_at: wall }),
        read(finalize::finalize_effect(v, wall, id, token, Outcome::Failed(error)).0, id) == Ok::<
            RunState,
            SchedulerError,
        >(RunState::Failed { finished_at: wall, error }),
        read(finalize::fail_effect(v, wall, id, token, error, false).0, id) == Ok::<
            RunState,
            SchedulerError,
        >(RunState::Failed { finished_at: wall, error }),
        read(queue::cancel_effect(v, wall, id).0, id) == Ok::<RunState, SchedulerError>(
            RunState::Cancelled { finished_at: wall },
        ),
{
    consistency::lemma_found(v, id);
    let p = v.run_position(id);
    let k = consistency::lemma_one_live_attempt(v, p);
    assert(crate::tables::is_live(v.attempts[k], token));
    assert(queue::has_live_attempt(v, id, token));
    let r = v.runs[p];
    let done = finalize::finalize_effect(v, wall, id, token, Outcome::Completed).0;
    fencing::lemma_replaced(v, done.runs[p], done);
    let lost = finalize::finalize_effect(v, wall, id, token, Outcome::Failed(error)).0;
    fencing::lemma_replaced(v, lost.runs[p], lost);
    let failed = finalize::fail_effect(v, wall, id, token, error, false).0;
    fencing::lemma_replaced(v, failed.runs[p], failed);
    let cancelled = queue::cancel_effect(v, wall, id).0;
    fencing::lemma_replaced(v, cancelled.runs[p], cancelled);
}

/// A pending run that is cancelled is read as cancelled.
pub proof fn law_cancelled_pending_is_read_back(v: TablesView, wall: Timestamp, id: RunId)
    requires
        v.has_run(id),
        v.run(id)->0.state is Pending,
    ensures
        read(queue::cancel_effect(v, wall, id).0, id) == Ok::<RunState, SchedulerError>(
            RunState::Cancelled { finished_at: wall },
        ),
{
    consistency::lemma_found(v, id);
    let u = queue::cancel_effect(v, wall, id).0;
    fencing::lemma_replaced(v, u.runs[v.run_position(id)], u);
}

/// In consistent tables the history of a run can always be read: it has every
/// attempt of the run and no other, in the order of their numbers, which are
/// positive.
pub proof fn law_every_history_can_be_read(v: TablesView, id: RunId)
    requires
        consistency::consistent(v),
    ensures
        forall|j: int|
            0 <= j < inspect::history_rows(v, id).len() ==> (#[trigger] inspect::history_rows(
                v,
                id,
            )[j]).run_id == id && inspect::history_rows(v, id)[j].attempt_number >= 1,
        forall|i: int, j: int|
            0 <= i < j < inspect::history_rows(v, id).len() ==> (#[trigger] inspect::history_rows(
                v,
                id,
            )[i]).attempt_number < (#[trigger] inspect::history_rows(v, id)[j]).attempt_number,
        forall|k: int|
            0 <= k < v.attempts.len() && v.attempts[k].run_id == id ==> inspect::history_rows(
                v,
                id,
            ).contains(#[trigger] v.attempts[k]),
{
    let p = |a: AttemptRow| a.run_id == id;
    let key = |a: AttemptRow| inspect::history_rank(a);
    let ranks = ranking::ranks_where(v.attempts, p, key);
    let sorted = ranking::ranked(ranks);
    let rows = inspect::history_rows(v, id);
    ranking::lemma_first_ranked(ranks, ranks.len());
    ranking::lemma_all_ranked(ranks);
    assert forall|i: int, j: int| 0 <= i < j < v.attempts.len() && p(v.attempts[i]) && p(
        v.attempts[j],
    ) implies key(#[trigger] v.attempts[i]) != key(#[trigger] v.attempts[j]) by {
        assert(consistency::attempts_apart(v.attempts[i], v.attempts[j]));
    }
    ranking::lemma_ranks_distinct(v.attempts, p, key);
    assert forall|j: int| 0 <= j < sorted.len() implies (#[trigger] rows[j]).run_id == id
        && rows[j].attempt_number >= 1 && key(rows[j]) == sorted[j] by {
        assert(ranks.contains(sorted[j]));
        ranking::lemma_ranks_where(v.attempts, p, key, sorted[j]);
        let k = choose|k: int|
            0 <= k < v.attempts.len() && p(#[trigger] v.attempts[k]) && key(v.attempts[k])
                == sorted[j];
        lemma_attempt_found(v, k);
        assert(consistency::attempt_linked(v, k));
    }
    assert forall|i: int, j: int| 0 <= i < j < rows.len() implies (
    #[trigger] rows[i]).attempt_number < (#[trigger] rows[j]).attempt_number by {
        assert(key(rows[i]) == sorted[i] && key(rows[j]) == sorted[j]);
        assert(ranking::rank_order()(sorted[i], sorted[j]));
        assert(sorted[i] != sorted[j]);
    }
    assert forall|k: int| 0 <= k < v.attempts.len() && v.attempts[k].run_id == id implies
        rows.contains(#[trigger] v.attempts[k]) by {
        ranking::lemma_ranks_where(v.attempts, p, key, key(v.attempts[k]));
        assert(p(v.attempts[k]));
        assert(ranks.contains(key(v.attempts[k])));
        ranking::lemma_rank_order();
        ranks.lemma_sort_by_ensures(ranking::rank_order());
        vstd::seq_lib::to_multiset_contains(ranks, key(v.attempts[k]));
        vstd::seq_lib::to_multiset_contains(sorted, key(v.attempts[k]));
        let j = choose|j: int| 0 <= j < sorted.len() && sorted[j] == key(v.attempts[k]);
        lemma_attempt_found(v, k);
        assert(rows[j] == v.attempts[k]);
    }
}

/// In consistent tables an attempt stands where its run and number are found.
proof fn lemma_attempt_found(v: TablesView, k: int)
    requires
        consistency::consistent(v),
        0 <= k < v.attempts.len(),
    ensures
        tables::first_position(
            v.attempts,
            |a: AttemptRow|
                tables::is_attempt(
                    a,
                    v.attempts[k].run_id,
                    inspect::history_rank(v.attempts[k]).major as int,
                ),
        ) == k,
{
    let same = |a: AttemptRow|
        tables::is_attempt(
            a,
            v.attempts[k].run_id,
            inspect::history_rank(v.attempts[k]).major as int,
        );
    assert forall|j: int| 0 <= j < k implies !same(#[trigger] v.attempts[j]) by {
        assert(consistency::attempts_apart(v.attempts[j], v.attempts[k]));
    }
    tables::lemma_is_first_position(v.attempts, same, k);
}

/// What consistent tables are: no two jobs share an identifier or a name, and no two
/// runs an identifier, a slot of a job or a key of a task. A run counts no more attempts
/// than it may have. One that waits has an attempt left and no lease; one that runs has a
/// whole lease and a live attempt under it; one that has ended has an end and no lease.
pub proof fn law_consistent_tables(v: TablesView, i: int, j: int)
    requires
        consistency::consistent(v),
        0 <= i < v.runs.len(),
    ensures
        forall|a: int, b: int|
            0 <= a < b < v.jobs.len() ==> (#[trigger] v.jobs[a]).id != (#[trigger] v.jobs[b]).id
                && v.jobs[a].name@ != v.jobs[b].name@,
        i < j < v.runs.len() ==> {
            &&& v.runs[i].id != v.runs[j].id
            &&& v.runs[i].job_id is Some && v.runs[i].job_id == v.runs[j].job_id
                ==> v.runs[i].scheduled_for != v.runs[j].scheduled_for
            &&& v.runs[i].deduplication_key is Some && v.runs[j].deduplication_key is Some
                && v.runs[i].job_name@ == v.runs[j].job_name@ ==> v.runs[i].deduplication_key->0@
                != v.runs[j].deduplication_key->0@
        },
        0 <= v.runs[i].attempt_count <= v.runs[i].max_attempts,
        v.runs[i].state is Pending ==> v.runs[i].attempt_count < v.runs[i].max_attempts
            && v.runs[i].lease_token is None && v.runs[i].finished_at is None,
        v.runs[i].state is Running ==> v.runs[i].worker_id is Some && v.runs[i].lease_expires_at
            is Some && v.runs[i].started_at is Some && v.runs[i].lease_token is Some && exists|
            k: int,
        |
            0 <= k < v.attempts.len() && (#[trigger] v.attempts[k]).run_id == v.runs[i].id
                && v.attempts[k].outcome is None && v.attempts[k].lease_token
                == v.runs[i].lease_token->0,
        v.runs[i].state is Completed || v.runs[i].state is Failed || v.runs[i].state is Cancelled
            ==> v.runs[i].lease_token is None && v.runs[i].finished_at is Some,
        v.runs[i].state is Failed <==> v.runs[i].last_error is Some,
{
    assert(consistency::run_ok(v.runs[i]));
    assert forall|a: int, b: int| 0 <= a < b < v.jobs.len() implies (#[trigger] v.jobs[a]).id != (
    #[trigger] v.jobs[b]).id && v.jobs[a].name@ != v.jobs[b].name@ by {
        assert(consistency::jobs_apart(v.jobs[a], v.jobs[b]));
    }
    if i < j < v.runs.len() {
        assert(consistency::runs_apart(v.runs[i], v.runs[j]));
    }
    if v.runs[i].state is Running {
        let k = consistency::lemma_one_live_attempt(v, i);
        assert(v.attempts[k].run_id == v.runs[i].id);
    }
}

/// In consistent tables every recorded attempt belongs to a run that counts it, and
/// no run counts more than it may have.
pub proof fn law_attempts_stay_within_their_limit(v: TablesView, k: int)
    requires
        consistency::consistent(v),
        0 <= k < v.attempts.len(),
    ensures
        v.has_run(v.attempts[k].run_id),
        1 <= v.attempts[k].attempt_number <= v.run(v.attempts[k].run_id)->0.attempt_count,
        v.run(v.attempts[k].run_id)->0.attempt_count <= v.run(v.attempts[k].run_id)->0.max_attempts,
{
    assert(consistency::attempt_linked(v, k));
    consistency::lemma_found(v, v.attempts[k].run_id);
    assert(consistency::run_ok(v.runs[v.run_position(v.attempts[k].run_id)]));
}

} // verus!
