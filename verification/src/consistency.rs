//! What holds of the tables at all times.
//!
//! Keys are unique, each row holds exactly the facts that go with its state, and
//! runs and attempts agree on who holds which lease. Every operation keeps it so.
use vstd::prelude::*;

use crate::ids::{LeaseToken, RunId};
use crate::models::{AttemptRow, SchedulerJob, SchedulerRun, StoredRunState};
use crate::selection;
use crate::tables;
use crate::tables::TablesView;

verus! {

/// Whether two jobs may stand in one table: neither identifier nor name is shared.
pub open spec fn jobs_apart(a: SchedulerJob, b: SchedulerJob) -> bool {
    a.id != b.id && a.name@ != b.name@
}

/// Whether two runs may stand in one table: they share no identifier, no slot of a
/// job, and no deduplication key of a task.
pub open spec fn runs_apart(a: SchedulerRun, b: SchedulerRun) -> bool {
    &&& a.id != b.id
    &&& !(a.job_id is Some && a.job_id == b.job_id && a.scheduled_for == b.scheduled_for)
    &&& !(a.deduplication_key is Some && b.deduplication_key is Some && a.job_name@ == b.job_name@
        && a.deduplication_key->0@ == b.deduplication_key->0@)
}

/// Whether two attempts may stand in one table: they share no number of a run, and
/// not both are live under one token.
pub open spec fn attempts_apart(a: AttemptRow, b: AttemptRow) -> bool {
    &&& !(a.run_id == b.run_id && a.attempt_number == b.attempt_number)
    &&& !(a.outcome is None && b.outcome is None && a.lease_token == b.lease_token)
}

/// Whether `job` allows at least one attempt.
pub open spec fn job_ok(job: SchedulerJob) -> bool {
    job.max_attempts >= 1
}

/// Whether `r` is under no lease.
pub open spec fn unleased(r: SchedulerRun) -> bool {
    r.worker_id is None && r.lease_token is None && r.lease_expires_at is None && r.started_at
        is None
}

/// Whether `r` holds exactly the facts that go with its state, and its attempts
/// stay within their limit.
pub open spec fn run_ok(r: SchedulerRun) -> bool {
    &&& 0 <= r.attempt_count <= r.max_attempts
    &&& match r.state {
        StoredRunState::Pending => unleased(r) && r.finished_at is None && r.last_error is None
            && r.attempt_count < r.max_attempts,
        StoredRunState::Running => r.worker_id is Some && r.lease_token is Some
            && r.lease_expires_at is Some && r.started_at is Some && r.finished_at is None
            && r.last_error is None && r.attempt_count >= 1,
        StoredRunState::Completed => unleased(r) && r.finished_at is Some && r.last_error is None,
        StoredRunState::Failed => unleased(r) && r.finished_at is Some && r.last_error is Some,
        StoredRunState::Cancelled => unleased(r) && r.finished_at is Some && r.last_error is None,
    }
}

/// Whether `a` has an end exactly where it has an outcome, and no error before it.
pub open spec fn attempt_ok(a: AttemptRow) -> bool {
    &&& a.finished_at is Some <==> a.outcome is Some
    &&& a.outcome is None ==> a.error is None
}

/// Whether the attempt at `k` belongs to a run that counts it, and, while it is
/// live, holds the lease of that run.
pub open spec fn attempt_linked(v: TablesView, k: int) -> bool {
    let a = v.attempts[k];
    &&& v.has_run(a.run_id)
    &&& 1 <= a.attempt_number <= v.run(a.run_id)->0.attempt_count
    &&& a.outcome is None ==> v.run(a.run_id)->0.state is Running && v.run(
        a.run_id,
    )->0.lease_token == Some(a.lease_token)
}

/// Whether the attempt at `k` is the live one of run `id` under `token`.
pub open spec fn carries(v: TablesView, k: int, id: RunId, token: LeaseToken) -> bool {
    0 <= k < v.attempts.len() && tables::is_live(v.attempts[k], token) && v.attempts[k].run_id
        == id
}

/// Whether the run at `i`, where it is running, has a live attempt under its
/// token.
pub open spec fn run_linked(v: TablesView, i: int) -> bool {
    v.runs[i].state is Running ==> exists|k: int|
        #[trigger] carries(v, k, v.runs[i].id, v.runs[i].lease_token->0)
}

/// What holds of the tables at all times.
pub open spec fn consistent(v: TablesView) -> bool {
    &&& forall|i: int, j: int|
        0 <= i < j < v.jobs.len() ==> jobs_apart(#[trigger] v.jobs[i], #[trigger] v.jobs[j])
    &&& forall|i: int, j: int|
        0 <= i < j < v.runs.len() ==> runs_apart(#[trigger] v.runs[i], #[trigger] v.runs[j])
    &&& forall|i: int, j: int|
        0 <= i < j < v.attempts.len() ==> attempts_apart(
            #[trigger] v.attempts[i],
            #[trigger] v.attempts[j],
        )
    &&& forall|i: int| 0 <= i < v.jobs.len() ==> job_ok(#[trigger] v.jobs[i])
    &&& forall|i: int| 0 <= i < v.runs.len() ==> run_ok(#[trigger] v.runs[i])
    &&& forall|k: int| 0 <= k < v.attempts.len() ==> attempt_ok(#[trigger] v.attempts[k])
    &&& forall|k: int| 0 <= k < v.attempts.len() ==> #[trigger] attempt_linked(v, k)
    &&& forall|i: int| 0 <= i < v.runs.len() ==> #[trigger] run_linked(v, i)
}

/// In consistent tables a run stands where its identifier is found.
pub proof fn lemma_position(v: TablesView, i: int)
    requires
        selection::distinct_runs(v.runs),
        0 <= i < v.runs.len(),
    ensures
        v.run_position(v.runs[i].id) == i,
        v.has_run(v.runs[i].id),
        v.run(v.runs[i].id) == Some(v.runs[i]),
{
    let p = |r: SchedulerRun| r.id == v.runs[i].id;
    assert forall|j: int| 0 <= j < i implies !p(#[trigger] v.runs[j]) by {
        assert(v.runs[j].id != v.runs[i].id);
    }
    tables::lemma_is_first_position(v.runs, p, i);
}

/// What is found for an identifier is a run with that identifier.
pub proof fn lemma_found(v: TablesView, id: RunId)
    ensures
        0 <= v.run_position(id) <= v.runs.len(),
        v.has_run(id) ==> v.runs[v.run_position(id)].id == id && v.run(id)
            == Some(v.runs[v.run_position(id)]),
        !v.has_run(id) ==> forall|j: int| 0 <= j < v.runs.len() ==> (#[trigger] v.runs[j]).id != id,
{
    let p = |r: SchedulerRun| r.id == id;
    tables::lemma_first_position(v.runs, p);
    assert(forall|j: int| 0 <= j < v.run_position(id) ==> !p(#[trigger] v.runs[j]));
}

/// Identifiers of consistent tables are distinct.
pub proof fn lemma_distinct(v: TablesView)
    requires
        consistent(v),
    ensures
        selection::distinct_runs(v.runs),
{
    assert forall|i: int, j: int| 0 <= i < j < v.runs.len() implies (#[trigger] v.runs[i]).id != (
    #[trigger] v.runs[j]).id by {
        assert(runs_apart(v.runs[i], v.runs[j]));
    }
}

/// Where exactly one row satisfies `p`, the count is one.
pub proof fn lemma_count_one<T>(rows: Seq<T>, p: spec_fn(T) -> bool, at: int)
    requires
        0 <= at < rows.len(),
        p(rows[at]),
        forall|j: int| 0 <= j < rows.len() && j != at ==> !p(#[trigger] rows[j]),
    ensures
        tables::count_where(rows, p) == 1,
    decreases rows.len(),
{
    let init = rows.drop_last();
    if at == rows.len() - 1 {
        assert forall|j: int| 0 <= j < init.len() implies !p(#[trigger] init[j]) by {
            assert(init[j] == rows[j]);
        }
        lemma_count_none(init, p);
    } else {
        assert(init[at] == rows[at]);
        assert forall|j: int| 0 <= j < init.len() && j != at implies !p(#[trigger] init[j]) by {
            assert(init[j] == rows[j]);
        }
        lemma_count_one(init, p, at);
        assert(!p(rows[rows.len() - 1]));
    }
}

/// Where no row satisfies `p`, the count is zero.
pub proof fn lemma_count_none<T>(rows: Seq<T>, p: spec_fn(T) -> bool)
    requires
        forall|j: int| 0 <= j < rows.len() ==> !p(#[trigger] rows[j]),
    ensures
        tables::count_where(rows, p) == 0,
    decreases rows.len(),
{
    if rows.len() > 0 {
        let init = rows.drop_last();
        assert forall|j: int| 0 <= j < init.len() implies !p(#[trigger] init[j]) by {
            assert(init[j] == rows[j]);
        }
        lemma_count_none(init, p);
        assert(!p(rows[rows.len() - 1]));
    }
}

/// A running run has exactly one live attempt, and it belongs to that run.
pub proof fn lemma_one_live_attempt(v: TablesView, i: int) -> (k: int)
    requires
        consistent(v),
        0 <= i < v.runs.len(),
        v.runs[i].state is Running,
    ensures
        carries(v, k, v.runs[i].id, v.runs[i].lease_token->0),
        forall|j: int|
            0 <= j < v.attempts.len() && tables::is_live(
                #[trigger] v.attempts[j],
                v.runs[i].lease_token->0,
            ) ==> j == k,
        tables::live_count(v.attempts, v.runs[i].lease_token->0) == 1,
{
    let token = v.runs[i].lease_token->0;
    assert(run_linked(v, i));
    let k = choose|k: int| #[trigger] carries(v, k, v.runs[i].id, token);
    assert forall|j: int| 0 <= j < v.attempts.len() && tables::is_live(
        #[trigger] v.attempts[j],
        token,
    ) implies j == k by {
        if j < k {
            assert(attempts_apart(v.attempts[j], v.attempts[k]));
        } else if k < j {
            assert(attempts_apart(v.attempts[k], v.attempts[j]));
        }
    }
    let p = |a: AttemptRow| tables::is_live(a, token);
    assert forall|j: int| 0 <= j < v.attempts.len() && j != k implies !p(
        #[trigger] v.attempts[j],
    ) by {}
    lemma_count_one(v.attempts, p, k);
    k
}

/// Whether `b` is the same run as `a`: what identifies it, and what its execution
/// needs, is the same.
pub open spec fn same_run(a: SchedulerRun, b: SchedulerRun) -> bool {
    &&& a.id == b.id
    &&& a.job_id == b.job_id
    &&& a.job_name == b.job_name
    &&& a.job_args == b.job_args
    &&& a.scheduled_for == b.scheduled_for
    &&& a.priority == b.priority
    &&& a.max_attempts == b.max_attempts
    &&& a.lease_duration == b.lease_duration
    &&& a.retry_backoff == b.retry_backoff
    &&& a.deduplication_key == b.deduplication_key
    &&& a.created_at == b.created_at
}

/// Whether `u` has the same runs as `v`, each possibly in another state.
pub open spec fn same_runs(v: TablesView, u: TablesView) -> bool {
    &&& u.runs.len() == v.runs.len()
    &&& forall|i: int| 0 <= i < v.runs.len() ==> same_run(v.runs[i], #[trigger] u.runs[i])
}

/// Whether `b` is the same attempt as `a`, and live only where `a` was.
pub open spec fn same_attempt(a: AttemptRow, b: AttemptRow) -> bool {
    &&& a.run_id == b.run_id
    &&& a.attempt_number == b.attempt_number
    &&& a.worker_id == b.worker_id
    &&& a.lease_token == b.lease_token
    &&& a.started_at == b.started_at
    &&& b.outcome is None ==> a.outcome is None
}

/// Whether `u` has the runs and attempts of `v`, each possibly changed but none
/// added or removed, with no more attempts counted.
pub open spec fn evolves(v: TablesView, u: TablesView) -> bool {
    &&& u.jobs == v.jobs
    &&& u.runs.len() == v.runs.len()
    &&& u.attempts.len() == v.attempts.len()
    &&& forall|i: int|
        0 <= i < v.runs.len() ==> same_run(v.runs[i], #[trigger] u.runs[i]) && run_ok(u.runs[i])
            && u.runs[i].attempt_count == v.runs[i].attempt_count
    &&& forall|k: int|
        0 <= k < v.attempts.len() ==> same_attempt(v.attempts[k], #[trigger] u.attempts[k])
            && attempt_ok(u.attempts[k])
}

/// A change of rows in place keeps the tables consistent where leases and live
/// attempts change together: what stays live keeps its running run, and what
/// stays running keeps its live attempt.
pub proof fn lemma_evolution(v: TablesView, u: TablesView)
    requires
        consistent(v),
        evolves(v, u),
        forall|i: int, k: int|
            #![trigger u.runs[i], u.attempts[k]]
            0 <= i < v.runs.len() && 0 <= k < v.attempts.len() && u.attempts[k].outcome is None
                && u.attempts[k].run_id == u.runs[i].id ==> u.runs[i].state is Running
                && u.runs[i].lease_token == v.runs[i].lease_token,
        forall|i: int, k: int|
            #![trigger u.runs[i], u.attempts[k]]
            0 <= i < v.runs.len() && u.runs[i].state is Running && carries(
                v,
                k,
                v.runs[i].id,
                v.runs[i].lease_token->0,
            ) ==> u.attempts[k].outcome is None,
        forall|i: int|
            0 <= i < v.runs.len() && (#[trigger] u.runs[i]).state is Running
                ==> v.runs[i].state is Running && u.runs[i].lease_token == v.runs[i].lease_token,
    ensures
        consistent(u),
{
    lemma_distinct(v);
    assert forall|i: int, j: int| 0 <= i < j < u.runs.len() implies runs_apart(
        #[trigger] u.runs[i],
        #[trigger] u.runs[j],
    ) by {
        assert(runs_apart(v.runs[i], v.runs[j]));
    }
    assert forall|i: int, j: int| 0 <= i < j < u.attempts.len() implies attempts_apart(
        #[trigger] u.attempts[i],
        #[trigger] u.attempts[j],
    ) by {
        assert(attempts_apart(v.attempts[i], v.attempts[j]));
    }
    assert(selection::distinct_runs(u.runs)) by {
        assert forall|i: int, j: int| 0 <= i < j < u.runs.len() implies (#[trigger] u.runs[i]).id
            != (#[trigger] u.runs[j]).id by {
            assert(runs_apart(v.runs[i], v.runs[j]));
        }
    }
    assert forall|k: int| 0 <= k < u.attempts.len() implies #[trigger] attempt_linked(u, k) by {
        assert(attempt_linked(v, k));
        let id = v.attempts[k].run_id;
        lemma_found(v, id);
        let i = v.run_position(id);
        assert(same_run(v.runs[i], u.runs[i]));
        assert(same_attempt(v.attempts[k], u.attempts[k]));
        lemma_position(u, i);
    }
    assert forall|i: int| 0 <= i < u.runs.len() implies #[trigger] run_linked(u, i) by {
        if u.runs[i].state is Running {
            assert(run_linked(v, i));
            let k = choose|k: int|
                #[trigger] carries(v, k, v.runs[i].id, v.runs[i].lease_token->0);
            assert(same_attempt(v.attempts[k], u.attempts[k]));
            assert(carries(u, k, u.runs[i].id, u.runs[i].lease_token->0));
        }
    }
}

/// Adding a fresh pending run keeps the tables consistent.
pub proof fn lemma_added_run(v: TablesView, r: SchedulerRun)
    requires
        consistent(v),
        run_ok(r),
        r.state is Pending,
        forall|i: int| 0 <= i < v.runs.len() ==> runs_apart(#[trigger] v.runs[i], r),
    ensures
        consistent((TablesView { runs: v.runs.push(r), ..v })),
{
    let u = TablesView { runs: v.runs.push(r), ..v };
    lemma_distinct(v);
    assert(selection::distinct_runs(u.runs)) by {
        assert forall|i: int, j: int| 0 <= i < j < u.runs.len() implies (#[trigger] u.runs[i]).id
            != (#[trigger] u.runs[j]).id by {
            if j == v.runs.len() {
                assert(runs_apart(v.runs[i], r));
            } else {
                assert(runs_apart(v.runs[i], v.runs[j]));
            }
        }
    }
    assert forall|i: int, j: int| 0 <= i < j < u.runs.len() implies runs_apart(
        #[trigger] u.runs[i],
        #[trigger] u.runs[j],
    ) by {
        if j < v.runs.len() {
            assert(runs_apart(v.runs[i], v.runs[j]));
        }
    }
    assert forall|k: int| 0 <= k < u.attempts.len() implies #[trigger] attempt_linked(u, k) by {
        assert(attempt_linked(v, k));
        lemma_found(v, v.attempts[k].run_id);
        let i = v.run_position(v.attempts[k].run_id);
        assert(u.runs[i] == v.runs[i]);
        lemma_position(u, i);
    }
    assert forall|i: int| 0 <= i < u.runs.len() implies #[trigger] run_linked(u, i) by {
        if i < v.runs.len() && u.runs[i].state is Running {
            assert(run_linked(v, i));
            let k = choose|k: int|
                #[trigger] carries(v, k, v.runs[i].id, v.runs[i].lease_token->0);
            assert(carries(u, k, u.runs[i].id, u.runs[i].lease_token->0));
        }
    }
}

/// Changing only jobs keeps the tables consistent where the jobs are.
pub proof fn lemma_changed_jobs(v: TablesView, u: TablesView)
    requires
        consistent(v),
        u.runs == v.runs,
        u.attempts == v.attempts,
        forall|i: int, j: int|
            0 <= i < j < u.jobs.len() ==> jobs_apart(#[trigger] u.jobs[i], #[trigger] u.jobs[j]),
        forall|i: int| 0 <= i < u.jobs.len() ==> job_ok(#[trigger] u.jobs[i]),
    ensures
        consistent(u),
{
    assert forall|k: int| 0 <= k < u.attempts.len() implies #[trigger] attempt_linked(u, k) by {
        assert(attempt_linked(v, k));
    }
    assert forall|i: int| 0 <= i < u.runs.len() implies #[trigger] run_linked(u, i) by {
        assert(run_linked(v, i));
        if v.runs[i].state is Running {
            let k = choose|k: int|
                #[trigger] carries(v, k, v.runs[i].id, v.runs[i].lease_token->0);
            assert(carries(u, k, u.runs[i].id, u.runs[i].lease_token->0));
        }
    }
}

} // verus!
