//! Every operation keeps the tables consistent: keys unique, each row with exactly
//! the facts of its state, attempts within their limit, and one live attempt for
//! each running run.
use vstd::prelude::*;

use crate::consistency;
use crate::cron;
use crate::error::SchedulerError;
use crate::ids::{JobId, JobName, LeaseToken, RunId};
use crate::models::{AttemptRow, Job, Outcome, SchedulerJob, SchedulerRun, StoredAttemptOutcome};
use crate::jobs;
use crate::queue;
use crate::selection;
use crate::store::finalize;
use crate::store::materialize;
use crate::store::reap;
use crate::tables;
use crate::tables::TablesView;
use crate::time::Timestamp;

verus! {

/// Replacing the held run by a row without a lease, together with the end of its
/// live attempt, keeps the tables consistent.
proof fn lemma_release(
    v: TablesView,
    id: RunId,
    token: LeaseToken,
    row: SchedulerRun,
    outcome: StoredAttemptOutcome,
    error: Option<String>,
    at: Timestamp,
)
    requires
        consistency::consistent(v),
        v.has_run(id),
        v.run(id)->0.state is Running,
        v.run(id)->0.lease_token == Some(token),
        consistency::same_run(v.run(id)->0, row),
        row.attempt_count == v.run(id)->0.attempt_count,
        consistency::run_ok(row),
        !(row.state is Running),
    ensures
        consistency::consistent(
            (TablesView {
                attempts: tables::close_live(v.attempts, token, outcome, error, at),
                ..v.with_run(row)
            }),
        ),
{
    let u = TablesView {
        attempts: tables::close_live(v.attempts, token, outcome, error, at),
        ..v.with_run(row)
    };
    consistency::lemma_distinct(v);
    consistency::lemma_found(v, id);
    let p = v.run_position(id);
    let live = consistency::lemma_one_live_attempt(v, p);
    assert(v.run_position(row.id) == p);
    assert forall|i: int| 0 <= i < v.runs.len() implies consistency::same_run(
        v.runs[i],
        #[trigger] u.runs[i],
    ) && consistency::run_ok(u.runs[i]) && u.runs[i].attempt_count == v.runs[i].attempt_count by {
        assert(consistency::run_ok(v.runs[i]));
    }
    assert forall|k: int| 0 <= k < v.attempts.len() implies consistency::same_attempt(
        v.attempts[k],
        #[trigger] u.attempts[k],
    ) && consistency::attempt_ok(u.attempts[k]) by {
        assert(consistency::attempt_ok(v.attempts[k]));
    }
    assert forall|i: int, k: int|
        #![trigger u.runs[i], u.attempts[k]]
        0 <= i < v.runs.len() && 0 <= k < v.attempts.len() && u.attempts[k].outcome is None
            && u.attempts[k].run_id == u.runs[i].id implies u.runs[i].state is Running
        && u.runs[i].lease_token == v.runs[i].lease_token by {
        assert(consistency::attempt_linked(v, k));
        consistency::lemma_position(v, i);
    }
    assert forall|i: int, k: int|
        #![trigger u.runs[i], u.attempts[k]]
        0 <= i < v.runs.len() && u.runs[i].state is Running && consistency::carries(
            v,
            k,
            v.runs[i].id,
            v.runs[i].lease_token->0,
        ) implies u.attempts[k].outcome is None by {
        if tables::is_live(v.attempts[k], token) {
            assert(k == live);
            consistency::lemma_position(v, i);
        }
    }
    consistency::lemma_evolution(v, u);
}

/// Tables without rows are consistent.
pub proof fn law_empty_tables_are_consistent()
    ensures
        consistency::consistent((TablesView { jobs: seq![], runs: seq![], attempts: seq![] })),
{
}

/// Ending a run keeps the tables consistent.
pub proof fn law_finalize_keeps_consistency(
    v: TablesView,
    wall: Timestamp,
    id: RunId,
    token: LeaseToken,
    outcome: Outcome,
)
    requires
        consistency::consistent(v),
    ensures
        consistency::consistent(finalize::finalize_effect(v, wall, id, token, outcome).0),
{
    if finalize::held(v, id, token, wall) {
        consistency::lemma_found(v, id);
        assert(consistency::run_ok(v.runs[v.run_position(id)]));
        lemma_release(
            v,
            id,
            token,
            finalize::released(
                v.run(id)->0,
                finalize::run_state_for(outcome),
                Some(wall),
                finalize::error_for(outcome),
                wall,
            ),
            finalize::attempt_outcome_for(outcome),
            finalize::error_for(outcome),
            wall,
        );
    }
}

/// Failing a run keeps the tables consistent.
pub proof fn law_fail_keeps_consistency(
    v: TablesView,
    wall: Timestamp,
    id: RunId,
    token: LeaseToken,
    error: String,
    retryable: bool,
)
    requires
        consistency::consistent(v),
    ensures
        consistency::consistent(finalize::fail_effect(v, wall, id, token, error, retryable).0),
{
    if finalize::held(v, id, token, wall) {
        consistency::lemma_found(v, id);
        assert(consistency::run_ok(v.runs[v.run_position(id)]));
        match finalize::failed_row(v.run(id)->0, error, retryable, wall) {
            None => {},
            Some(row) => {
                lemma_release(
                    v,
                    id,
                    token,
                    row,
                    StoredAttemptOutcome::Failed,
                    Some(error),
                    wall,
                );
            },
        }
    }
}

/// Renewing a lease keeps the tables consistent.
pub proof fn law_renew_keeps_consistency(
    v: TablesView,
    wall: Timestamp,
    id: RunId,
    token: LeaseToken,
)
    requires
        consistency::consistent(v),
    ensures
        consistency::consistent(finalize::renew_effect(v, wall, id, token).0),
{
    let u = finalize::renew_effect(v, wall, id, token).0;
    if u != v {
        consistency::lemma_distinct(v);
        consistency::lemma_found(v, id);
        assert forall|i: int| 0 <= i < v.runs.len() implies consistency::same_run(
            v.runs[i],
            #[trigger] u.runs[i],
        ) && consistency::run_ok(u.runs[i]) && u.runs[i].attempt_count
            == v.runs[i].attempt_count by {
            assert(consistency::run_ok(v.runs[i]));
        }
        assert forall|k: int| 0 <= k < v.attempts.len() implies consistency::same_attempt(
            v.attempts[k],
            #[trigger] u.attempts[k],
        ) && consistency::attempt_ok(u.attempts[k]) by {
            assert(consistency::attempt_ok(v.attempts[k]));
        }
        assert forall|i: int, k: int|
            #![trigger u.runs[i], u.attempts[k]]
            0 <= i < v.runs.len() && 0 <= k < v.attempts.len() && u.attempts[k].outcome is None
                && u.attempts[k].run_id == u.runs[i].id implies u.runs[i].state is Running
            && u.runs[i].lease_token == v.runs[i].lease_token by {
            assert(consistency::attempt_linked(v, k));
            consistency::lemma_position(v, i);
        }
        consistency::lemma_evolution(v, u);
    }
}

/// Cancelling a task keeps the tables consistent.
pub proof fn law_cancel_keeps_consistency(v: TablesView, wall: Timestamp, id: RunId)
    requires
        consistency::consistent(v),
    ensures
        consistency::consistent(queue::cancel_effect(v, wall, id).0),
{
    if v.has_run(id) {
        consistency::lemma_distinct(v);
        consistency::lemma_found(v, id);
        let p = v.run_position(id);
        let r = v.runs[p];
        assert(consistency::run_ok(r));
        if r.state is Running {
            let k = consistency::lemma_one_live_attempt(v, p);
            assert(tables::is_live(v.attempts[k], r.lease_token->0));
            assert(queue::has_live_attempt(v, id, r.lease_token->0));
            lemma_release(
                v,
                id,
                r.lease_token->0,
                queue::cancelled_row(r, wall),
                StoredAttemptOutcome::Cancelled,
                None,
                wall,
            );
        } else if r.state is Pending {
            let u = v.with_run(queue::cancelled_row(r, wall));
            assert forall|i: int| 0 <= i < v.runs.len() implies consistency::same_run(
                v.runs[i],
                #[trigger] u.runs[i],
            ) && consistency::run_ok(u.runs[i]) && u.runs[i].attempt_count
                == v.runs[i].attempt_count by {
                assert(consistency::run_ok(v.runs[i]));
            }
            assert forall|k: int| 0 <= k < v.attempts.len() implies consistency::same_attempt(
                v.attempts[k],
                #[trigger] u.attempts[k],
            ) && consistency::attempt_ok(u.attempts[k]) by {
                assert(consistency::attempt_ok(v.attempts[k]));
            }
            assert forall|i: int, k: int|
                #![trigger u.runs[i], u.attempts[k]]
                0 <= i < v.runs.len() && 0 <= k < v.attempts.len() && u.attempts[k].outcome
                    is None && u.attempts[k].run_id == u.runs[i].id implies u.runs[i].state
                is Running && u.runs[i].lease_token == v.runs[i].lease_token by {
                assert(consistency::attempt_linked(v, k));
                consistency::lemma_position(v, i);
            }
            consistency::lemma_evolution(v, u);
        }
    }
}

/// Recovering expired runs keeps the tables consistent.
pub proof fn law_recovery_keeps_consistency(
    v: TablesView,
    wall: Timestamp,
    limit: nat,
    after: TablesView,
    summary: reap::RecoverySummary,
)
    requires
        consistency::consistent(v),
        reap::recovery(v, wall, limit, after, summary),
    ensures
        consistency::consistent(after),
{
    let ids = reap::recoverable(v, wall, limit);
    let (note, exhausted) = choose|note: String, exhausted: String|
        #[trigger] reap::recovery_texts(note, exhausted) && after == reap::recovered(
            v,
            ids,
            wall,
            note,
            exhausted,
        );
    consistency::lemma_distinct(v);
    let p = |r: SchedulerRun| reap::expired(r, wall);
    let key = |r: SchedulerRun| reap::expiry_rank(r);
    selection::lemma_selected(v.runs, p, key, limit);
    selection::lemma_selected_distinct(v.runs, p, key, limit);
    assert forall|i: int| 0 <= i < v.runs.len() implies consistency::same_run(
        v.runs[i],
        #[trigger] after.runs[i],
    ) && consistency::run_ok(after.runs[i]) && after.runs[i].attempt_count
        == v.runs[i].attempt_count by {
        assert(consistency::run_ok(v.runs[i]));
        if reap::recovers(v, ids, v.runs[i].id) {
            assert(p(v.runs[i]));
        }
    }
    assert forall|k: int| 0 <= k < v.attempts.len() implies consistency::same_attempt(
        v.attempts[k],
        #[trigger] after.attempts[k],
    ) && consistency::attempt_ok(after.attempts[k]) by {
        assert(consistency::attempt_ok(v.attempts[k]));
    }
    assert forall|i: int, k: int|
        #![trigger after.runs[i], after.attempts[k]]
        0 <= i < v.runs.len() && 0 <= k < v.attempts.len() && after.attempts[k].outcome is None
            && after.attempts[k].run_id == after.runs[i].id implies after.runs[i].state is Running
        && after.runs[i].lease_token == v.runs[i].lease_token by {
        assert(consistency::attempt_linked(v, k));
        consistency::lemma_position(v, i);
        if reap::recovers(v, ids, v.runs[i].id) {
            let n = choose|n: int| 0 <= n < ids.len() && ids[n] == v.runs[i].id;
            assert(v.run(ids[n])->0.lease_token == Some(v.attempts[k].lease_token));
            assert(reap::covers(v, ids, v.attempts[k].lease_token));
        }
    }
    assert forall|i: int, k: int|
        #![trigger after.runs[i], after.attempts[k]]
        0 <= i < v.runs.len() && after.runs[i].state is Running && consistency::carries(
            v,
            k,
            v.runs[i].id,
            v.runs[i].lease_token->0,
        ) implies after.attempts[k].outcome is None by {
        if reap::interrupted(v, ids, v.attempts[k]) {
            let token = v.attempts[k].lease_token;
            let n = choose|n: int|
                0 <= n < ids.len() && v.run(#[trigger] ids[n])->0.lease_token == Some(token);
            consistency::lemma_found(v, ids[n]);
            assert(v.has_run(ids[n]));
            let j = v.run_position(ids[n]);
            assert(ids.contains(v.runs[j].id));
            assert(p(v.runs[j]));
            let live = consistency::lemma_one_live_attempt(v, j);
            assert(k == live);
            assert(v.runs[i].id == v.runs[j].id);
            assert(reap::recovers(v, ids, v.runs[i].id));
        }
    }
    consistency::lemma_evolution(v, after);
}

/// Enqueueing a task keeps the tables consistent.
pub proof fn law_enqueue_keeps_consistency(
    v: TablesView,
    now: Timestamp,
    id: RunId,
    name: JobName,
    args: serde_json::Value,
    options: queue::OptionsView,
)
    requires
        consistency::consistent(v),
        options.max_attempts >= 1,
    ensures
        consistency::consistent(queue::enqueue_effect(v, now, id, name, args, options).0),
{
    let r = queue::enqueued_run(id, name, args, options, now);
    let u = queue::enqueue_effect(v, now, id, name, args, options).0;
    if u != v {
        consistency::lemma_found(v, id);
        assert forall|i: int| 0 <= i < v.runs.len() implies consistency::runs_apart(
            #[trigger] v.runs[i],
            r,
        ) by {
            if options.key is Some {
                let p = |x: SchedulerRun| tables::is_keyed(x, name@, options.key->0@);
                tables::lemma_first_position(v.runs, p);
                assert(!p(v.runs[i]));
            }
        }
        consistency::lemma_added_run(v, r);
    }
}

/// Changing one job without its identifier, name and attempts keeps the tables
/// consistent.
proof fn lemma_changed_job(v: TablesView, at: int, row: SchedulerJob)
    requires
        consistency::consistent(v),
        0 <= at < v.jobs.len(),
        row.id == v.jobs[at].id,
        row.name == v.jobs[at].name,
        consistency::job_ok(row),
    ensures
        consistency::consistent((TablesView { jobs: v.jobs.update(at, row), ..v })),
{
    let u = TablesView { jobs: v.jobs.update(at, row), ..v };
    assert forall|i: int, j: int| 0 <= i < j < u.jobs.len() implies consistency::jobs_apart(
        #[trigger] u.jobs[i],
        #[trigger] u.jobs[j],
    ) by {
        assert(consistency::jobs_apart(v.jobs[i], v.jobs[j]));
    }
    assert forall|i: int| 0 <= i < u.jobs.len() implies consistency::job_ok(
        #[trigger] u.jobs[i],
    ) by {
        assert(consistency::job_ok(v.jobs[i]));
    }
    consistency::lemma_changed_jobs(v, u);
}

/// Materializing a job keeps the tables consistent.
pub proof fn law_tick_keeps_consistency(
    v: TablesView,
    now: Timestamp,
    id: RunId,
    after: TablesView,
    res: Result<materialize::Tick, SchedulerError>,
)
    requires
        consistency::consistent(v),
        (after, res) == materialize::tick_effect(v, now, id),
    ensures
        consistency::consistent(after),
{
    let at = materialize::due_position(v.jobs, now);
    materialize::lemma_due_position(v.jobs, now);
    if after != v {
        let job = v.jobs[at];
        assert(consistency::job_ok(job));
        let r = materialize::occurrence(id, job, now);
        let u = materialize::with_occurrence(v, at, id, now);
        if cron::next_slot(job.cron_expression@, now) is None {
            lemma_changed_job(
                v,
                at,
                SchedulerJob { is_paused: true, updated_at: now, ..job },
            );
        } else {
            if !v.has_occurrence(job.id, job.next_run_at) {
                consistency::lemma_found(v, id);
                assert forall|i: int| 0 <= i < v.runs.len() implies consistency::runs_apart(
                    #[trigger] v.runs[i],
                    r,
                ) by {
                    let p = |x: SchedulerRun| tables::is_occurrence(x, job.id, job.next_run_at);
                    tables::lemma_first_position(v.runs, p);
                    assert(!p(v.runs[i]));
                }
                consistency::lemma_added_run(v, r);
            }
            let next = cron::next_slot(job.cron_expression@, now)->0;
            lemma_changed_job(
                u,
                at,
                SchedulerJob { next_run_at: next, updated_at: now, ..job },
            );
        }
    }
}

/// Adding a job with a new identifier and name keeps the tables consistent.
proof fn lemma_added_job(v: TablesView, row: SchedulerJob)
    requires
        consistency::consistent(v),
        !v.has_named(row.name@),
        !v.has_job(row.id),
        consistency::job_ok(row),
    ensures
        consistency::consistent((TablesView { jobs: v.jobs.push(row), ..v })),
{
    let u = TablesView { jobs: v.jobs.push(row), ..v };
    let p = |j: SchedulerJob| j.id == row.id;
    let q = |j: SchedulerJob| j.name@ == row.name@;
    tables::lemma_first_position(v.jobs, p);
    tables::lemma_first_position(v.jobs, q);
    assert forall|i: int, j: int| 0 <= i < j < u.jobs.len() implies consistency::jobs_apart(
        #[trigger] u.jobs[i],
        #[trigger] u.jobs[j],
    ) by {
        if j < v.jobs.len() {
            assert(consistency::jobs_apart(v.jobs[i], v.jobs[j]));
        } else {
            assert(!p(v.jobs[i]) && !q(v.jobs[i]));
        }
    }
    assert forall|i: int| 0 <= i < u.jobs.len() implies consistency::job_ok(
        #[trigger] u.jobs[i],
    ) by {
        if i < v.jobs.len() {
            assert(consistency::job_ok(v.jobs[i]));
        }
    }
    consistency::lemma_changed_jobs(v, u);
}

/// Creating a job keeps the tables consistent.
pub proof fn law_create_keeps_consistency(
    v: TablesView,
    now: Timestamp,
    id: JobId,
    spec: jobs::JobSpec,
    after: TablesView,
    res: Result<Job, SchedulerError>,
)
    requires
        consistency::consistent(v),
        spec.max_attempts >= 1,
        jobs::creates(v, now, id, spec, after, res),
    ensures
        consistency::consistent(after),
{
    if after != v {
        lemma_added_job(v, after.jobs.last());
    }
}

/// Ensuring a job keeps the tables consistent.
pub proof fn law_ensure_keeps_consistency(
    v: TablesView,
    now: Timestamp,
    id: JobId,
    spec: jobs::JobSpec,
    after: TablesView,
    res: Result<Job, SchedulerError>,
)
    requires
        consistency::consistent(v),
        spec.max_attempts >= 1,
        jobs::ensures_job(v, now, id, spec, after, res),
    ensures
        consistency::consistent(after),
{
    if after != v {
        if v.has_named(spec.name@) {
            let at = v.named_position(spec.name@);
            tables::lemma_first_position(v.jobs, |j: SchedulerJob| j.name@ == spec.name@);
            lemma_changed_job(v, at, after.jobs[at]);
        } else {
            lemma_added_job(v, after.jobs.last());
        }
    }
}

/// Rescheduling a job keeps the tables consistent.
pub proof fn law_reschedule_keeps_consistency(
    v: TablesView,
    now: Timestamp,
    id: JobId,
    update: jobs::ScheduleUpdate,
    after: TablesView,
    res: Result<Option<Job>, SchedulerError>,
)
    requires
        consistency::consistent(v),
        jobs::reschedules(v, now, id, update, after, res),
    ensures
        consistency::consistent(after),
{
    if after != v {
        let at = v.job_position(id);
        tables::lemma_first_position(v.jobs, |j: SchedulerJob| j.id == id);
        assert(consistency::job_ok(v.jobs[at]));
        lemma_changed_job(v, at, after.jobs[at]);
        assert(after.jobs =~= v.jobs.update(at, after.jobs[at]));
    }
}

/// Pausing or resuming a job keeps the tables consistent.
pub proof fn law_pause_keeps_consistency(
    v: TablesView,
    host_now: Timestamp,
    id: JobId,
    paused: bool,
)
    requires
        consistency::consistent(v),
    ensures
        consistency::consistent(jobs::set_paused_effect(v, host_now, id, paused).0),
{
    if v.has_job(id) {
        let at = v.job_position(id);
        tables::lemma_first_position(v.jobs, |j: SchedulerJob| j.id == id);
        assert(consistency::job_ok(v.jobs[at]));
        lemma_changed_job(
            v,
            at,
            SchedulerJob { is_paused: paused, updated_at: host_now, ..v.jobs[at] },
        );
    }
}

/// Deleting a job keeps the tables consistent.
pub proof fn law_delete_keeps_consistency(v: TablesView, id: JobId)
    requires
        consistency::consistent(v),
    ensures
        consistency::consistent(jobs::delete_effect(v, id).0),
{
    let u = jobs::delete_effect(v, id).0;
    if v.has_job(id) {
        let at = v.job_position(id);
        tables::lemma_first_position(v.jobs, |j: SchedulerJob| j.id == id);
        assert forall|i: int, j: int| 0 <= i < j < u.jobs.len() implies consistency::jobs_apart(
            #[trigger] u.jobs[i],
            #[trigger] u.jobs[j],
        ) by {
            let a = if i < at {
                i
            } else {
                i + 1
            };
            let b = if j < at {
                j
            } else {
                j + 1
            };
            assert(consistency::jobs_apart(v.jobs[a], v.jobs[b]));
        }
        assert forall|i: int| 0 <= i < u.jobs.len() implies consistency::job_ok(
            #[trigger] u.jobs[i],
        ) by {
            let a = if i < at {
                i
            } else {
                i + 1
            };
            assert(consistency::job_ok(v.jobs[a]));
        }
        consistency::lemma_changed_jobs(v, u);
    }
}

/// What a filter keeps stands in the same order as before: the row at `i` comes
/// from the position `from[i]`, and positions increase.
pub proof fn lemma_filter_positions<T>(rows: Seq<T>, p: spec_fn(T) -> bool) -> (from: Seq<int>)
    ensures
        from.len() == rows.filter(p).len(),
        forall|i: int|
            0 <= i < from.len() ==> 0 <= #[trigger] from[i] < rows.len() && rows.filter(p)[i]
                == rows[from[i]] && p(rows[from[i]]),
        forall|i: int, j: int| 0 <= i < j < from.len() ==> #[trigger] from[i] < #[trigger] from[j],
        forall|k: int| 0 <= k < rows.len() && p(#[trigger] rows[k]) ==> from.contains(k),
    decreases rows.len(),
{
    reveal(Seq::filter);
    if rows.len() == 0 {
        seq![]
    } else {
        let init = rows.drop_last();
        let before = lemma_filter_positions(init, p);
        assert forall|i: int| 0 <= i < before.len() implies rows[#[trigger] before[i]]
            == init[before[i]] by {}
        if p(rows.last()) {
            let from = before.push(rows.len() - 1);
            assert forall|k: int| 0 <= k < rows.len() && p(
                #[trigger] rows[k],
            ) implies from.contains(k) by {
                if k < init.len() {
                    assert(p(init[k]));
                    let i = choose|i: int| 0 <= i < before.len() && before[i] == k;
                    assert(from[i] == k);
                } else {
                    assert(from[before.len() as int] == k);
                }
            }
            from
        } else {
            assert forall|k: int| 0 <= k < rows.len() && p(
                #[trigger] rows[k],
            ) implies before.contains(k) by {
                assert(p(init[k]));
            }
            before
        }
    }
}

/// Pruning ended runs keeps the tables consistent.
pub proof fn law_prune_keeps_consistency(v: TablesView, before: Timestamp, limit: nat)
    requires
        consistency::consistent(v),
    ensures
        consistency::consistent(queue::without(v, queue::doomed(v, before, limit))),
{
    let ids = queue::doomed(v, before, limit);
    let u = queue::without(v, ids);
    let p = |r: SchedulerRun| !ids.contains(r.id);
    let q = |a: AttemptRow| !ids.contains(a.run_id);
    let runs_from = lemma_filter_positions(v.runs, p);
    let attempts_from = lemma_filter_positions(v.attempts, q);
    consistency::lemma_distinct(v);
    assert forall|i: int, j: int| 0 <= i < j < u.runs.len() implies consistency::runs_apart(
        #[trigger] u.runs[i],
        #[trigger] u.runs[j],
    ) by {
        assert(runs_from[i] < runs_from[j]);
        assert(consistency::runs_apart(v.runs[runs_from[i]], v.runs[runs_from[j]]));
    }
    assert(selection::distinct_runs(u.runs)) by {
        assert forall|i: int, j: int| 0 <= i < j < u.runs.len() implies (#[trigger] u.runs[i]).id
            != (#[trigger] u.runs[j]).id by {
            assert(consistency::runs_apart(u.runs[i], u.runs[j]));
        }
    }
    assert forall|i: int, j: int| 0 <= i < j < u.attempts.len() implies consistency::attempts_apart(
        #[trigger] u.attempts[i],
        #[trigger] u.attempts[j],
    ) by {
        assert(attempts_from[i] < attempts_from[j]);
        assert(consistency::attempts_apart(
            v.attempts[attempts_from[i]],
            v.attempts[attempts_from[j]],
        ));
    }
    assert forall|i: int| 0 <= i < u.runs.len() implies consistency::run_ok(
        #[trigger] u.runs[i],
    ) by {
        assert(consistency::run_ok(v.runs[runs_from[i]]));
    }
    assert forall|k: int| 0 <= k < u.attempts.len() implies consistency::attempt_ok(
        #[trigger] u.attempts[k],
    ) by {
        assert(consistency::attempt_ok(v.attempts[attempts_from[k]]));
    }
    assert forall|k: int| 0 <= k < u.attempts.len() implies #[trigger] consistency::attempt_linked(
        u,
        k,
    ) by {
        let a = u.attempts[k];
        assert(q(v.attempts[attempts_from[k]]));
        assert(consistency::attempt_linked(v, attempts_from[k]));
        consistency::lemma_found(v, a.run_id);
        let j = v.run_position(a.run_id);
        assert(p(v.runs[j]));
        let i = choose|i: int| 0 <= i < runs_from.len() && runs_from[i] == j;
        assert(u.runs[i] == v.runs[j]);
        consistency::lemma_position(u, i);
    }
    assert forall|i: int| 0 <= i < u.runs.len() implies #[trigger] consistency::run_linked(
        u,
        i,
    ) by {
        let j = runs_from[i];
        assert(consistency::run_linked(v, j));
        if u.runs[i].state is Running {
            let k = choose|k: int|
                #[trigger] consistency::carries(v, k, v.runs[j].id, v.runs[j].lease_token->0);
            assert(q(v.attempts[k]));
            let m = choose|m: int| 0 <= m < attempts_from.len() && attempts_from[m] == k;
            assert(u.attempts[m] == v.attempts[k]);
            assert(consistency::carries(u, m, u.runs[i].id, u.runs[i].lease_token->0));
        }
    }
}

} // verus!
