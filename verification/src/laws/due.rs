//! Due jobs: every active job whose cursor has come gets its run and a new cursor.
//! What these laws say they say of the columns of the rows.
use vstd::prelude::*;

use crate::consistency;
use crate::cron;
use crate::error::{DatabaseError, SchedulerError};
use crate::ids::RunId;
use crate::laws::batch;
use crate::laws::recovery;
use crate::laws::taking;
use crate::models::{SchedulerJob, SchedulerRun, StoredRunState};
use crate::store::claim;
use crate::store::materialize;
use crate::store::materialize::Tick;
use crate::tables;
use crate::tables::TablesView;
use crate::time::Timestamp;

verus! {

/// A tick is idle where every job is paused or has its cursor in the future, and only
/// there.
pub proof fn law_a_tick_is_idle_only_without_due_jobs(v: TablesView, now: Timestamp, id: RunId)
    ensures
        ({
            let (after, res) = materialize::tick_effect(v, now, id);
            let none = forall|j: int|
                0 <= j < v.jobs.len() ==> (#[trigger] v.jobs[j]).is_paused
                    || v.jobs[j].next_run_at.micros > now.micros;
            &&& res == Ok::<Tick, SchedulerError>(Tick::Idle) <==> none
            &&& none ==> after == v
        }),
{
    materialize::lemma_due_position(v.jobs, now);
}

/// A tick that is not idle takes an active job whose cursor has come, and of those one
/// whose cursor is the earliest. It moves the cursor of that job to the next slot of
/// its expression, together with a run for the slot it leaves, unless there is one; or
/// it pauses the job where its expression has no next slot. Where the identifier of
/// the new run is taken, it changes nothing.
pub proof fn law_a_tick_takes_the_earliest_due_job(v: TablesView, now: Timestamp, id: RunId) -> (at:
    int)
    requires
        !(materialize::tick_effect(v, now, id).1 == Ok::<Tick, SchedulerError>(Tick::Idle)),
    ensures
        0 <= at < v.jobs.len(),
        !v.jobs[at].is_paused,
        v.jobs[at].next_run_at.micros <= now.micros,
        forall|j: int|
            0 <= j < v.jobs.len() && !(#[trigger] v.jobs[j]).is_paused
                ==> v.jobs[at].next_run_at.micros <= v.jobs[j].next_run_at.micros,
        ({
            let (after, res) = materialize::tick_effect(v, now, id);
            let job = v.jobs[at];
            let found = cron::cron_next(job.cron_expression@, now.micros);
            let has_slot = cron::cron_rejection(job.cron_expression@) is None && found is Ok
                && found->Ok_0 > now.micros && found->Ok_0 % 60_000_000 == 0;
            let has_run = exists|r: int|
                0 <= r < v.runs.len() && (#[trigger] v.runs[r]).job_id == Some(job.id)
                    && v.runs[r].scheduled_for == job.next_run_at;
            let taken = exists|r: int| 0 <= r < v.runs.len() && (#[trigger] v.runs[r]).id == id;
            &&& after.attempts == v.attempts
            &&& !has_slot ==> res == Ok::<Tick, SchedulerError>(Tick::Processed) && after.runs
                == v.runs && after.jobs == v.jobs.update(
                at,
                SchedulerJob { is_paused: true, updated_at: now, ..job },
            )
            &&& has_slot && !has_run && taken ==> after == v && res == Err::<Tick, SchedulerError>(
                SchedulerError::Database(DatabaseError::UniqueViolation),
            )
            &&& has_slot && (has_run || !taken) ==> {
                &&& res == Ok::<Tick, SchedulerError>(Tick::Processed)
                &&& after.jobs == v.jobs.update(
                    at,
                    SchedulerJob {
                        next_run_at: Timestamp { micros: found->Ok_0 },
                        updated_at: now,
                        ..job
                    },
                )
                &&& has_run ==> after.runs == v.runs
                &&& !has_run ==> after.runs == v.runs.push(
                    SchedulerRun {
                        id,
                        job_id: Some(job.id),
                        job_name: job.name,
                        job_args: job.job_args,
                        scheduled_for: job.next_run_at,
                        available_at: job.next_run_at,
                        priority: 0,
                        state: StoredRunState::Pending,
                        attempt_count: 0,
                        max_attempts: job.max_attempts,
                        lease_duration: job.lease_duration,
                        retry_backoff: job.retry_backoff,
                        worker_id: None,
                        lease_token: None,
                        lease_expires_at: None,
                        started_at: None,
                        finished_at: None,
                        last_error: None,
                        deduplication_key: None,
                        created_at: now,
                        updated_at: now,
                    },
                )
            }
        }),
{
    materialize::lemma_due_position(v.jobs, now);
    let at = materialize::due_position(v.jobs, now);
    let job = v.jobs[at];
    let p = |r: SchedulerRun| tables::is_occurrence(r, job.id, job.next_run_at);
    tables::lemma_first_position(v.runs, p);
    consistency::lemma_found(v, id);
    if v.has_occurrence(job.id, job.next_run_at) {
        assert(p(v.runs[v.occurrence_position(job.id, job.next_run_at)]));
    } else {
        assert forall|r: int| 0 <= r < v.runs.len() implies !((#[trigger] v.runs[r]).job_id
            == Some(job.id) && v.runs[r].scheduled_for == job.next_run_at) by {
            assert(!p(v.runs[r]));
        }
    }
    if v.has_run(id) {
        assert(v.runs[v.run_position(id)].id == id);
    }
    at
}

/// How many of `jobs` are active with a cursor that has come, as a batch counts them.
proof fn lemma_due_count(jobs: Seq<SchedulerJob>, now: Timestamp)
    ensures
        batch::due_count(jobs, now) == tables::count_where(
            jobs,
            |job: SchedulerJob| !job.is_paused && job.next_run_at.micros <= now.micros,
        ),
        batch::due_count(jobs, now) <= jobs.len(),
{
    recovery::lemma_count_same(
        jobs,
        |job: SchedulerJob| materialize::is_due(job, now),
        |job: SchedulerJob| !job.is_paused && job.next_run_at.micros <= now.micros,
    );
    tables::lemma_count_bound(
        jobs,
        |job: SchedulerJob| materialize::is_due(job, now),
    );
}

/// Identifiers that are distinct and on no run are free.
proof fn lemma_free(v: TablesView, run_ids: Seq<RunId>)
    requires
        forall|a: int, b: int|
            0 <= a < b < run_ids.len() ==> #[trigger] run_ids[a] != #[trigger] run_ids[b],
        forall|a: int, r: int|
            #![trigger run_ids[a], v.runs[r]]
            0 <= a < run_ids.len() && 0 <= r < v.runs.len() ==> v.runs[r].id != run_ids[a],
    ensures
        batch::free_ids(v, run_ids, 0),
{
    assert forall|a: int| 0 <= a < run_ids.len() implies !v.has_run(#[trigger] run_ids[a]) by {
        consistency::lemma_found(v, run_ids[a]);
    }
}

/// A batch under distinct identifiers that are on no run succeeds. It returns how many
/// jobs were active with a cursor that had come, or how many it could handle where that
/// is less: one for each identifier, a hundred at most. So it returns zero, where it
/// had an identifier, only where every job is paused or has its cursor in the future.
pub proof fn law_a_batch_counts_the_due_jobs(v: TablesView, now: Timestamp, run_ids: Seq<RunId>)
    requires
        consistency::consistent(v),
        forall|a: int, b: int|
            0 <= a < b < run_ids.len() ==> #[trigger] run_ids[a] != #[trigger] run_ids[b],
        forall|a: int, r: int|
            #![trigger run_ids[a], v.runs[r]]
            0 <= a < run_ids.len() && 0 <= r < v.runs.len() ==> v.runs[r].id != run_ids[a],
    ensures
        ({
            let res = materialize::batch_effect(v, now, run_ids).1;
            let due = tables::count_where(
                v.jobs,
                |job: SchedulerJob| !job.is_paused && job.next_run_at.micros <= now.micros,
            );
            &&& res is Ok
            &&& res->Ok_0 <= due
            &&& res->Ok_0 <= run_ids.len()
            &&& res->Ok_0 <= 100
            &&& res->Ok_0 == due || res->Ok_0 == run_ids.len() || res->Ok_0 == 100
            &&& run_ids.len() > 0 && res->Ok_0 == 0 ==> forall|j: int|
                0 <= j < v.jobs.len() ==> (#[trigger] v.jobs[j]).is_paused
                    || v.jobs[j].next_run_at.micros > now.micros
        }),
{
    lemma_free(v, run_ids);
    lemma_due_count(v.jobs, now);
    batch::law_a_batch_handles_every_due_job(v, now, run_ids);
    let due = |job: SchedulerJob| materialize::is_due(job, now);
    assert forall|j: int|
        run_ids.len() > 0 && materialize::batch_effect(v, now, run_ids).1->Ok_0 == 0 && 0 <= j
            < v.jobs.len() implies (#[trigger] v.jobs[j]).is_paused
        || v.jobs[j].next_run_at.micros > now.micros by {
        if !v.jobs[j].is_paused && v.jobs[j].next_run_at.micros <= now.micros {
            batch::lemma_count_positive(v.jobs, due, j);
        }
    }
}

/// Every active job whose cursor has come is handled by a batch that has room. Where
/// its expression has a next slot, the cursor is there, later than now, and there is a
/// run for the slot that came. Where it has none, the job is paused and keeps its
/// cursor. A job is left as it was only where the batch is full: it has used all its
/// identifiers, or handled a hundred jobs.
pub proof fn law_every_due_job_is_handled(
    v: TablesView,
    now: Timestamp,
    run_ids: Seq<RunId>,
    j: int,
)
    requires
        consistency::consistent(v),
        forall|a: int, b: int|
            0 <= a < b < run_ids.len() ==> #[trigger] run_ids[a] != #[trigger] run_ids[b],
        forall|a: int, r: int|
            #![trigger run_ids[a], v.runs[r]]
            0 <= a < run_ids.len() && 0 <= r < v.runs.len() ==> v.runs[r].id != run_ids[a],
        0 <= j < v.jobs.len(),
        !v.jobs[j].is_paused,
        v.jobs[j].next_run_at.micros <= now.micros,
    ensures
        ({
            let (after, res) = materialize::batch_effect(v, now, run_ids);
            let job = v.jobs[j];
            let found = cron::cron_next(job.cron_expression@, now.micros);
            let has_slot = cron::cron_rejection(job.cron_expression@) is None && found is Ok
                && found->Ok_0 > now.micros && found->Ok_0 % 60_000_000 == 0;
            let room = v.jobs.len() <= run_ids.len() && v.jobs.len() <= 100;
            &&& res is Ok
            &&& after.jobs.len() == v.jobs.len()
            &&& after.jobs[j] == job ==> !room && (res->Ok_0 == run_ids.len() || res->Ok_0 == 100)
            &&& after.jobs[j] != job && has_slot ==> {
                &&& after.jobs[j] == (SchedulerJob {
                    next_run_at: Timestamp { micros: found->Ok_0 },
                    updated_at: now,
                    ..job
                })
                &&& after.jobs[j].next_run_at.micros > now.micros
                &&& exists|r: int|
                    0 <= r < after.runs.len() && (#[trigger] after.runs[r]).job_id == Some(job.id)
                        && after.runs[r].scheduled_for == job.next_run_at
            }
            &&& after.jobs[j] != job && !has_slot ==> after.jobs[j] == (SchedulerJob {
                is_paused: true,
                updated_at: now,
                ..job
            })
        }),
{
    lemma_free(v, run_ids);
    lemma_due_count(v.jobs, now);
    batch::law_a_batch_handles_every_due_job(v, now, run_ids);
    let (after, res) = materialize::batch_effect(v, now, run_ids);
    let job = v.jobs[j];
    assert(batch::settled(v, after, now, j));
    if after.jobs[j] == job {
        if batch::due_count(v.jobs, now) <= batch::room(run_ids.len()) {
            assert(after.jobs[j] == batch::handled_job(v.jobs[j], now));
            assert(!materialize::is_due(batch::handled_job(v.jobs[j], now), now));
        }
    } else if cron::next_slot(job.cron_expression@, now) is Some {
        let p = |r: SchedulerRun| tables::is_occurrence(r, job.id, job.next_run_at);
        tables::lemma_first_position(after.runs, p);
        assert(p(after.runs[after.occurrence_position(job.id, job.next_run_at)]));
    }
}

/// A job that is paused, or has its cursor in the future, is left as it was by a batch.
/// So are all runs and attempts that were there.
pub proof fn law_a_batch_leaves_the_rest(
    v: TablesView,
    now: Timestamp,
    run_ids: Seq<RunId>,
    j: int,
    r: int,
)
    requires
        consistency::consistent(v),
        forall|a: int, b: int|
            0 <= a < b < run_ids.len() ==> #[trigger] run_ids[a] != #[trigger] run_ids[b],
        forall|a: int, r: int|
            #![trigger run_ids[a], v.runs[r]]
            0 <= a < run_ids.len() && 0 <= r < v.runs.len() ==> v.runs[r].id != run_ids[a],
    ensures
        ({
            let after = materialize::batch_effect(v, now, run_ids).0;
            &&& after.attempts == v.attempts
            &&& 0 <= r < v.runs.len() ==> after.runs[r] == v.runs[r]
            &&& 0 <= j < v.jobs.len() && (v.jobs[j].is_paused || v.jobs[j].next_run_at.micros
                > now.micros) ==> after.jobs[j] == v.jobs[j]
        }),
{
    lemma_free(v, run_ids);
    batch::law_a_batch_handles_every_due_job(v, now, run_ids);
    let after = materialize::batch_effect(v, now, run_ids).0;
    if 0 <= j < v.jobs.len() {
        assert(batch::settled(v, after, now, j));
    }
}

/// Of two active jobs whose cursors have come, the one with the earlier cursor is
/// handled before the other.
pub proof fn law_the_earliest_cursor_comes_first(
    v: TablesView,
    now: Timestamp,
    run_ids: Seq<RunId>,
    done: int,
    left: int,
)
    requires
        consistency::consistent(v),
        forall|a: int, b: int|
            0 <= a < b < run_ids.len() ==> #[trigger] run_ids[a] != #[trigger] run_ids[b],
        forall|a: int, r: int|
            #![trigger run_ids[a], v.runs[r]]
            0 <= a < run_ids.len() && 0 <= r < v.runs.len() ==> v.runs[r].id != run_ids[a],
        0 <= done < v.jobs.len(),
        materialize::batch_effect(v, now, run_ids).0.jobs[done] != v.jobs[done],
        0 <= left < v.jobs.len(),
        !v.jobs[left].is_paused,
        materialize::batch_effect(v, now, run_ids).0.jobs[left] == v.jobs[left],
    ensures
        v.jobs[done].next_run_at.micros <= v.jobs[left].next_run_at.micros,
{
    lemma_free(v, run_ids);
    batch::law_a_batch_handles_every_due_job(v, now, run_ids);
    let after = materialize::batch_effect(v, now, run_ids).0;
    assert(batch::settled(v, after, now, done));
    assert(after.jobs[done] != v.jobs[done] && after.jobs[left] == v.jobs[left]);
}

/// Every run that a batch adds is for the slot of an active job whose cursor had come,
/// under one of the identifiers, and holds a copy of what the job asks for. It waits,
/// available since that slot.
pub proof fn law_a_new_run_is_for_a_due_job(
    v: TablesView,
    now: Timestamp,
    run_ids: Seq<RunId>,
    r: int,
) -> (j: int)
    requires
        consistency::consistent(v),
        forall|a: int, b: int|
            0 <= a < b < run_ids.len() ==> #[trigger] run_ids[a] != #[trigger] run_ids[b],
        forall|a: int, r: int|
            #![trigger run_ids[a], v.runs[r]]
            0 <= a < run_ids.len() && 0 <= r < v.runs.len() ==> v.runs[r].id != run_ids[a],
        v.runs.len() <= r < materialize::batch_effect(v, now, run_ids).0.runs.len(),
    ensures
        0 <= j < v.jobs.len(),
        !v.jobs[j].is_paused,
        v.jobs[j].next_run_at.micros <= now.micros,
        ({
            let run = materialize::batch_effect(v, now, run_ids).0.runs[r];
            let job = v.jobs[j];
            &&& run_ids.contains(run.id)
            &&& run.job_id == Some(job.id)
            &&& run.job_name == job.name
            &&& run.job_args == job.job_args
            &&& run.scheduled_for == job.next_run_at
            &&& run.available_at == job.next_run_at
            &&& run.priority == 0
            &&& run.state is Pending
            &&& run.attempt_count == 0
            &&& run.max_attempts == job.max_attempts
            &&& run.lease_duration == job.lease_duration
            &&& run.retry_backoff == job.retry_backoff
            &&& run.worker_id is None
            &&& run.lease_token is None
            &&& run.lease_expires_at is None
            &&& run.started_at is None
            &&& run.finished_at is None
            &&& run.last_error is None
            &&& run.deduplication_key is None
            &&& run.created_at == now
            &&& run.updated_at == now
        }),
{
    lemma_free(v, run_ids);
    lemma_new_run(v, now, run_ids, 0, r)
}

/// Where a run comes from that a batch adds from a given step on.
proof fn lemma_new_run(
    v: TablesView,
    now: Timestamp,
    run_ids: Seq<RunId>,
    done: usize,
    r: int,
) -> (j: int)
    requires
        consistency::consistent(v),
        batch::free_ids(v, run_ids, done as int),
        done <= batch::room(run_ids.len()),
        done < materialize::MATERIALIZE_LIMIT,
        v.runs.len() <= r < materialize::batch_from(v, now, run_ids, done).0.runs.len(),
    ensures
        0 <= j < v.jobs.len(),
        !v.jobs[j].is_paused,
        v.jobs[j].next_run_at.micros <= now.micros,
        ({
            let run = materialize::batch_from(v, now, run_ids, done).0.runs[r];
            &&& run_ids.contains(run.id)
            &&& run == materialize::occurrence(run.id, v.jobs[j], now)
        }),
    decreases run_ids.len() - done,
{
    let (after, res) = materialize::batch_from(v, now, run_ids, done);
    let (u, tick) = materialize::tick_effect(v, now, run_ids[done as int]);
    let at = materialize::due_position(v.jobs, now);
    batch::lemma_step(v, now, run_ids, done);
    materialize::lemma_due_position(v.jobs, now);
    assert(batch::settled(v, u, now, at));
    assert(run_ids.contains(run_ids[done as int]));
    if done + 1 < materialize::MATERIALIZE_LIMIT {
        batch::lemma_batch(u, now, run_ids, (done + 1) as usize);
        if r < u.runs.len() {
            assert(after.runs[r] == u.runs[r]);
            at
        } else {
            let j = lemma_new_run(u, now, run_ids, (done + 1) as usize, r);
            assert(j != at);
            assert(u.jobs[j] == v.jobs[j]);
            j
        }
    } else {
        at
    }
}

/// No job gets two runs from one batch, however many slots it has missed.
pub proof fn law_each_job_gets_one_run(
    v: TablesView,
    now: Timestamp,
    run_ids: Seq<RunId>,
    r: int,
    s: int,
)
    requires
        consistency::consistent(v),
        forall|a: int, b: int|
            0 <= a < b < run_ids.len() ==> #[trigger] run_ids[a] != #[trigger] run_ids[b],
        forall|a: int, r: int|
            #![trigger run_ids[a], v.runs[r]]
            0 <= a < run_ids.len() && 0 <= r < v.runs.len() ==> v.runs[r].id != run_ids[a],
        v.runs.len() <= r < s < materialize::batch_effect(v, now, run_ids).0.runs.len(),
    ensures
        materialize::batch_effect(v, now, run_ids).0.runs[r].job_id != materialize::batch_effect(
            v,
            now,
            run_ids,
        ).0.runs[s].job_id,
{
    let after = materialize::batch_effect(v, now, run_ids).0;
    let i = law_a_new_run_is_for_a_due_job(v, now, run_ids, r);
    let j = law_a_new_run_is_for_a_due_job(v, now, run_ids, s);
    batch::law_a_batch_keeps_consistency(v, now, run_ids);
    assert(consistency::runs_apart(after.runs[r], after.runs[s]));
    if i < j {
        assert(consistency::jobs_apart(v.jobs[i], v.jobs[j]));
    } else if j < i {
        assert(consistency::jobs_apart(v.jobs[j], v.jobs[i]));
    }
}

/// A run that a batch has just added is chosen by the next claim for the name of its
/// job, however long its slot has been over, or that claim chooses as many runs as were
/// asked for.
pub proof fn law_a_new_run_is_chosen_next(
    v: TablesView,
    now: Timestamp,
    run_ids: Seq<RunId>,
    r: int,
    names: Seq<String>,
    n: int,
    later: Timestamp,
    limit: nat,
)
    requires
        consistency::consistent(v),
        forall|a: int, b: int|
            0 <= a < b < run_ids.len() ==> #[trigger] run_ids[a] != #[trigger] run_ids[b],
        forall|a: int, r: int|
            #![trigger run_ids[a], v.runs[r]]
            0 <= a < run_ids.len() && 0 <= r < v.runs.len() ==> v.runs[r].id != run_ids[a],
        v.runs.len() <= r < materialize::batch_effect(v, now, run_ids).0.runs.len(),
        0 <= n < names.len(),
        names[n]@ == materialize::batch_effect(v, now, run_ids).0.runs[r].job_name@,
        now.micros <= later.micros,
    ensures
        ({
            let after = materialize::batch_effect(v, now, run_ids).0;
            claim::chosen(after, names, later, limit).contains(after.runs[r].id) || claim::chosen(
                after,
                names,
                later,
                limit,
            ).len() == limit
        }),
{
    let after = materialize::batch_effect(v, now, run_ids).0;
    let j = law_a_new_run_is_for_a_due_job(v, now, run_ids, r);
    batch::law_a_batch_keeps_consistency(v, now, run_ids);
    taking::law_every_available_run_is_chosen(after, names, later, limit, r, n);
}

} // verus!
