//! Batches of due jobs: every job that is due is handled once, whatever becomes of
//! the others.
use vstd::prelude::*;

use crate::consistency;
use crate::cron;
use crate::error::SchedulerError;
use crate::ids::{JobId, RunId};
use crate::laws::keeping;
use crate::models::{SchedulerJob, SchedulerRun};
use crate::store::materialize;
use crate::store::materialize::{MATERIALIZE_LIMIT, Tick};
use crate::tables;
use crate::tables::TablesView;
use crate::time::Timestamp;

verus! {

/// How many of `jobs` are due at `now`.
pub open spec fn due_count(jobs: Seq<SchedulerJob>, now: Timestamp) -> nat {
    tables::count_where(jobs, |job: SchedulerJob| materialize::is_due(job, now))
}

/// How many of `runs` were made of job `id`.
pub open spec fn runs_of(runs: Seq<SchedulerRun>, id: JobId) -> nat {
    tables::count_where(runs, |r: SchedulerRun| r.job_id == Some(id))
}

/// `job` once it was handled at `now`: with its cursor at its next slot, or paused
/// where it has none.
pub open spec fn handled_job(job: SchedulerJob, now: Timestamp) -> SchedulerJob {
    match cron::next_slot(job.cron_expression@, now) {
        Some(next) => SchedulerJob { next_run_at: next, updated_at: now, ..job },
        None => SchedulerJob { is_paused: true, updated_at: now, ..job },
    }
}

/// How many runs handling `job` adds to `v`: one for its slot, unless the slot has
/// one or the job has no further slot.
pub open spec fn gain(v: TablesView, job: SchedulerJob, now: Timestamp) -> nat {
    if cron::next_slot(job.cron_expression@, now) is Some && !v.has_occurrence(
        job.id,
        job.next_run_at,
    ) {
        1
    } else {
        0
    }
}

/// Whether `run_ids` are distinct, and none of those from `from` on is taken in `v`.
pub open spec fn free_ids(v: TablesView, run_ids: Seq<RunId>, from: int) -> bool {
    &&& run_ids.no_duplicates()
    &&& forall|i: int| from <= i < run_ids.len() ==> !v.has_run(#[trigger] run_ids[i])
}

/// How many jobs a batch with `n` identifiers may handle.
pub open spec fn room(n: nat) -> nat {
    if n < MATERIALIZE_LIMIT {
        n
    } else {
        MATERIALIZE_LIMIT as nat
    }
}

/// Whether job `j` of `v` is in `after` either as it was, or handled, which only a
/// due job is. A handled job is no longer due, has the run of its slot where it has
/// a further one, and no more runs than that one; a job that was not handled has
/// the runs it had.
pub open spec fn settled(v: TablesView, after: TablesView, now: Timestamp, j: int) -> bool {
    let job = v.jobs[j];
    if after.jobs[j] == job {
        runs_of(after.runs, job.id) == runs_of(v.runs, job.id)
    } else {
        &&& materialize::is_due(job, now)
        &&& after.jobs[j] == handled_job(job, now)
        &&& !materialize::is_due(after.jobs[j], now)
        &&& cron::next_slot(job.cron_expression@, now) is Some ==> after.has_occurrence(
            job.id,
            job.next_run_at,
        ) && cron::is_slot(after.jobs[j].next_run_at.micros, now.micros)
        &&& runs_of(after.runs, job.id) == runs_of(v.runs, job.id) + gain(v, job, now)
    }
}

/// Replacing one row changes the count by that row alone.
proof fn lemma_count_update<T>(rows: Seq<T>, p: spec_fn(T) -> bool, at: int, row: T)
    requires
        0 <= at < rows.len(),
    ensures
        tables::count_where(rows.update(at, row), p) + (if p(rows[at]) {
            1nat
        } else {
            0nat
        }) == tables::count_where(rows, p) + (if p(row) {
            1nat
        } else {
            0nat
        }),
    decreases rows.len(),
{
    let changed = rows.update(at, row);
    if at == rows.len() - 1 {
        assert(changed.drop_last() =~= rows.drop_last());
    } else {
        assert(changed.drop_last() =~= rows.drop_last().update(at, row));
        lemma_count_update(rows.drop_last(), p, at, row);
    }
}

/// Where a row satisfies `p`, the count is not zero.
pub proof fn lemma_count_positive<T>(rows: Seq<T>, p: spec_fn(T) -> bool, at: int)
    requires
        0 <= at < rows.len(),
        p(rows[at]),
    ensures
        tables::count_where(rows, p) > 0,
    decreases rows.len(),
{
    if at < rows.len() - 1 {
        assert(rows.drop_last()[at] == rows[at]);
        lemma_count_positive(rows.drop_last(), p, at);
    }
}

/// What one step of a batch under a free identifier does.
pub proof fn lemma_step(v: TablesView, now: Timestamp, run_ids: Seq<RunId>, done: usize)
    requires
        consistency::consistent(v),
        done < run_ids.len(),
        free_ids(v, run_ids, done as int),
    ensures
        ({
            let at = materialize::due_position(v.jobs, now);
            let (u, tick) = materialize::tick_effect(v, now, run_ids[done as int]);
            &&& consistency::consistent(u)
            &&& free_ids(u, run_ids, done + 1)
            &&& u.attempts == v.attempts
            &&& v.runs.len() <= u.runs.len()
            &&& forall|i: int| 0 <= i < v.runs.len() ==> #[trigger] u.runs[i] == v.runs[i]
            &&& if due_count(v.jobs, now) == 0 {
                &&& tick == Ok::<Tick, SchedulerError>(Tick::Idle)
                &&& u == v
            } else {
                &&& tick == Ok::<Tick, SchedulerError>(Tick::Processed)
                &&& 0 <= at < v.jobs.len()
                &&& materialize::is_due(v.jobs[at], now)
                &&& u.jobs == v.jobs.update(at, handled_job(v.jobs[at], now))
                &&& due_count(u.jobs, now) + 1 == due_count(v.jobs, now)
                &&& forall|j: int| 0 <= j < v.jobs.len() ==> #[trigger] settled(v, u, now, j)
                &&& forall|j: int|
                    0 <= j < v.jobs.len() && j != at ==> (#[trigger] gain(u, v.jobs[j], now) == gain(
                        v,
                        v.jobs[j],
                        now,
                    ))
                &&& u.jobs[at] != v.jobs[at]
            }
        }),
{
    let id = run_ids[done as int];
    let at = materialize::due_position(v.jobs, now);
    let (u, tick) = materialize::tick_effect(v, now, id);
    let due = |job: SchedulerJob| materialize::is_due(job, now);
    materialize::lemma_due_position(v.jobs, now);
    keeping::law_tick_keeps_consistency(v, now, id, u, tick);
    assert(!v.has_run(run_ids[done as int]));
    if at == v.jobs.len() {
        assert forall|j: int| 0 <= j < v.jobs.len() implies !due(#[trigger] v.jobs[j]) by {}
        consistency::lemma_count_none(v.jobs, due);
    } else {
        let job = v.jobs[at];
        let run = materialize::occurrence(id, job, now);
        lemma_count_positive(v.jobs, due, at);
        lemma_count_update(v.jobs, due, at, handled_job(job, now));
        assert(u.jobs =~= v.jobs.update(at, handled_job(job, now)));
        let added = gain(v, job, now) == 1;
        assert(u.runs =~= if added {
            v.runs.push(run)
        } else {
            v.runs
        });
        if added {
            assert(u.runs.drop_last() =~= v.runs);
        }
        assert forall|i: int| done + 1 <= i < run_ids.len() implies !u.has_run(
            #[trigger] run_ids[i],
        ) by {
            let same = |r: SchedulerRun| r.id == run_ids[i];
            assert(!v.has_run(run_ids[i]));
            tables::lemma_first_position(v.runs, same);
            tables::lemma_first_position(u.runs, same);
            assert(run_ids[i] != id);
            assert forall|k: int| 0 <= k < u.runs.len() implies !same(#[trigger] u.runs[k]) by {
                if k < v.runs.len() {
                    assert(!same(v.runs[k]));
                }
            }
        }
        assert forall|j: int| 0 <= j < v.jobs.len() implies #[trigger] settled(v, u, now, j)
            && (j != at ==> gain(u, v.jobs[j], now) == gain(v, v.jobs[j], now)) by {
            let other = v.jobs[j];
            let p = |r: SchedulerRun|
                tables::is_occurrence(r, other.id, other.next_run_at);
            tables::lemma_first_position(v.runs, p);
            tables::lemma_first_position(u.runs, p);
            if j != at {
                if j < at {
                    assert(consistency::jobs_apart(v.jobs[j], v.jobs[at]));
                } else {
                    assert(consistency::jobs_apart(v.jobs[at], v.jobs[j]));
                }
                if added {
                    assert(!p(run));
                    let found = tables::first_position(v.runs, p);
                    if found < v.runs.len() {
                        assert(p(u.runs[found]));
                    } else {
                        assert forall|k: int| 0 <= k < u.runs.len() implies !p(
                            #[trigger] u.runs[k],
                        ) by {
                            if k < v.runs.len() {
                                assert(!p(v.runs[k]));
                            }
                        }
                    }
                }
            } else if added {
                assert(p(u.runs[v.runs.len() as int]));
            }
        }
    }
}

/// What a batch does from a given step on.
pub proof fn lemma_batch(v: TablesView, now: Timestamp, run_ids: Seq<RunId>, done: usize)
    requires
        consistency::consistent(v),
        free_ids(v, run_ids, done as int),
        done <= room(run_ids.len()),
        done < MATERIALIZE_LIMIT,
    ensures
        ({
            let (after, res) = materialize::batch_from(v, now, run_ids, done);
            let left = (room(run_ids.len()) - done) as nat;
            let due = due_count(v.jobs, now);
            let count = if due < left {
                due
            } else {
                left
            };
            &&& res is Ok
            &&& res->Ok_0 == done + count
            &&& consistency::consistent(after)
            &&& after.jobs.len() == v.jobs.len()
            &&& after.attempts == v.attempts
            &&& v.runs.len() <= after.runs.len()
            &&& forall|i: int| 0 <= i < v.runs.len() ==> #[trigger] after.runs[i] == v.runs[i]
            &&& due_count(after.jobs, now) == due - count
            &&& forall|j: int| 0 <= j < v.jobs.len() ==> #[trigger] settled(v, after, now, j)
            &&& forall|i: int, j: int|
                #![trigger after.jobs[i], after.jobs[j]]
                0 <= i < v.jobs.len() && 0 <= j < v.jobs.len() && after.jobs[i] != v.jobs[i]
                    && materialize::is_due(v.jobs[j], now) && after.jobs[j] == v.jobs[j]
                    ==> v.jobs[i].next_run_at.micros <= v.jobs[j].next_run_at.micros
        }),
    decreases run_ids.len() - done,
{
    let (after, res) = materialize::batch_from(v, now, run_ids, done);
    if done < run_ids.len() {
        let (u, tick) = materialize::tick_effect(v, now, run_ids[done as int]);
        let at = materialize::due_position(v.jobs, now);
        lemma_step(v, now, run_ids, done);
        materialize::lemma_due_position(v.jobs, now);
        if due_count(v.jobs, now) > 0 {
            assert(settled(v, u, now, at));
            if done + 1 < MATERIALIZE_LIMIT {
                lemma_batch(u, now, run_ids, (done + 1) as usize);
                assert forall|j: int| 0 <= j < v.jobs.len() implies #[trigger] settled(
                    v,
                    after,
                    now,
                    j,
                ) by {
                    assert(settled(v, u, now, j));
                    assert(settled(u, after, now, j));
                    if j == at {
                        let job = v.jobs[at];
                        let p = |r: SchedulerRun|
                            tables::is_occurrence(r, job.id, job.next_run_at);
                        tables::lemma_first_position(u.runs, p);
                        tables::lemma_first_position(after.runs, p);
                        if u.has_occurrence(job.id, job.next_run_at) {
                            let found = tables::first_position(u.runs, p);
                            assert(after.runs[found] == u.runs[found]);
                            assert(p(after.runs[found]));
                        }
                    }
                    if j != at {
                        assert(gain(u, v.jobs[j], now) == gain(v, v.jobs[j], now));
                        assert(u.jobs[j] == v.jobs[j]);
                    }
                }
                assert forall|i: int, j: int|
                    #![trigger after.jobs[i], after.jobs[j]]
                    0 <= i < v.jobs.len() && 0 <= j < v.jobs.len() && after.jobs[i] != v.jobs[i]
                        && materialize::is_due(v.jobs[j], now) && after.jobs[j]
                        == v.jobs[j] implies v.jobs[i].next_run_at.micros
                    <= v.jobs[j].next_run_at.micros by {
                    assert(settled(u, after, now, at));
                    assert(j != at);
                    if i != at {
                        assert(u.jobs[i] == v.jobs[i] && u.jobs[j] == v.jobs[j]);
                    }
                }
            }
        }
    }
}

/// A batch under distinct and unused identifiers never fails. It handles all jobs
/// that are due, or as many as it may, those whose slot came first before the
/// others; a job without a further slot is paused and stands in the way of none.
/// Each job that it handles gets one run for the slot that came, however many it
/// missed, and a cursor at a whole minute in the future; no other job is touched. Runs and attempts
/// that are there stay as they are.
pub proof fn law_a_batch_handles_every_due_job(
    v: TablesView,
    now: Timestamp,
    run_ids: Seq<RunId>,
)
    requires
        consistency::consistent(v),
        free_ids(v, run_ids, 0),
    ensures
        ({
            let (after, res) = materialize::batch_effect(v, now, run_ids);
            let due = due_count(v.jobs, now);
            let most = room(run_ids.len());
            &&& res is Ok
            &&& res->Ok_0 == if due < most {
                due
            } else {
                most
            }
            &&& consistency::consistent(after)
            &&& after.jobs.len() == v.jobs.len()
            &&& after.attempts == v.attempts
            &&& v.runs.len() <= after.runs.len()
            &&& forall|i: int| 0 <= i < v.runs.len() ==> #[trigger] after.runs[i] == v.runs[i]
            &&& forall|j: int| 0 <= j < v.jobs.len() ==> #[trigger] settled(v, after, now, j)
            &&& due <= most ==> forall|j: int|
                0 <= j < v.jobs.len() && materialize::is_due(v.jobs[j], now)
                    ==> #[trigger] after.jobs[j] == handled_job(v.jobs[j], now)
            &&& forall|i: int, j: int|
                #![trigger after.jobs[i], after.jobs[j]]
                0 <= i < v.jobs.len() && 0 <= j < v.jobs.len() && after.jobs[i] != v.jobs[i]
                    && materialize::is_due(v.jobs[j], now) && after.jobs[j] == v.jobs[j]
                    ==> v.jobs[i].next_run_at.micros <= v.jobs[j].next_run_at.micros
        }),
{
    lemma_batch(v, now, run_ids, 0);
    let (after, res) = materialize::batch_effect(v, now, run_ids);
    let due = |job: SchedulerJob| materialize::is_due(job, now);
    if due_count(v.jobs, now) <= room(run_ids.len()) {
        assert forall|j: int| 0 <= j < v.jobs.len() && materialize::is_due(
            v.jobs[j],
            now,
        ) implies #[trigger] after.jobs[j] == handled_job(v.jobs[j], now) by {
            assert(settled(v, after, now, j));
            if after.jobs[j] == v.jobs[j] {
                lemma_count_positive(after.jobs, due, j);
            }
        }
    }
}

/// After a batch that handled all that was due, another one finds nothing to do, as
/// long as no further slot has come, and changes nothing.
pub proof fn law_a_second_batch_finds_nothing(
    v: TablesView,
    now: Timestamp,
    run_ids: Seq<RunId>,
    later: Timestamp,
    other_ids: Seq<RunId>,
)
    requires
        consistency::consistent(v),
        free_ids(v, run_ids, 0),
        due_count(v.jobs, now) <= room(run_ids.len()),
        forall|j: int|
            0 <= j < v.jobs.len() ==> {
                let job = #[trigger] materialize::batch_effect(v, now, run_ids).0.jobs[j];
                job.is_paused || job.next_run_at.micros <= now.micros
                    || job.next_run_at.micros > later.micros
            },
    ensures
        ({
            let after = materialize::batch_effect(v, now, run_ids).0;
            materialize::batch_effect(after, later, other_ids) == (
                after,
                Ok::<usize, SchedulerError>(0),
            )
        }),
{
    law_a_batch_handles_every_due_job(v, now, run_ids);
    let after = materialize::batch_effect(v, now, run_ids).0;
    materialize::lemma_due_position(after.jobs, later);
    assert forall|j: int| 0 <= j < after.jobs.len() implies !materialize::is_due(
        #[trigger] after.jobs[j],
        later,
    ) by {
        assert(settled(v, after, now, j));
    }
}

/// A batch keeps the tables consistent, whatever its identifiers are.
pub proof fn law_a_batch_keeps_consistency(v: TablesView, now: Timestamp, run_ids: Seq<RunId>)
    requires
        consistency::consistent(v),
    ensures
        consistency::consistent(materialize::batch_effect(v, now, run_ids).0),
{
    lemma_batch_consistent(v, now, run_ids, 0);
}

proof fn lemma_batch_consistent(
    v: TablesView,
    now: Timestamp,
    run_ids: Seq<RunId>,
    done: usize,
)
    requires
        consistency::consistent(v),
    ensures
        consistency::consistent(materialize::batch_from(v, now, run_ids, done).0),
    decreases run_ids.len() - done,
{
    if done < run_ids.len() {
        let (u, tick) = materialize::tick_effect(v, now, run_ids[done as int]);
        keeping::law_tick_keeps_consistency(v, now, run_ids[done as int], u, tick);
        if materialize::batch_step(done, tick).1 is None {
            lemma_batch_consistent(u, now, run_ids, (done + 1) as usize);
        }
    }
}

} // verus!
