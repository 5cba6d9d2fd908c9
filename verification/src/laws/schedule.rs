//! Recurring jobs: no slot is skipped, no slot runs twice, and what was made of a
//! job is independent of the job from then on.
use vstd::prelude::*;

use crate::cron;
use crate::error::SchedulerError;
use crate::ids::{JobId, RunId};
use crate::jobs;
use crate::models::{Job, SchedulerJob, SchedulerRun};
use crate::store::materialize;
use crate::store::materialize::Tick;
use crate::tables;
use crate::tables::TablesView;
use crate::time::Timestamp;

verus! {

/// A job is advanced only together with the run for the slot it leaves behind. The
/// new cursor is a whole minute in the future, past the old one. All other jobs and all runs
/// stay as they are, and at most one run is added.
pub proof fn law_a_slot_is_never_skipped(
    v: TablesView,
    now: Timestamp,
    id: RunId,
    after: TablesView,
    res: Result<Tick, SchedulerError>,
    j: int,
)
    requires
        (after, res) == materialize::tick_effect(v, now, id),
        0 <= j < v.jobs.len(),
    ensures
        after.jobs.len() == v.jobs.len(),
        after.jobs[j].next_run_at != v.jobs[j].next_run_at ==> {
            &&& v.jobs[j].next_run_at.micros <= now.micros
            &&& cron::is_slot(after.jobs[j].next_run_at.micros, now.micros)
            &&& after.has_occurrence(v.jobs[j].id, v.jobs[j].next_run_at)
            &&& !v.jobs[j].is_paused
        },
        v.runs.len() <= after.runs.len() <= v.runs.len() + 1,
        forall|i: int| 0 <= i < v.runs.len() ==> #[trigger] after.runs[i] == v.runs[i],
        after.attempts == v.attempts,
{
    materialize::lemma_due_position(v.jobs, now);
    let at = materialize::due_position(v.jobs, now);
    if after != v {
        let job = v.jobs[at];
        if cron::next_slot(job.cron_expression@, now) is Some {
            let p = |r: SchedulerRun| tables::is_occurrence(r, job.id, job.next_run_at);
            tables::lemma_first_position(v.runs, p);
            tables::lemma_first_position(after.runs, p);
            if v.has_occurrence(job.id, job.next_run_at) {
                assert(after.runs == v.runs);
            } else {
                assert(after.runs[v.runs.len() as int] == materialize::occurrence(id, job, now));
                assert(p(after.runs[v.runs.len() as int]));
            }
        }
    }
}

/// The run for a slot holds a copy of what the job asked for when the slot came:
/// its name, arguments, attempts, lease and backoff.
pub proof fn law_a_run_copies_its_job(
    v: TablesView,
    now: Timestamp,
    id: RunId,
    after: TablesView,
    res: Result<Tick, SchedulerError>,
)
    requires
        (after, res) == materialize::tick_effect(v, now, id),
        after.runs.len() == v.runs.len() + 1,
    ensures
        ({
            let job = v.jobs[materialize::due_position(v.jobs, now)];
            let run = after.runs.last();
            &&& run.id == id
            &&& run.job_id == Some(job.id)
            &&& run.job_name == job.name
            &&& run.job_args == job.job_args
            &&& run.scheduled_for == job.next_run_at
            &&& run.available_at == job.next_run_at
            &&& run.max_attempts == job.max_attempts
            &&& run.lease_duration == job.lease_duration
            &&& run.retry_backoff == job.retry_backoff
            &&& run.state is Pending
            &&& run.attempt_count == 0
        }),
{
}

/// A job whose stored expression is corrupt, or has no further slot, is paused. Its
/// cursor does not move, and no run is made of it.
pub proof fn law_a_job_without_a_slot_is_paused(
    v: TablesView,
    now: Timestamp,
    id: RunId,
    after: TablesView,
    res: Result<Tick, SchedulerError>,
)
    requires
        (after, res) == materialize::tick_effect(v, now, id),
        materialize::due_position(v.jobs, now) < v.jobs.len(),
        cron::next_slot(
            v.jobs[materialize::due_position(v.jobs, now)].cron_expression@,
            now,
        ) is None,
    ensures
        res == Ok::<Tick, SchedulerError>(Tick::Processed),
        after.runs == v.runs,
        after.jobs[materialize::due_position(v.jobs, now)].is_paused,
        after.jobs[materialize::due_position(v.jobs, now)].next_run_at
            == v.jobs[materialize::due_position(v.jobs, now)].next_run_at,
{
    materialize::lemma_due_position(v.jobs, now);
}

/// A job that was handled is not due again at the same time, so a materialization
/// at one time handles each job at most once.
pub proof fn law_a_handled_job_is_not_due(
    v: TablesView,
    now: Timestamp,
    id: RunId,
    after: TablesView,
)
    requires
        (after, Ok::<Tick, SchedulerError>(Tick::Processed)) == materialize::tick_effect(v, now, id),
    ensures
        materialize::due_position(v.jobs, now) < v.jobs.len(),
        !materialize::is_due(after.jobs[materialize::due_position(v.jobs, now)], now),
{
    materialize::lemma_due_position(v.jobs, now);
}

/// A paused job is never materialized: nothing about it changes.
pub proof fn law_a_paused_job_is_left_alone(
    v: TablesView,
    now: Timestamp,
    id: RunId,
    after: TablesView,
    res: Result<Tick, SchedulerError>,
    j: int,
)
    requires
        (after, res) == materialize::tick_effect(v, now, id),
        0 <= j < v.jobs.len(),
        v.jobs[j].is_paused,
    ensures
        after.jobs[j] == v.jobs[j],
{
    materialize::lemma_due_position(v.jobs, now);
}

/// Ensuring a job that is there moves neither its cursor nor its lifecycle: a slot
/// that is due stays due, and a paused job stays paused.
pub proof fn law_ensuring_keeps_cursor_and_lifecycle(
    v: TablesView,
    now: Timestamp,
    id: JobId,
    spec: jobs::JobSpec,
    after: TablesView,
    res: Result<Job, SchedulerError>,
    j: int,
)
    requires
        jobs::ensures_job(v, now, id, spec, after, res),
        0 <= j < v.jobs.len(),
    ensures
        after.jobs.len() >= v.jobs.len(),
        after.jobs[j].id == v.jobs[j].id,
        after.jobs[j].name == v.jobs[j].name,
        after.jobs[j].next_run_at == v.jobs[j].next_run_at,
        after.jobs[j].is_paused == v.jobs[j].is_paused,
        after.jobs[j].created_at == v.jobs[j].created_at,
        materialize::is_due(after.jobs[j], now) == materialize::is_due(v.jobs[j], now),
{
    tables::lemma_first_position(v.jobs, |r: SchedulerJob| r.name@ == spec.name@);
}

/// Ensuring a job twice adds it once.
pub proof fn law_ensuring_twice_adds_once(
    v: TablesView,
    now: Timestamp,
    id: JobId,
    spec: jobs::JobSpec,
    once: TablesView,
    first: Result<Job, SchedulerError>,
    later: Timestamp,
    other_id: JobId,
    twice: TablesView,
    second: Result<Job, SchedulerError>,
)
    requires
        jobs::ensures_job(v, now, id, spec, once, first),
        jobs::ensures_job(once, later, other_id, spec, twice, second),
        first is Ok,
    ensures
        twice.jobs.len() == once.jobs.len(),
{
    let p = |j: SchedulerJob| j.name@ == spec.name@;
    tables::lemma_first_position(v.jobs, p);
    tables::lemma_first_position(once.jobs, p);
    if v.has_named(spec.name@) {
        let at = v.named_position(spec.name@);
        assert(p(once.jobs[at]));
    } else {
        assert(p(once.jobs[v.jobs.len() as int]));
    }
}

/// No change of a job touches a run or an attempt that is there: later edits and
/// the deletion of a job leave the work that was made of it as it is.
pub proof fn law_job_changes_leave_runs_alone(
    v: TablesView,
    now: Timestamp,
    id: JobId,
    spec: jobs::JobSpec,
    update: jobs::ScheduleUpdate,
    paused: bool,
    created: TablesView,
    ensured: TablesView,
    moved: TablesView,
    one: Result<Job, SchedulerError>,
    two: Result<Job, SchedulerError>,
    three: Result<Option<Job>, SchedulerError>,
)
    requires
        jobs::creates(v, now, id, spec, created, one),
        jobs::ensures_job(v, now, id, spec, ensured, two),
        jobs::reschedules(v, now, id, update, moved, three),
    ensures
        created.runs == v.runs && created.attempts == v.attempts,
        ensured.runs == v.runs && ensured.attempts == v.attempts,
        moved.runs == v.runs && moved.attempts == v.attempts,
        jobs::set_paused_effect(v, now, id, paused).0.runs == v.runs,
        jobs::set_paused_effect(v, now, id, paused).0.attempts == v.attempts,
        jobs::delete_effect(v, id).0.runs == v.runs,
        jobs::delete_effect(v, id).0.attempts == v.attempts,
{
}

/// Resetting a schedule from now moves the cursor of that job to a whole minute in the
/// future, and that of no other job.
pub proof fn law_resetting_moves_into_the_future(
    v: TablesView,
    now: Timestamp,
    id: JobId,
    after: TablesView,
    res: Result<Option<Job>, SchedulerError>,
    j: int,
)
    requires
        jobs::reschedules(v, now, id, jobs::ScheduleUpdate::ResetFromNow, after, res),
        0 <= j < v.jobs.len(),
    ensures
        after.jobs.len() == v.jobs.len(),
        after.jobs[j].next_run_at != v.jobs[j].next_run_at ==> v.jobs[j].id == id
            && cron::is_slot(after.jobs[j].next_run_at.micros, now.micros),
{
    tables::lemma_first_position(v.jobs, |r: SchedulerJob| r.id == id);
}

/// Pausing and resuming a job undo each other but for the date of the change.
pub proof fn law_pause_and_resume_undo_each_other(
    v: TablesView,
    first: Timestamp,
    second: Timestamp,
    id: JobId,
)
    requires
        v.has_job(id),
        !v.job(id)->0.is_paused,
    ensures
        ({
            let paused = jobs::set_paused_effect(v, first, id, true).0;
            let resumed = jobs::set_paused_effect(paused, second, id, false).0;
            &&& paused.job(id) == Some(
                SchedulerJob { is_paused: true, updated_at: first, ..v.job(id)->0 },
            )
            &&& resumed.job(id) == Some(SchedulerJob { updated_at: second, ..v.job(id)->0 })
        }),
{
    let paused = jobs::set_paused_effect(v, first, id, true).0;
    let resumed = jobs::set_paused_effect(paused, second, id, false).0;
    let p = |r: SchedulerJob| r.id == id;
    tables::lemma_first_position(v.jobs, p);
    let at = v.job_position(id);
    assert forall|j: int| 0 <= j < at implies !p(#[trigger] paused.jobs[j]) by {
        assert(!p(v.jobs[j]));
    }
    tables::lemma_is_first_position(paused.jobs, p, at);
    assert forall|j: int| 0 <= j < at implies !p(#[trigger] resumed.jobs[j]) by {
        assert(!p(v.jobs[j]));
    }
    tables::lemma_is_first_position(resumed.jobs, p, at);
}

} // verus!
