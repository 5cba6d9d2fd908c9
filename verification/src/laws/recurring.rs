//! Recurring jobs: a job is stored as it was asked for, changed where it is asked to be
//! and nowhere else, and read as it is stored. What these laws say they say of the
//! columns of the rows.
use vstd::prelude::*;

use crate::cron;
use crate::error::{CorruptJobRow, DatabaseError, SchedulerError};
use crate::ids::{JobId, JobName};
use crate::jobs;
use crate::jobs::Applied;
use crate::models;
use crate::models::{Job, SchedulerJob};
use crate::policy::MaxAttemptsError;
use crate::tables;
use crate::tables::TablesView;
use crate::time::Timestamp;

verus! {

/// In `jobs` with distinct identifiers, a job is found under its identifier.
proof fn lemma_job_at(v: TablesView, j: int)
    requires
        0 <= j < v.jobs.len(),
        forall|a: int, b: int|
            0 <= a < b < v.jobs.len() ==> (#[trigger] v.jobs[a]).id != (#[trigger] v.jobs[b]).id,
    ensures
        v.job_position(v.jobs[j].id) == j,
        v.has_job(v.jobs[j].id),
        v.job(v.jobs[j].id) == Some(v.jobs[j]),
{
    let p = |r: SchedulerJob| r.id == v.jobs[j].id;
    assert forall|a: int| 0 <= a < j implies !p(#[trigger] v.jobs[a]) by {
        assert(v.jobs[a].id != v.jobs[j].id);
    }
    tables::lemma_is_first_position(v.jobs, p, j);
}

/// What is found for an identifier is a job that has it.
proof fn lemma_job_found(v: TablesView, id: JobId)
    ensures
        v.has_job(id) <==> exists|j: int| 0 <= j < v.jobs.len() && (#[trigger] v.jobs[j]).id == id,
{
    let p = |r: SchedulerJob| r.id == id;
    tables::lemma_first_position(v.jobs, p);
    if v.has_job(id) {
        assert(v.jobs[v.job_position(id)].id == id);
    } else {
        assert(forall|j: int| 0 <= j < v.jobs.len() ==> !p(#[trigger] v.jobs[j]));
    }
}

/// What is found for a name is a job that has it.
proof fn lemma_name_found(v: TablesView, name: JobName)
    ensures
        v.has_named(name@) <==> exists|j: int|
            0 <= j < v.jobs.len() && (#[trigger] v.jobs[j]).name@ == name@,
{
    let p = |r: SchedulerJob| r.name@ == name@;
    tables::lemma_first_position(v.jobs, p);
    if v.has_named(name@) {
        assert(p(v.jobs[v.named_position(name@)]));
    } else {
        assert(forall|j: int| 0 <= j < v.jobs.len() ==> !p(#[trigger] v.jobs[j]));
    }
}

/// Creating a job under a name and an identifier that no job has adds it, where its
/// expression has a next slot: as it was asked for, with its cursor at that slot, and a
/// backoff of one second. The job that is returned says the same.
pub proof fn law_a_job_is_stored_as_asked(
    v: TablesView,
    now: Timestamp,
    id: JobId,
    spec: jobs::JobSpec,
    next: i64,
    after: TablesView,
    res: Result<Job, SchedulerError>,
)
    requires
        jobs::creates(v, now, id, spec, after, res),
        cron::cron_next(spec.cron, now.micros) == Ok::<i64, Seq<char>>(next),
        forall|j: int|
            0 <= j < v.jobs.len() ==> (#[trigger] v.jobs[j]).id != id && v.jobs[j].name@
                != spec.name@,
    ensures
        next > now.micros,
        res is Ok,
        after.runs == v.runs,
        after.attempts == v.attempts,
        ({
            let row = after.jobs[v.jobs.len() as int];
            let job = res->Ok_0;
            &&& after.jobs == v.jobs.push(row)
            &&& row.id == id
            &&& row.name == spec.name
            &&& row.cron_expression@ == spec.cron
            &&& row.job_args == spec.args
            &&& row.next_run_at.micros == next
            &&& row.lease_duration == spec.lease_duration
            &&& row.max_attempts == spec.max_attempts
            &&& row.is_paused == spec.is_paused
            &&& row.created_at == now
            &&& row.updated_at == now
            &&& row.retry_backoff.microseconds == 1_000_000
            &&& row.retry_backoff.days == 0
            &&& row.retry_backoff.months == 0
            &&& job.id == id
            &&& job.name == spec.name
            &&& job.cron@ == spec.cron
            &&& job.args == spec.args
            &&& job.next_run_at.micros == next
            &&& job.lease_duration.micros() == spec.lease_duration.microseconds
            &&& job.max_attempts.to_i32() == spec.max_attempts
            &&& job.lifecycle is Paused <==> spec.is_paused
            &&& job.created_at == now
            &&& job.updated_at == now
        }),
{
    lemma_job_found(v, id);
    lemma_name_found(v, spec.name);
}

/// Creating a job under a name or an identifier that is taken is refused. So is one
/// whose expression has no next slot, with the reason of the search. Neither changes
/// anything.
pub proof fn law_a_job_is_refused(
    v: TablesView,
    now: Timestamp,
    id: JobId,
    spec: jobs::JobSpec,
    after: TablesView,
    res: Result<Job, SchedulerError>,
    j: int,
)
    requires
        jobs::creates(v, now, id, spec, after, res),
    ensures
        cron::cron_next(spec.cron, now.micros) is Err ==> after == v && (res matches Err(
            SchedulerError::Cron(m),
        ) && m@ == cron::cron_next(spec.cron, now.micros)->Err_0),
        cron::cron_next(spec.cron, now.micros) is Ok && 0 <= j < v.jobs.len() && (v.jobs[j].id
            == id || v.jobs[j].name@ == spec.name@) ==> after == v && res == Err::<
            Job,
            SchedulerError,
        >(SchedulerError::Database(DatabaseError::UniqueViolation)),
{
    lemma_job_found(v, id);
    lemma_name_found(v, spec.name);
}

/// Ensuring a job that is there brings its expression, arguments, lease and attempts up
/// to date, and leaves its identifier, name, cursor, lifecycle, backoff and date of
/// creation as they were. No other job changes.
pub proof fn law_an_ensured_job_is_brought_up_to_date(
    v: TablesView,
    now: Timestamp,
    id: JobId,
    spec: jobs::JobSpec,
    after: TablesView,
    res: Result<Job, SchedulerError>,
    j: int,
)
    requires
        jobs::ensures_job(v, now, id, spec, after, res),
        cron::cron_next(spec.cron, now.micros) is Ok,
        0 <= j < v.jobs.len(),
        v.jobs[j].name@ == spec.name@,
        forall|a: int, b: int|
            0 <= a < b < v.jobs.len() ==> (#[trigger] v.jobs[a]).name@ != (
            #[trigger] v.jobs[b]).name@,
    ensures
        res is Ok,
        after.runs == v.runs,
        after.attempts == v.attempts,
        ({
            let row = after.jobs[j];
            let job = res->Ok_0;
            &&& after.jobs == v.jobs.update(j, row)
            &&& row.cron_expression@ == spec.cron
            &&& row == (SchedulerJob {
                cron_expression: row.cron_expression,
                job_args: spec.args,
                lease_duration: spec.lease_duration,
                max_attempts: spec.max_attempts,
                updated_at: now,
                ..v.jobs[j]
            })
            &&& job.id == v.jobs[j].id
            &&& job.name == v.jobs[j].name
            &&& job.cron@ == spec.cron
            &&& job.args == spec.args
            &&& job.next_run_at == v.jobs[j].next_run_at
            &&& job.lease_duration.micros() == spec.lease_duration.microseconds
            &&& job.max_attempts.to_i32() == spec.max_attempts
            &&& job.lifecycle is Paused <==> v.jobs[j].is_paused
            &&& job.created_at == v.jobs[j].created_at
            &&& job.updated_at == now
        }),
{
    let q = |r: SchedulerJob| r.name@ == spec.name@;
    assert forall|a: int| 0 <= a < j implies !q(#[trigger] v.jobs[a]) by {
        assert(v.jobs[a].name@ != v.jobs[j].name@);
    }
    tables::lemma_is_first_position(v.jobs, q, j);
}

/// Ensuring a job whose name no job has is creating it.
pub proof fn law_ensuring_a_new_job_creates_it(
    v: TablesView,
    now: Timestamp,
    id: JobId,
    spec: jobs::JobSpec,
    after: TablesView,
    res: Result<Job, SchedulerError>,
)
    requires
        jobs::ensures_job(v, now, id, spec, after, res),
        forall|j: int| 0 <= j < v.jobs.len() ==> (#[trigger] v.jobs[j]).name@ != spec.name@,
    ensures
        jobs::creates(v, now, id, spec, after, res),
{
    lemma_job_found(v, id);
    lemma_name_found(v, spec.name);
}

/// Moving the cursor of a job moves it and nothing else: to the instant that was asked
/// for, or to the next slot of its expression. Where there is no such job, nothing
/// changes and nothing is returned.
pub proof fn law_a_cursor_moves_as_asked(
    v: TablesView,
    now: Timestamp,
    id: JobId,
    update: jobs::ScheduleUpdate,
    after: TablesView,
    res: Result<Option<Job>, SchedulerError>,
    j: int,
)
    requires
        jobs::reschedules(v, now, id, update, after, res),
        forall|a: int, b: int|
            0 <= a < b < v.jobs.len() ==> (#[trigger] v.jobs[a]).id != (#[trigger] v.jobs[b]).id,
    ensures
        (forall|a: int| 0 <= a < v.jobs.len() ==> (#[trigger] v.jobs[a]).id != id) ==> after == v
            && res == Ok::<Option<Job>, SchedulerError>(None),
        0 <= j < v.jobs.len() && v.jobs[j].id == id ==> {
            let row = v.jobs[j];
            let found = cron::cron_next(row.cron_expression@, now.micros);
            &&& after.runs == v.runs
            &&& after.attempts == v.attempts
            &&& !(res == Ok::<Option<Job>, SchedulerError>(None))
            &&& update matches jobs::ScheduleUpdate::SetNextRunAt(at) ==> after.jobs
                == v.jobs.update(j, SchedulerJob { next_run_at: at, updated_at: now, ..row })
            &&& update is ResetFromNow && cron::cron_rejection(row.cron_expression@) is None
                && found is Ok ==> found->Ok_0 > now.micros && after.jobs == v.jobs.update(
                j,
                SchedulerJob {
                    next_run_at: Timestamp { micros: found->Ok_0 },
                    updated_at: now,
                    ..row
                },
            )
            &&& update is ResetFromNow && (cron::cron_rejection(row.cron_expression@) is Some
                || found is Err) ==> after == v && res is Err
            &&& res is Ok ==> res->Ok_0->0.id == id && res->Ok_0->0.next_run_at
                == after.jobs[j].next_run_at && res->Ok_0->0.name == row.name && (
            res->Ok_0->0.lifecycle is Paused <==> row.is_paused) && res->Ok_0->0.updated_at == now
        },
{
    lemma_job_found(v, id);
    if 0 <= j < v.jobs.len() && v.jobs[j].id == id {
        lemma_job_at(v, j);
    }
}

/// Pausing or resuming a job changes its lifecycle and the date of the change, and
/// nothing else. Where there is no such job, nothing changes, and the answer says so.
pub proof fn law_a_lifecycle_changes_as_asked(
    v: TablesView,
    now: Timestamp,
    id: JobId,
    paused: bool,
    j: int,
)
    requires
        forall|a: int, b: int|
            0 <= a < b < v.jobs.len() ==> (#[trigger] v.jobs[a]).id != (#[trigger] v.jobs[b]).id,
    ensures
        (forall|a: int| 0 <= a < v.jobs.len() ==> (#[trigger] v.jobs[a]).id != id)
            ==> jobs::set_paused_effect(v, now, id, paused) == (v, Applied::NotFound),
        0 <= j < v.jobs.len() && v.jobs[j].id == id ==> jobs::set_paused_effect(v, now, id, paused)
            == (
            TablesView {
                jobs: v.jobs.update(
                    j,
                    SchedulerJob { is_paused: paused, updated_at: now, ..v.jobs[j] },
                ),
                ..v
            },
            Applied::Changed,
        ),
{
    lemma_job_found(v, id);
    if 0 <= j < v.jobs.len() && v.jobs[j].id == id {
        lemma_job_at(v, j);
    }
}

/// Deleting a job takes away that job and nothing else: its runs stay. Where there is no
/// such job, nothing changes, and the answer says so.
pub proof fn law_a_job_is_deleted_alone(v: TablesView, id: JobId, j: int)
    requires
        forall|a: int, b: int|
            0 <= a < b < v.jobs.len() ==> (#[trigger] v.jobs[a]).id != (#[trigger] v.jobs[b]).id,
    ensures
        (forall|a: int| 0 <= a < v.jobs.len() ==> (#[trigger] v.jobs[a]).id != id)
            ==> jobs::delete_effect(v, id) == (v, Applied::NotFound),
        0 <= j < v.jobs.len() && v.jobs[j].id == id ==> jobs::delete_effect(v, id) == (
            TablesView { jobs: v.jobs.remove(j), ..v },
            Applied::Changed,
        ),
{
    lemma_job_found(v, id);
    if 0 <= j < v.jobs.len() && v.jobs[j].id == id {
        lemma_job_at(v, j);
    }
}

/// A row is read as a job where its expression is accepted, its lease is a positive span
/// of microseconds and it allows an attempt, and only there. What is read is what is
/// stored. An error names the row, and the first of the three that is at fault.
pub proof fn law_a_job_is_read_as_stored(row: SchedulerJob, res: Result<Job, SchedulerError>)
    requires
        models::job_of(row, res),
    ensures
        res is Ok <==> cron::cron_rejection(row.cron_expression@) is None
            && row.lease_duration.months == 0 && row.lease_duration.days == 0
            && row.lease_duration.microseconds > 0 && row.max_attempts > 0,
        res matches Ok(job) ==> {
            &&& job.id == row.id
            &&& job.name == row.name
            &&& job.cron@ == row.cron_expression@
            &&& job.args == row.job_args
            &&& job.next_run_at == row.next_run_at
            &&& job.lease_duration.micros() == row.lease_duration.microseconds
            &&& job.max_attempts.to_i32() == row.max_attempts
            &&& job.lifecycle is Paused <==> row.is_paused
            &&& job.created_at == row.created_at
            &&& job.updated_at == row.updated_at
        },
        res matches Err(e) ==> (e matches SchedulerError::CorruptJob { job_id, source } && {
            &&& job_id == row.id
            &&& source is Cron <==> cron::cron_rejection(row.cron_expression@) is Some
            &&& source == CorruptJobRow::MaxAttempts(MaxAttemptsError::NonPositive)
                <==> cron::cron_rejection(row.cron_expression@) is None
                && row.lease_duration.months == 0 && row.lease_duration.days == 0
                && row.lease_duration.microseconds > 0
        }),
{
}

/// The answer to a question for a job that is there is what its row is read as, and
/// never that there is none.
pub proof fn law_a_job_that_is_there_is_found(
    row: SchedulerJob,
    res: Result<Option<Job>, SchedulerError>,
)
    requires
        jobs::found_job(row, res),
    ensures
        res matches Ok(found) ==> found is Some && models::job_of(row, Ok(found->0)),
        res matches Err(e) ==> models::job_of(row, Err(e)),
{
}

/// A list of jobs fails only where a row is at fault, and then with the first such row.
pub proof fn law_a_list_fails_at_the_first_faulty_row(v: TablesView)
    ensures
        ({
            let at = jobs::first_corrupt(v);
            &&& 0 <= at <= v.jobs.len()
            &&& forall|j: int|
                0 <= j < at ==> {
                    let row = #[trigger] v.jobs[j];
                    &&& cron::cron_rejection(row.cron_expression@) is None
                    &&& row.lease_duration.months == 0
                    &&& row.lease_duration.days == 0
                    &&& row.lease_duration.microseconds > 0
                    &&& row.max_attempts > 0
                }
            &&& at < v.jobs.len() ==> {
                let row = v.jobs[at];
                ||| cron::cron_rejection(row.cron_expression@) is Some
                ||| row.lease_duration.months != 0
                ||| row.lease_duration.days != 0
                ||| row.lease_duration.microseconds <= 0
                ||| row.max_attempts <= 0
            }
        }),
{
    let corrupt = |row: SchedulerJob| !models::projectable(row);
    tables::lemma_first_position(v.jobs, corrupt);
    assert forall|j: int| 0 <= j < jobs::first_corrupt(v) implies models::projectable(
        #[trigger] v.jobs[j],
    ) by {
        assert(!corrupt(v.jobs[j]));
    }
}

} // verus!
