//! Recurring jobs: creation, declarative registration, rescheduling and
//! lifecycle.
//!
//! Every cursor is computed from the start of the database transaction. Only the
//! materializer and [`reschedule`] move a cursor past a due slot: [`create`] sets a
//! new one, and [`ensure_job`] never touches one that is there.
use vstd::prelude::*;

use crate::cron;
use crate::cron::CronExpression;
use crate::error::{DatabaseError, SchedulerError};
use crate::ids;
use crate::ids::{JobId, JobName};
use crate::models;
use crate::models::{Job, NewJob, SchedulerJob};
use crate::policy;
use crate::policy::{JobLifecycle, LeaseDuration, MaxAttempts, RetryBackoff};
use crate::tables;
use crate::tables::{Tables, TablesView};
use crate::time;
use crate::time::{DbClock, PgInterval, Timestamp};

verus! {

/// What a recurring job is to be.
#[derive(Debug, Clone)]
pub struct CreateJob {
    name: JobName,
    cron: CronExpression,
    args: serde_json::Value,
    lease_duration: LeaseDuration,
    max_attempts: MaxAttempts,
    lifecycle: JobLifecycle,
}

/// What a [`CreateJob`] asks for, as a row stores it.
pub ghost struct JobSpec {
    pub name: JobName,
    pub cron: Seq<char>,
    pub args: serde_json::Value,
    pub lease_duration: PgInterval,
    pub max_attempts: i32,
    pub is_paused: bool,
}

impl View for CreateJob {
    type V = JobSpec;

    closed spec fn view(&self) -> JobSpec {
        JobSpec {
            name: self.name,
            cron: self.cron@,
            args: self.args,
            lease_duration: PgInterval {
                microseconds: self.lease_duration.micros(),
                days: 0,
                months: 0,
            },
            max_attempts: self.max_attempts.to_i32(),
            is_paused: self.lifecycle is Paused,
        }
    }
}

impl CreateJob {
    /// A job with the outcome `args` of serializing its arguments.
    pub fn new(
        name: JobName,
        cron: CronExpression,
        lease_duration: LeaseDuration,
        max_attempts: MaxAttempts,
        lifecycle: JobLifecycle,
        args: Result<serde_json::Value, String>,
    ) -> (res: Result<Self, SchedulerError>)
        ensures
            match args {
                Ok(value) => res is Ok && res->Ok_0@ == (JobSpec {
                    name,
                    cron: cron@,
                    args: value,
                    lease_duration: PgInterval {
                        microseconds: lease_duration.micros(),
                        days: 0,
                        months: 0,
                    },
                    max_attempts: max_attempts.to_i32(),
                    is_paused: lifecycle is Paused,
                }),
                Err(m) => res == Err::<Self, SchedulerError>(SchedulerError::Serde(m)),
            },
    {
        match args {
            Ok(args) => Ok(
                CreateJob { name, cron, lease_duration, max_attempts, lifecycle, args },
            ),
            Err(m) => Err(SchedulerError::Serde(m)),
        }
    }

    pub fn name(&self) -> (res: &JobName)
        ensures
            *res == self@.name,
    {
        &self.name
    }
}

/// How [`reschedule`] moves the cursor of a job.
#[derive(Debug, Clone, Copy, PartialEq, Eq, Structural)]
pub enum ScheduleUpdate {
    /// To the next slot of the stored expression after the start of the
    /// transaction. A slot that is due is dropped.
    ResetFromNow,
    /// To an exact instant.
    SetNextRunAt(Timestamp),
}

/// Whether a change addressed a job that is there.
#[derive(Debug, Clone, Copy, PartialEq, Eq, Structural)]
pub enum Applied {
    Changed,
    NotFound,
}

/// Whether `row` holds what `spec` supplies, with the cursor at `next`.
pub open spec fn supplies(spec: JobSpec, next: Timestamp, row: NewJob) -> bool {
    &&& row.name == spec.name
    &&& row.cron_expression@ == spec.cron
    &&& row.job_args == spec.args
    &&& row.next_run_at == next
    &&& row.lease_duration == spec.lease_duration
    &&& row.max_attempts == spec.max_attempts
    &&& row.is_paused == spec.is_paused
}

/// The backoff of a new job, which its creator does not choose: one second.
pub open spec fn default_backoff() -> PgInterval {
    PgInterval { microseconds: 1_000_000, days: 0, months: 0 }
}

/// Whether `row` is the row that `spec` adds under `id` at `now`.
pub open spec fn is_new_row(
    row: SchedulerJob,
    id: JobId,
    spec: JobSpec,
    next: Timestamp,
    now: Timestamp,
) -> bool {
    &&& row.cron_expression@ == spec.cron
    &&& row == (SchedulerJob {
        id,
        name: spec.name,
        cron_expression: row.cron_expression,
        job_args: spec.args,
        next_run_at: next,
        lease_duration: spec.lease_duration,
        max_attempts: spec.max_attempts,
        is_paused: spec.is_paused,
        created_at: now,
        updated_at: now,
        retry_backoff: default_backoff(),
    })
}

/// Whether `after` is `v` with one more job, the one that `spec` asks for, and
/// `res` is that job.
pub open spec fn adds_job(
    v: TablesView,
    now: Timestamp,
    id: JobId,
    spec: JobSpec,
    next: Timestamp,
    after: TablesView,
    res: Result<Job, SchedulerError>,
) -> bool {
    &&& after == TablesView { jobs: v.jobs.push(after.jobs.last()), ..v }
    &&& is_new_row(after.jobs.last(), id, spec, next, now)
    &&& res is Ok
    &&& models::projects(after.jobs.last(), res->Ok_0)
}

/// Whether `after` and `res` are what adding a job with its cursor at `next` owes.
pub open spec fn creates_at(
    v: TablesView,
    now: Timestamp,
    id: JobId,
    spec: JobSpec,
    next: Timestamp,
    after: TablesView,
    res: Result<Job, SchedulerError>,
) -> bool {
    if v.has_named(spec.name@) || v.has_job(id) {
        after == v && res == Err::<Job, SchedulerError>(
            SchedulerError::Database(DatabaseError::UniqueViolation),
        )
    } else {
        adds_job(v, now, id, spec, next, after, res)
    }
}

/// What creating a job under `id` does to `v`, making it `after`, and what it
/// returns.
pub open spec fn creates(
    v: TablesView,
    now: Timestamp,
    id: JobId,
    spec: JobSpec,
    after: TablesView,
    res: Result<Job, SchedulerError>,
) -> bool {
    match cron::cron_next(spec.cron, now.micros) {
        Err(m) => after == v && res is Err && res->Err_0 is Cron && res->Err_0->Cron_0@ == m,
        Ok(next) => cron::is_slot(next, now.micros) && creates_at(
            v,
            now,
            id,
            spec,
            Timestamp { micros: next },
            after,
            res,
        ),
    }
}

/// Whether `row` is `old_row` with the configuration of `spec`. Cursor and
/// lifecycle stay what they were.
pub open spec fn is_reconciled(
    old_row: SchedulerJob,
    row: SchedulerJob,
    spec: JobSpec,
    now: Timestamp,
) -> bool {
    &&& row.cron_expression@ == spec.cron
    &&& row == (SchedulerJob {
        cron_expression: row.cron_expression,
        job_args: spec.args,
        lease_duration: spec.lease_duration,
        max_attempts: spec.max_attempts,
        updated_at: now,
        ..old_row
    })
}

/// Whether `after` and `res` are what ensuring a job owes, with the cursor of a new
/// one at `next`.
pub open spec fn ensures_at(
    v: TablesView,
    now: Timestamp,
    id: JobId,
    spec: JobSpec,
    next: Timestamp,
    after: TablesView,
    res: Result<Job, SchedulerError>,
) -> bool {
    let at = v.named_position(spec.name@);
    if v.has_named(spec.name@) {
        &&& after == TablesView { jobs: v.jobs.update(at, after.jobs[at]), ..v }
        &&& is_reconciled(v.jobs[at], after.jobs[at], spec, now)
        &&& res is Ok
        &&& models::projects(after.jobs[at], res->Ok_0)
    } else {
        creates_at(v, now, id, spec, next, after, res)
    }
}

/// What ensuring a job, under `id` where it is new, does to `v`, making it
/// `after`, and what it returns.
pub open spec fn ensures_job(
    v: TablesView,
    now: Timestamp,
    id: JobId,
    spec: JobSpec,
    after: TablesView,
    res: Result<Job, SchedulerError>,
) -> bool {
    match cron::cron_next(spec.cron, now.micros) {
        Err(m) => after == v && res is Err && res->Err_0 is Cron && res->Err_0->Cron_0@ == m,
        Ok(next) => cron::is_slot(next, now.micros) && ensures_at(
            v,
            now,
            id,
            spec,
            Timestamp { micros: next },
            after,
            res,
        ),
    }
}

/// Whether `res` is the job that `row` stands for, as an answer to a question for
/// one that is there.
pub open spec fn found_job(row: SchedulerJob, res: Result<Option<Job>, SchedulerError>) -> bool {
    match res {
        Ok(Some(job)) => models::job_of(row, Ok(job)),
        Ok(None) => false,
        Err(e) => models::job_of(row, Err(e)),
    }
}

/// `row` with its cursor moved to `next`.
pub open spec fn rescheduled_row(
    row: SchedulerJob,
    next: Timestamp,
    now: Timestamp,
) -> SchedulerJob {
    SchedulerJob { next_run_at: next, updated_at: now, ..row }
}

/// What [`reschedule`] does to `v`, making it `after`, and what it returns.
pub open spec fn reschedules(
    v: TablesView,
    now: Timestamp,
    id: JobId,
    update: ScheduleUpdate,
    after: TablesView,
    res: Result<Option<Job>, SchedulerError>,
) -> bool {
    match v.job(id) {
        None => after == v && res == Ok::<Option<Job>, SchedulerError>(None),
        Some(row) => match update {
            ScheduleUpdate::SetNextRunAt(at) => {
                &&& after == v.with_job(rescheduled_row(row, at, now))
                &&& found_job(rescheduled_row(row, at, now), res)
            },
            ScheduleUpdate::ResetFromNow => match cron::cron_rejection(row.cron_expression@) {
                Some(_) => after == v && res is Err && models::job_of(row, Err(res->Err_0)),
                None => match cron::cron_next(row.cron_expression@, now.micros) {
                    Err(m) => after == v && res is Err && res->Err_0 is Cron
                        && res->Err_0->Cron_0@ == m,
                    Ok(next) => {
                        &&& cron::is_slot(next, now.micros)
                        &&& after == v.with_job(
                            rescheduled_row(row, Timestamp { micros: next }, now),
                        )
                        &&& found_job(
                            rescheduled_row(row, Timestamp { micros: next }, now),
                            res,
                        )
                    },
                },
            },
        },
    }
}

fn new_job(spec: &CreateJob, next_run_at: Timestamp) -> (res: NewJob)
    ensures
        supplies(spec@, next_run_at, res),
        cron::cron_rejection(spec@.cron) is None,
        policy::stored_lease_rejection(spec@.lease_duration) is None,
        spec@.max_attempts > 0,
{
    NewJob {
        name: spec.name.clone(),
        cron_expression: spec.cron.as_str().to_owned(),
        job_args: spec.args.clone(),
        next_run_at,
        lease_duration: spec.lease_duration.to_pg_interval(),
        max_attempts: spec.max_attempts.to_i32(),
        is_paused: spec.lifecycle.is_paused(),
    }
}

fn insert_job(tables: &mut Tables, id: JobId, row: NewJob, now: Timestamp) -> (res: Result<
    Job,
    SchedulerError,
>)
    requires
        cron::cron_rejection(row.cron_expression@) is None,
        policy::stored_lease_rejection(row.lease_duration) is None,
        row.max_attempts > 0,
    ensures
        forall|spec: JobSpec, next: Timestamp|
            #![trigger supplies(spec, next, row)]
            supplies(spec, next, row) ==> adds_job(
                old(tables)@,
                now,
                id,
                spec,
                next,
                final(tables)@,
                res,
            ),
{
    let job = SchedulerJob {
        id,
        name: row.name,
        cron_expression: row.cron_expression,
        job_args: row.job_args,
        next_run_at: row.next_run_at,
        lease_duration: row.lease_duration,
        max_attempts: row.max_attempts,
        is_paused: row.is_paused,
        created_at: now,
        updated_at: now,
        retry_backoff: RetryBackoff::default().to_pg_interval(),
    };
    tables.jobs.push(job.clone());
    assert(tables@ =~= TablesView { jobs: old(tables)@.jobs.push(job), ..old(tables)@ });
    Job::try_from(job)
}

/// Creates a job under the identifier `id`, with its cursor at `next`. A name that
/// is taken is an error.
pub fn create_at(
    tables: &mut Tables,
    clock: &DbClock,
    id: JobId,
    spec: CreateJob,
    next: Timestamp,
) -> (res: Result<Job, SchedulerError>)
    ensures
        creates_at(old(tables)@, clock.now(), id, spec@, next, final(tables)@, res),
{
    let row = new_job(&spec, next);
    if tables.find_named(&row.name) < tables.jobs.len() || tables.find_job(id)
        < tables.jobs.len() {
        return Err(SchedulerError::Database(DatabaseError::UniqueViolation));
    }
    insert_job(tables, id, row, clock.now())
}

/// Creates a job under the identifier `id`. A name that is taken is an error.
pub fn create_as(tables: &mut Tables, clock: &DbClock, id: JobId, spec: CreateJob) -> (res: Result<
    Job,
    SchedulerError,
>)
    requires
        time::searchable(clock.now().micros),
    ensures
        creates(old(tables)@, clock.now(), id, spec@, final(tables)@, res),
{
    match spec.cron.next_after(clock.now()) {
        Ok(next) => create_at(tables, clock, id, spec, next),
        Err(e) => Err(e),
    }
}

/// Creates a job. A name that is taken is an error. The cursor starts at the next
/// slot after the start of the transaction.
pub fn create(tables: &mut Tables, clock: &DbClock, spec: CreateJob) -> (res: Result<
    Job,
    SchedulerError,
>)
    requires
        time::searchable(clock.now().micros),
    ensures
        exists|id: JobId|
            ids::is_random_uuid(id.0) && #[trigger] creates(
                old(tables)@,
                clock.now(),
                id,
                spec@,
                final(tables)@,
                res,
            ),
{
    let id: JobId = JobId::generate();
    create_as(tables, clock, id, spec)
}

/// Creates the job under the identifier `id`, with its cursor at `next`, or
/// reconciles the configuration of the job that has its name.
pub fn ensure_job_at(
    tables: &mut Tables,
    clock: &DbClock,
    id: JobId,
    spec: CreateJob,
    next: Timestamp,
) -> (res: Result<Job, SchedulerError>)
    ensures
        ensures_at(old(tables)@, clock.now(), id, spec@, next, final(tables)@, res),
{
    let now: Timestamp = clock.now();
    let row = new_job(&spec, next);
    let at: usize = tables.find_named(&row.name);
    if at == tables.jobs.len() {
        return create_at(tables, clock, id, spec, next);
    }
    tables.jobs[at].cron_expression = row.cron_expression;
    tables.jobs[at].job_args = row.job_args;
    tables.jobs[at].lease_duration = row.lease_duration;
    tables.jobs[at].max_attempts = row.max_attempts;
    tables.jobs[at].updated_at = now;
    assert(tables@ =~= TablesView {
        jobs: old(tables)@.jobs.update(at as int, tables@.jobs[at as int]),
        ..old(tables)@
    });
    let job = tables.jobs[at].clone();
    Job::try_from(job)
}

/// Creates the job under the identifier `id`, or reconciles the configuration of
/// the job that has its name.
pub fn ensure_job_as(
    tables: &mut Tables,
    clock: &DbClock,
    id: JobId,
    spec: CreateJob,
) -> (res: Result<Job, SchedulerError>)
    requires
        time::searchable(clock.now().micros),
    ensures
        ensures_job(old(tables)@, clock.now(), id, spec@, final(tables)@, res),
{
    match spec.cron.next_after(clock.now()) {
        Ok(next) => ensure_job_at(tables, clock, id, spec, next),
        Err(e) => Err(e),
    }
}

/// Registers a job declaratively. A new name is created; for one that is there,
/// expression, arguments, lease and attempts are reconciled, while cursor and
/// lifecycle stay. So a slot that is due is never skipped, and a job that was
/// paused stays paused.
pub fn ensure_job(tables: &mut Tables, clock: &DbClock, spec: CreateJob) -> (res: Result<
    Job,
    SchedulerError,
>)
    requires
        time::searchable(clock.now().micros),
    ensures
        exists|id: JobId|
            ids::is_random_uuid(id.0) && #[trigger] ensures_job(
                old(tables)@,
                clock.now(),
                id,
                spec@,
                final(tables)@,
                res,
            ),
{
    let id: JobId = JobId::generate();
    ensure_job_as(tables, clock, id, spec)
}

/// Moves the cursor of the job `id`. `Ok(None)` where there is no such job.
pub fn reschedule(
    tables: &mut Tables,
    clock: &DbClock,
    id: JobId,
    update: ScheduleUpdate,
) -> (res: Result<Option<Job>, SchedulerError>)
    requires
        update is ResetFromNow && old(tables)@.has_job(id) ==> time::searchable(clock.now().micros),
    ensures
        reschedules(old(tables)@, clock.now(), id, update, final(tables)@, res),
{
    let now: Timestamp = clock.now();
    let at: usize = tables.find_job(id);
    if at == tables.jobs.len() {
        return Ok(None);
    }
    let next: Timestamp = match update {
        ScheduleUpdate::SetNextRunAt(at) => at,
        ScheduleUpdate::ResetFromNow => {
            let stored = CronExpression::parse_stored(
                id,
                tables.jobs[at].cron_expression.as_str(),
            );
            let cron = match stored {
                Ok(cron) => cron,
                Err(e) => return Err(e),
            };
            match cron.next_after(now) {
                Ok(next) => next,
                Err(e) => return Err(e),
            }
        },
    };
    tables.jobs[at].next_run_at = next;
    tables.jobs[at].updated_at = now;
    assert(tables@ =~= old(tables)@.with_job(
        rescheduled_row(old(tables)@.job(id)->0, next, now),
    ));
    let job = tables.jobs[at].clone();
    match Job::try_from(job) {
        Ok(job) => Ok(Some(job)),
        Err(e) => Err(e),
    }
}

/// The job `id`, where there is one.
pub fn get(tables: &Tables, id: JobId) -> (res: Result<Option<Job>, SchedulerError>)
    ensures
        match tables@.job(id) {
            None => res == Ok::<Option<Job>, SchedulerError>(None),
            Some(row) => found_job(row, res),
        },
{
    let at: usize = tables.find_job(id);
    if at == tables.jobs.len() {
        return Ok(None);
    }
    let job = tables.jobs[at].clone();
    match Job::try_from(job) {
        Ok(job) => Ok(Some(job)),
        Err(e) => Err(e),
    }
}

/// Where the first row stands that stands for no job.
pub open spec fn first_corrupt(v: TablesView) -> int {
    tables::first_position(v.jobs, |row: SchedulerJob| !models::projectable(row))
}

/// All jobs, in the order in which their rows were read, or the error of the first
/// row that stands for none.
pub fn list(tables: &Tables) -> (res: Result<Vec<Job>, SchedulerError>)
    ensures
        match res {
            Ok(jobs) => {
                &&& first_corrupt(tables@) == tables@.jobs.len()
                &&& jobs@.len() == tables@.jobs.len()
                &&& forall|i: int|
                    0 <= i < jobs@.len() ==> models::projects(
                        tables@.jobs[i],
                        #[trigger] jobs@[i],
                    )
            },
            Err(e) => {
                &&& first_corrupt(tables@) < tables@.jobs.len()
                &&& models::job_of(tables@.jobs[first_corrupt(tables@)], Err(e))
            },
        },
{
    let ghost corrupt = |row: SchedulerJob| !models::projectable(row);
    let mut jobs: Vec<Job> = Vec::new();
    let mut i: usize = 0;
    while i < tables.jobs.len()
        invariant
            i <= tables.jobs@.len(),
            jobs@.len() == i,
            corrupt == (|row: SchedulerJob| !models::projectable(row)),
            forall|j: int| 0 <= j < i ==> !corrupt(#[trigger] tables.jobs@[j]),
            forall|j: int|
                0 <= j < i ==> models::projects(tables.jobs@[j], #[trigger] jobs@[j]),
        decreases tables.jobs@.len() - i,
    {
        let job = tables.jobs[i].clone();
        match Job::try_from(job) {
            Ok(job) => jobs.push(job),
            Err(e) => {
                proof {
                    tables::lemma_is_first_position(tables.jobs@, corrupt, i as int);
                }
                return Err(e);
            },
        }
        i = i + 1;
    }
    proof {
        tables::lemma_is_first_position(tables.jobs@, corrupt, i as int);
    }
    Ok(jobs)
}

/// What a change by identifier that touched `affected` rows amounts to.
pub fn applied_from_affected(affected: usize) -> (res: Applied)
    ensures
        res == (if affected > 0 {
            Applied::Changed
        } else {
            Applied::NotFound
        }),
{
    if affected > 0 {
        Applied::Changed
    } else {
        Applied::NotFound
    }
}

/// What pausing or resuming the job `id` does to `v`, and what it returns. The
/// change is dated by the clock of the host.
pub open spec fn set_paused_effect(
    v: TablesView,
    host_now: Timestamp,
    id: JobId,
    paused: bool,
) -> (TablesView, Applied) {
    match v.job(id) {
        None => (v, Applied::NotFound),
        Some(row) => (
            v.with_job(SchedulerJob { is_paused: paused, updated_at: host_now, ..row }),
            Applied::Changed,
        ),
    }
}

fn set_paused(tables: &mut Tables, host_now: Timestamp, id: JobId, paused: bool) -> (res: Result<
    Applied,
    SchedulerError,
>)
    ensures
        res is Ok,
        (final(tables)@, res->Ok_0) == set_paused_effect(old(tables)@, host_now, id, paused),
{
    let at: usize = tables.find_job(id);
    let affected: usize = if at < tables.jobs.len() {
        tables.jobs[at].is_paused = paused;
        tables.jobs[at].updated_at = host_now;
        1
    } else {
        0
    };
    Ok(applied_from_affected(affected))
}

/// Pauses the job `id`: no run is made of it until it is resumed.
pub fn pause(tables: &mut Tables, host_now: Timestamp, id: JobId) -> (res: Result<
    Applied,
    SchedulerError,
>)
    ensures
        res is Ok,
        (final(tables)@, res->Ok_0) == set_paused_effect(old(tables)@, host_now, id, true),
{
    set_paused(tables, host_now, id, true)
}

/// Resumes the job `id`.
pub fn resume(tables: &mut Tables, host_now: Timestamp, id: JobId) -> (res: Result<
    Applied,
    SchedulerError,
>)
    ensures
        res is Ok,
        (final(tables)@, res->Ok_0) == set_paused_effect(old(tables)@, host_now, id, false),
{
    set_paused(tables, host_now, id, false)
}

/// What deleting the job `id` does to `v`, and what it returns. Its runs stay.
pub open spec fn delete_effect(v: TablesView, id: JobId) -> (TablesView, Applied) {
    if v.has_job(id) {
        (TablesView { jobs: v.jobs.remove(v.job_position(id)), ..v }, Applied::Changed)
    } else {
        (v, Applied::NotFound)
    }
}

/// Deletes the job `id`. Runs that were made of it stay as they are.
pub fn delete(tables: &mut Tables, id: JobId) -> (res: Result<Applied, SchedulerError>)
    ensures
        res is Ok,
        (final(tables)@, res->Ok_0) == delete_effect(old(tables)@, id),
{
    let at: usize = tables.find_job(id);
    let affected: usize = if at < tables.jobs.len() {
        tables.jobs.remove(at);
        1
    } else {
        0
    };
    Ok(applied_from_affected(affected))
}

} // verus!
