//! Rows of the three tables, and the values that reading and changing them give.
use vstd::prelude::*;
use vstd::std_specs::convert::TryFromSpecImpl;

use crate::cron;
use crate::cron::CronExpression;
use crate::error::{CorruptJobRow, SchedulerError};
use crate::ids::{DeduplicationKey, JobId, JobName, LeaseToken, RunId, WorkerId};
use crate::policy;
use crate::policy::{JobLifecycle, LeaseDuration, MaxAttempts};
use crate::time::{PgInterval, Timestamp};

verus! {

/// A JSON document, carried through unread.
#[verifier::external_type_specification]
#[verifier::external_body]
pub struct ExValue(serde_json::Value);

/// `serde_json::Value::clone` gives a document equal to its argument.
pub assume_specification[ <serde_json::Value as Clone>::clone ](
    value: &serde_json::Value,
) -> (res: serde_json::Value)
    ensures
        res == *value,
;

/// Stored state of a run.
#[derive(Debug, Clone, Copy, PartialEq, Eq, Structural)]
pub enum StoredRunState {
    Pending,
    Running,
    Completed,
    Failed,
    Cancelled,
}

impl StoredRunState {
    /// Whether a run in this state never changes again.
    pub open spec fn terminal(self) -> bool {
        self is Completed || self is Failed || self is Cancelled
    }

    pub fn is_terminal(self) -> (res: bool)
        ensures
            res == self.terminal(),
    {
        match self {
            StoredRunState::Completed | StoredRunState::Failed | StoredRunState::Cancelled => true,
            StoredRunState::Pending | StoredRunState::Running => false,
        }
    }
}

/// Stored end of an attempt.
#[derive(Debug, Clone, Copy, PartialEq, Eq, Structural)]
pub enum StoredAttemptOutcome {
    Completed,
    Failed,
    Expired,
    Cancelled,
}

/// The claim that a running run is under.
#[derive(Debug, Clone, PartialEq, Eq)]
pub struct Lease {
    pub worker_id: WorkerId,
    pub lease_token: LeaseToken,
    pub lease_expires_at: Timestamp,
    pub started_at: Timestamp,
}

/// State of a run, with the facts that go with it.
#[derive(Debug, Clone, PartialEq, Eq)]
pub enum RunState {
    Pending,
    Running(Lease),
    Completed { finished_at: Timestamp },
    Failed { finished_at: Timestamp, error: String },
    Cancelled { finished_at: Timestamp },
}

/// A run that a worker has just claimed: it always carries a complete lease.
#[derive(Debug, Clone, PartialEq, Eq)]
pub struct ClaimedRun {
    pub run_id: RunId,
    pub job_id: Option<JobId>,
    pub job_name: JobName,
    pub job_args: serde_json::Value,
    pub scheduled_for: Timestamp,
    /// Which attempt of the run this is, from 1.
    pub attempt: u32,
    pub lease_token: LeaseToken,
    pub lease_expires_at: Timestamp,
    pub lease_duration: LeaseDuration,
}

/// How a handler ended.
#[derive(Debug, Clone, PartialEq, Eq)]
pub enum Outcome {
    Completed,
    Failed(String),
}

/// What became of a request to end a run.
#[derive(Debug, Clone, Copy, PartialEq, Eq, Structural)]
pub enum FinalizeOutcome {
    Applied,
    /// The request does not hold the lease.
    Fenced,
    AlreadyTerminal,
}

/// What became of a request to fail a run.
#[derive(Debug, Clone, Copy, PartialEq, Eq, Structural)]
pub enum FailureOutcome {
    Retried { available_at: Timestamp },
    Failed,
    /// The request does not hold the lease.
    Fenced,
    AlreadyTerminal,
}

/// What became of a request to renew a lease.
#[derive(Debug, Clone, Copy, PartialEq, Eq, Structural)]
pub enum RenewalOutcome {
    Renewed { lease_expires_at: Timestamp },
    /// The request does not hold the lease.
    Fenced,
}

/// How an attempt stands.
#[derive(Debug, Clone, PartialEq, Eq)]
pub enum AttemptState {
    Running,
    Completed,
    Failed { error: Option<String> },
    Expired { error: Option<String> },
    Cancelled,
}

/// One entry of the history of a run.
#[derive(Debug, Clone, PartialEq, Eq)]
pub struct TaskAttempt {
    /// Which attempt of the run this is, from 1.
    pub attempt: u32,
    pub worker_id: WorkerId,
    pub started_at: Timestamp,
    pub lease_expires_at: Timestamp,
    pub finished_at: Option<Timestamp>,
    pub state: AttemptState,
}

/// A row of the table of recurring jobs.
#[derive(Debug, PartialEq, Eq)]
pub struct SchedulerJob {
    pub id: JobId,
    pub name: JobName,
    pub cron_expression: String,
    pub job_args: serde_json::Value,
    pub next_run_at: Timestamp,
    pub lease_duration: PgInterval,
    pub max_attempts: i32,
    pub is_paused: bool,
    pub created_at: Timestamp,
    pub updated_at: Timestamp,
    pub retry_backoff: PgInterval,
}

impl Clone for SchedulerJob {
    fn clone(&self) -> (res: Self)
        ensures
            res == *self,
    {
        SchedulerJob {
            id: self.id,
            name: self.name.clone(),
            cron_expression: self.cron_expression.clone(),
            job_args: self.job_args.clone(),
            next_run_at: self.next_run_at,
            lease_duration: self.lease_duration,
            max_attempts: self.max_attempts,
            is_paused: self.is_paused,
            created_at: self.created_at,
            updated_at: self.updated_at,
            retry_backoff: self.retry_backoff,
        }
    }
}

/// The columns of a job row that its creator supplies.
#[derive(Debug, Clone, PartialEq, Eq)]
pub struct NewJob {
    pub name: JobName,
    pub cron_expression: String,
    pub job_args: serde_json::Value,
    pub next_run_at: Timestamp,
    pub lease_duration: PgInterval,
    pub max_attempts: i32,
    pub is_paused: bool,
}

/// A recurring job.
#[derive(Debug, Clone, PartialEq, Eq)]
pub struct Job {
    pub id: JobId,
    pub name: JobName,
    pub cron: CronExpression,
    pub args: serde_json::Value,
    pub next_run_at: Timestamp,
    pub lease_duration: LeaseDuration,
    pub max_attempts: MaxAttempts,
    pub lifecycle: JobLifecycle,
    pub created_at: Timestamp,
    pub updated_at: Timestamp,
}

/// Whether `job` has what `row` holds besides its expression.
pub open spec fn shares_columns(row: SchedulerJob, job: Job) -> bool {
    &&& job.id == row.id
    &&& job.name == row.name
    &&& job.args == row.job_args
    &&& job.next_run_at == row.next_run_at
    &&& job.lease_duration.micros() == row.lease_duration.microseconds
    &&& job.max_attempts.to_i32() == row.max_attempts
    &&& (job.lifecycle is Paused <==> row.is_paused)
    &&& job.created_at == row.created_at
    &&& job.updated_at == row.updated_at
}

/// Whether `job` is the job that `row` stands for.
pub open spec fn projects(row: SchedulerJob, job: Job) -> bool {
    shares_columns(row, job) && job.cron@ == row.cron_expression@
}

/// Whether `row` stands for a job: its expression, lease and attempt count are
/// ones that the scheduler would write.
pub open spec fn projectable(row: SchedulerJob) -> bool {
    &&& cron::cron_rejection(row.cron_expression@) is None
    &&& policy::stored_lease_rejection(row.lease_duration) is None
    &&& row.max_attempts > 0
}

/// Whether `source` is the first reason for which `row` stands for no job.
pub open spec fn corruption(row: SchedulerJob, source: CorruptJobRow) -> bool {
    match cron::cron_rejection(row.cron_expression@) {
        Some(reason) => source matches CorruptJobRow::Cron(m) && m@ == cron::rejection_text(
            row.cron_expression@,
            reason,
        ),
        None => match policy::stored_lease_rejection(row.lease_duration) {
            Some(e) => source == CorruptJobRow::LeaseDuration(e),
            None => row.max_attempts <= 0 && source == CorruptJobRow::MaxAttempts(
                policy::MaxAttemptsError::NonPositive,
            ),
        },
    }
}

/// Whether `res` is what reading `row` as a job gives.
pub open spec fn job_of(row: SchedulerJob, res: Result<Job, SchedulerError>) -> bool {
    match res {
        Ok(job) => projectable(row) && projects(row, job),
        Err(e) => {
            &&& !projectable(row)
            &&& e matches SchedulerError::CorruptJob { job_id, source }
            &&& job_id == row.id
            &&& corruption(row, source)
        },
    }
}

impl TryFrom<SchedulerJob> for Job {
    type Error = SchedulerError;

    /// The job that `row` stands for.
    fn try_from(row: SchedulerJob) -> (res: Result<Self, SchedulerError>)
        ensures
            job_of(row, res),
    {
        let cron = CronExpression::parse_stored(row.id, row.cron_expression.as_str());
        Job::with_cron(row, cron)
    }
}

impl TryFromSpecImpl<SchedulerJob> for Job {
    open spec fn obeys_try_from_spec() -> bool {
        false
    }

    open spec fn try_from_spec(row: SchedulerJob) -> Result<Self, SchedulerError> {
        arbitrary()
    }
}

impl Job {
    /// The job that `row` stands for where reading its expression gave `cron`. An
    /// error of the expression comes first, then one of the lease, then one of the
    /// attempt count.
    pub fn with_cron(row: SchedulerJob, cron: Result<CronExpression, SchedulerError>) -> (res:
        Result<Self, SchedulerError>)
        ensures
            match cron {
                Err(e) => res == Err::<Self, SchedulerError>(e),
                Ok(cron) => match policy::stored_lease_rejection(row.lease_duration) {
                    Some(e) => res == Err::<Self, SchedulerError>(
                        SchedulerError::CorruptJob {
                            job_id: row.id,
                            source: CorruptJobRow::LeaseDuration(e),
                        },
                    ),
                    None => if row.max_attempts <= 0 {
                        res == Err::<Self, SchedulerError>(
                            SchedulerError::CorruptJob {
                                job_id: row.id,
                                source: CorruptJobRow::MaxAttempts(
                                    policy::MaxAttemptsError::NonPositive,
                                ),
                            },
                        )
                    } else {
                        res is Ok && res->Ok_0.cron == cron && shares_columns(row, res->Ok_0)
                    },
                },
            },
    {
        let cron = match cron {
            Ok(cron) => cron,
            Err(e) => return Err(e),
        };
        let lease_duration = match LeaseDuration::from_pg_interval(row.lease_duration) {
            Ok(lease) => lease,
            Err(e) => return Err(
                SchedulerError::CorruptJob { job_id: row.id, source: CorruptJobRow::from(e) },
            ),
        };
        let max_attempts = match MaxAttempts::from_db_i32(row.max_attempts) {
            Ok(max) => max,
            Err(e) => return Err(
                SchedulerError::CorruptJob { job_id: row.id, source: CorruptJobRow::from(e) },
            ),
        };
        Ok(
            Job {
                id: row.id,
                name: row.name,
                cron,
                args: row.job_args,
                next_run_at: row.next_run_at,
                lease_duration,
                max_attempts,
                lifecycle: JobLifecycle::from_paused(row.is_paused),
                created_at: row.created_at,
                updated_at: row.updated_at,
            },
        )
    }
}

/// A row of the table of runs.
#[derive(Debug, PartialEq, Eq)]
pub struct SchedulerRun {
    pub id: RunId,
    pub job_id: Option<JobId>,
    pub job_name: JobName,
    pub job_args: serde_json::Value,
    pub scheduled_for: Timestamp,
    pub available_at: Timestamp,
    pub priority: i16,
    pub state: StoredRunState,
    pub attempt_count: i32,
    pub max_attempts: i32,
    pub lease_duration: PgInterval,
    pub retry_backoff: PgInterval,
    pub worker_id: Option<WorkerId>,
    pub lease_token: Option<LeaseToken>,
    pub lease_expires_at: Option<Timestamp>,
    pub started_at: Option<Timestamp>,
    pub finished_at: Option<Timestamp>,
    pub last_error: Option<String>,
    pub deduplication_key: Option<DeduplicationKey>,
    pub created_at: Timestamp,
    pub updated_at: Timestamp,
}

/// A copy of an optional text.
pub(crate) fn copy_text(text: &Option<String>) -> (res: Option<String>)
    ensures
        res == *text,
{
    match text {
        Some(text) => Some(text.clone()),
        None => None,
    }
}

/// A copy of an optional worker.
pub(crate) fn copy_worker(worker: &Option<WorkerId>) -> (res: Option<WorkerId>)
    ensures
        res == *worker,
{
    match worker {
        Some(worker) => Some(worker.clone()),
        None => None,
    }
}

/// A copy of an optional key.
pub(crate) fn copy_key(key: &Option<DeduplicationKey>) -> (res: Option<DeduplicationKey>)
    ensures
        res == *key,
{
    match key {
        Some(key) => Some(key.clone()),
        None => None,
    }
}

impl Clone for SchedulerRun {
    fn clone(&self) -> (res: Self)
        ensures
            res == *self,
    {
        SchedulerRun {
            id: self.id,
            job_id: self.job_id,
            job_name: self.job_name.clone(),
            job_args: self.job_args.clone(),
            scheduled_for: self.scheduled_for,
            available_at: self.available_at,
            priority: self.priority,
            state: self.state,
            attempt_count: self.attempt_count,
            max_attempts: self.max_attempts,
            lease_duration: self.lease_duration,
            retry_backoff: self.retry_backoff,
            worker_id: copy_worker(&self.worker_id),
            lease_token: self.lease_token,
            lease_expires_at: self.lease_expires_at,
            started_at: self.started_at,
            finished_at: self.finished_at,
            last_error: copy_text(&self.last_error),
            deduplication_key: copy_key(&self.deduplication_key),
            created_at: self.created_at,
            updated_at: self.updated_at,
        }
    }
}

/// A row of the table of attempts.
#[derive(Debug, PartialEq, Eq)]
pub struct AttemptRow {
    pub run_id: RunId,
    pub attempt_number: i32,
    pub worker_id: WorkerId,
    pub lease_token: LeaseToken,
    pub started_at: Timestamp,
    pub lease_expires_at: Timestamp,
    pub finished_at: Option<Timestamp>,
    pub outcome: Option<StoredAttemptOutcome>,
    pub error: Option<String>,
}

impl Clone for AttemptRow {
    fn clone(&self) -> (res: Self)
        ensures
            res == *self,
    {
        AttemptRow {
            run_id: self.run_id,
            attempt_number: self.attempt_number,
            worker_id: self.worker_id.clone(),
            lease_token: self.lease_token,
            started_at: self.started_at,
            lease_expires_at: self.lease_expires_at,
            finished_at: self.finished_at,
            outcome: self.outcome,
            error: copy_text(&self.error),
        }
    }
}

/// The columns of a run row from which its state is read.
#[derive(Debug, Clone, PartialEq, Eq)]
pub struct StatusRow {
    pub id: RunId,
    pub job_id: Option<JobId>,
    pub scheduled_for: Timestamp,
    pub attempt_count: i32,
    pub worker_id: Option<WorkerId>,
    pub lease_token: Option<LeaseToken>,
    pub lease_expires_at: Option<Timestamp>,
    pub started_at: Option<Timestamp>,
    pub state: StoredRunState,
    pub finished_at: Option<Timestamp>,
    pub last_error: Option<String>,
}

} // verus!
