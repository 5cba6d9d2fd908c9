//! # pg_task_scheduler
//!
//! The rules of a PostgreSQL-backed work queue with **leased at-least-once**
//! execution, verified.
//!
//! Immediate, delayed and recurring work become rows of one table of runs. A worker
//! claims runs under a fencing token; where it dies or loses its lease, the run is
//! recovered and claimed again. Because a run may therefore execute more than once,
//! **handlers must be idempotent**: `run_id` is the same at every attempt.
//!
//! A transaction of the embedding program locks rows, hands them to this library as
//! [`tables::Tables`] together with the clock of the database, and writes back what
//! the library made of them. What each operation makes of them is stated in its
//! contract; what holds of the operations together is proved in [`laws`].

pub mod admin;
pub mod consistency;
pub mod cron;
pub mod error;
pub mod ids;
pub mod jobs;
pub mod laws;
pub mod metrics;
pub mod models;
pub mod policy;
pub mod queue;
pub mod ranking;
pub mod runtime;
pub mod selection;
pub mod store;
pub mod tables;
pub mod text;
pub mod time;

pub use crate::cron::CronExpression;
pub use crate::error::{
    CorruptJobRow, DatabaseError, DuplicateJobName, JobError, RegisterError, SchedulerError,
};
pub use crate::ids::{
    DeduplicationKey, IdentifierError, JobId, JobName, LeaseToken, RunId, ScheduleId, TaskId,
    WorkerId,
};
pub use crate::jobs::{Applied, CreateJob, ScheduleUpdate};
pub use crate::models::{
    AttemptState, ClaimedRun, FailureOutcome, FinalizeOutcome, Job, Lease, Outcome, RenewalOutcome,
    RunState, SchedulerJob, SchedulerRun, TaskAttempt,
};
pub use crate::policy::{
    JobLifecycle, LeaseDuration, LeaseDurationError, MaxAttempts, MaxAttemptsError, RetryBackoff,
    RetryBackoffError,
};
pub use crate::queue::{
    Availability, CancelOutcome, Deduplication, EnqueueOptions, EnqueuedTask, Priority, cancel,
    enqueue, prune_terminal,
};
pub use crate::runtime::{
    HealthStatus, JobContext, Registry, Scheduler, SchedulerBuilder, WorkerHealth,
};
pub use crate::tables::Tables;
pub use crate::time::{DbClock, Duration, PgInterval, Timestamp};
