//! Answers of the administration routes.
use vstd::prelude::*;
use vstd::std_specs::convert::FromSpecImpl;

use crate::error::SchedulerError;
use crate::ids::{JobId, RunId};
use crate::jobs::Applied;
use crate::models::{Job, RunState};
use crate::queue::CancelOutcome;
use crate::text;
use crate::time::Timestamp;

verus! {

/// The status of an answer.
#[derive(Debug, Clone, Copy, PartialEq, Eq, Structural)]
pub enum Status {
    NoContent,
    NotFound,
    InternalServerError,
    ServiceUnavailable,
}

impl Status {
    pub open spec fn code_spec(&self) -> u16 {
        match self {
            Status::NoContent => 204,
            Status::NotFound => 404,
            Status::InternalServerError => 500,
            Status::ServiceUnavailable => 503,
        }
    }

    /// The number of this status.
    #[verifier::when_used_as_spec(code_spec)]
    pub fn code(&self) -> (res: u16)
        ensures
            res == self.code(),
    {
        match self {
            Status::NoContent => 204,
            Status::NotFound => 404,
            Status::InternalServerError => 500,
            Status::ServiceUnavailable => 503,
        }
    }
}

/// A job as it is shown.
#[derive(Debug, Clone, PartialEq, Eq)]
pub struct JobView {
    pub id: JobId,
    pub name: String,
    pub cron_expression: String,
    pub is_paused: bool,
}

impl From<Job> for JobView {
    fn from(job: Job) -> (res: Self)
        ensures
            res.id == job.id,
            res.name@ == job.name@,
            res.cron_expression@ == job.cron@,
            res.is_paused == (job.lifecycle is Paused),
    {
        JobView {
            id: job.id,
            name: job.name.as_str().to_owned(),
            cron_expression: job.cron.as_str().to_owned(),
            is_paused: job.lifecycle.is_paused(),
        }
    }
}

impl FromSpecImpl<Job> for JobView {
    open spec fn obeys_from_spec() -> bool {
        false
    }

    open spec fn from_spec(job: Job) -> Self {
        arbitrary()
    }
}

/// The state of a task as it is shown.
#[derive(Debug, Clone, PartialEq, Eq)]
pub struct TaskStateView {
    pub state: &'static str,
    pub worker_id: Option<String>,
    pub finished_at: Option<Timestamp>,
    pub error: Option<String>,
}

/// Whether `view` shows `state`: its name, and the facts that go with it.
pub open spec fn shows(state: RunState, view: TaskStateView) -> bool {
    match state {
        RunState::Pending => view == (TaskStateView {
            state: "pending",
            worker_id: None,
            finished_at: None,
            error: None,
        }),
        RunState::Running(lease) => {
            &&& view.state == "running"
            &&& view.worker_id is Some
            &&& view.worker_id->0@ == lease.worker_id@
            &&& view.finished_at is None
            &&& view.error is None
        },
        RunState::Completed { finished_at } => view == (TaskStateView {
            state: "completed",
            worker_id: None,
            finished_at: Some(finished_at),
            error: None,
        }),
        RunState::Failed { finished_at, error } => view == (TaskStateView {
            state: "failed",
            worker_id: None,
            finished_at: Some(finished_at),
            error: Some(error),
        }),
        RunState::Cancelled { finished_at } => view == (TaskStateView {
            state: "cancelled",
            worker_id: None,
            finished_at: Some(finished_at),
            error: None,
        }),
    }
}

impl From<RunState> for TaskStateView {
    fn from(state: RunState) -> (res: Self)
        ensures
            shows(state, res),
    {
        match state {
            RunState::Pending => TaskStateView {
                state: "pending",
                worker_id: None,
                finished_at: None,
                error: None,
            },
            RunState::Running(lease) => TaskStateView {
                state: "running",
                worker_id: Some(lease.worker_id.as_str().to_owned()),
                finished_at: None,
                error: None,
            },
            RunState::Completed { finished_at } => TaskStateView {
                state: "completed",
                worker_id: None,
                finished_at: Some(finished_at),
                error: None,
            },
            RunState::Failed { finished_at, error } => TaskStateView {
                state: "failed",
                worker_id: None,
                finished_at: Some(finished_at),
                error: Some(error),
            },
            RunState::Cancelled { finished_at } => TaskStateView {
                state: "cancelled",
                worker_id: None,
                finished_at: Some(finished_at),
                error: None,
            },
        }
    }
}

impl FromSpecImpl<RunState> for TaskStateView {
    open spec fn obeys_from_spec() -> bool {
        false
    }

    open spec fn from_spec(state: RunState) -> Self {
        arbitrary()
    }
}

/// The answer where no connection is to be had.
pub fn unavailable(reason: String) -> (res: (Status, String))
    ensures
        res == (Status::ServiceUnavailable, reason),
{
    (Status::ServiceUnavailable, reason)
}

/// The answer to a request for all jobs.
pub fn list_jobs(jobs: Result<Vec<Job>, SchedulerError>) -> (res: Result<
    Vec<JobView>,
    (Status, String),
>)
    ensures
        match jobs {
            Ok(jobs) => {
                &&& res is Ok
                &&& res->Ok_0@.len() == jobs@.len()
                &&& forall|i: int|
                    0 <= i < jobs@.len() ==> {
                        &&& (#[trigger] res->Ok_0@[i]).id == jobs@[i].id
                        &&& res->Ok_0@[i].name@ == jobs@[i].name@
                        &&& res->Ok_0@[i].cron_expression@ == jobs@[i].cron@
                        &&& res->Ok_0@[i].is_paused == (jobs@[i].lifecycle is Paused)
                    }
            },
            Err(e) => res is Err && res->Err_0.0 == Status::InternalServerError
                && res->Err_0.1@ == e.message(),
        },
{
    match jobs {
        Ok(jobs) => {
            let mut views: Vec<JobView> = Vec::new();
            let mut i: usize = 0;
            while i < jobs.len()
                invariant
                    i <= jobs@.len(),
                    views@.len() == i,
                    forall|j: int|
                        0 <= j < i ==> {
                            &&& (#[trigger] views@[j]).id == jobs@[j].id
                            &&& views@[j].name@ == jobs@[j].name@
                            &&& views@[j].cron_expression@ == jobs@[j].cron@
                            &&& views@[j].is_paused == (jobs@[j].lifecycle is Paused)
                        },
                decreases jobs@.len() - i,
            {
                let job = &jobs[i];
                views.push(
                    JobView {
                        id: job.id,
                        name: job.name.as_str().to_owned(),
                        cron_expression: job.cron.as_str().to_owned(),
                        is_paused: job.lifecycle.is_paused(),
                    },
                );
                i = i + 1;
            }
            Ok(views)
        },
        Err(e) => Err((Status::InternalServerError, e.to_string())),
    }
}

/// The answer to a change of job `id`: pausing, resuming or deleting it.
pub fn job_changed(id: JobId, applied: Result<Applied, SchedulerError>) -> (res: Result<
    Status,
    (Status, String),
>)
    ensures
        match applied {
            Ok(Applied::Changed) => res == Ok::<Status, (Status, String)>(Status::NoContent),
            Ok(Applied::NotFound) => res is Err && res->Err_0.0 == Status::NotFound
                && res->Err_0.1@ == "no job with id "@ + text::uuid_hyphenated(id.0),
            Err(e) => res is Err && res->Err_0.0 == Status::InternalServerError
                && res->Err_0.1@ == e.message(),
        },
{
    match applied {
        Ok(Applied::Changed) => Ok(Status::NoContent),
        Ok(Applied::NotFound) => Err(
            (
                Status::NotFound,
                text::joined("no job with id ", text::uuid_text(id.0).as_str()),
            ),
        ),
        Err(e) => Err((Status::InternalServerError, e.to_string())),
    }
}

/// The answer to a question for the state of task `id`.
pub fn task_state(id: RunId, state: Result<Option<RunState>, SchedulerError>) -> (res: Result<
    TaskStateView,
    (Status, String),
>)
    ensures
        match state {
            Ok(Some(state)) => res is Ok && shows(state, res->Ok_0),
            Ok(None) => res is Err && res->Err_0.0 == Status::NotFound && res->Err_0.1@
                == "no task with id "@ + text::uuid_hyphenated(id.0),
            Err(e) => res is Err && res->Err_0.0 == Status::InternalServerError
                && res->Err_0.1@ == e.message(),
        },
{
    match state {
        Ok(Some(state)) => Ok(TaskStateView::from(state)),
        Ok(None) => Err(
            (
                Status::NotFound,
                text::joined("no task with id ", text::uuid_text(id.0).as_str()),
            ),
        ),
        Err(e) => Err((Status::InternalServerError, e.to_string())),
    }
}

/// The answer to a request to cancel task `id`. One that had ended is as good as
/// cancelled.
pub fn task_cancelled(id: RunId, outcome: Result<CancelOutcome, SchedulerError>) -> (res: Result<
    Status,
    (Status, String),
>)
    ensures
        match outcome {
            Ok(CancelOutcome::Cancelled) | Ok(CancelOutcome::AlreadyTerminal) => res == Ok::<
                Status,
                (Status, String),
            >(Status::NoContent),
            Ok(CancelOutcome::NotFound) => res is Err && res->Err_0.0 == Status::NotFound
                && res->Err_0.1@ == "no task with id "@ + text::uuid_hyphenated(id.0),
            Err(e) => res is Err && res->Err_0.0 == Status::InternalServerError
                && res->Err_0.1@ == e.message(),
        },
{
    match outcome {
        Ok(CancelOutcome::Cancelled) | Ok(CancelOutcome::AlreadyTerminal) => Ok(
            Status::NoContent,
        ),
        Ok(CancelOutcome::NotFound) => Err(
            (
                Status::NotFound,
                text::joined("no task with id ", text::uuid_text(id.0).as_str()),
            ),
        ),
        Err(e) => Err((Status::InternalServerError, e.to_string())),
    }
}

} // verus!
