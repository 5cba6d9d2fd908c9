use pg_task_scheduler::admin::{
    JobView, Status, TaskStateView, job_changed, list_jobs, task_cancelled, task_state, unavailable,
};
use pg_task_scheduler::jobs;
use pg_task_scheduler::{
    CancelOutcome, CreateJob, CronExpression, DbClock, Job, JobId, JobLifecycle, JobName, Lease,
    LeaseDuration, LeaseToken, MaxAttempts, RunId, RunState, SchedulerError, Tables, Timestamp,
    WorkerId,
};

const START: i64 = 1_767_225_600_000_000;

fn ts(micros: i64) -> Timestamp {
    Timestamp { micros }
}

fn insert_job(tables: &mut Tables, name: &str) -> Job {
    let spec = CreateJob::new(
        JobName::try_from(name).unwrap(),
        CronExpression::parse("*/5 * * * *").unwrap(),
        LeaseDuration::default_value(),
        MaxAttempts::default_value(),
        JobLifecycle::Active,
        Ok(serde_json::Value::Null),
    )
    .unwrap();
    jobs::create(tables, &DbClock::new(ts(START), ts(START)), spec).unwrap()
}

fn status_of(answer: Result<Status, (Status, String)>) -> u16 {
    match answer {
        Ok(status) => status.code(),
        Err((status, _)) => status.code(),
    }
}

#[test]
fn pause_existing_204_missing_404() {
    let mut tables = Tables::new();
    let id = insert_job(&mut tables, "j").id;
    assert_eq!(status_of(job_changed(id, jobs::pause(&mut tables, ts(START), id))), 204);
    let missing = JobId::generate();
    assert_eq!(
        status_of(job_changed(missing, jobs::pause(&mut tables, ts(START), missing))),
        404
    );
}

#[test]
fn resume_existing_204_missing_404() {
    let mut tables = Tables::new();
    let id = insert_job(&mut tables, "j").id;
    assert_eq!(status_of(job_changed(id, jobs::resume(&mut tables, ts(START), id))), 204);
    let missing = JobId::generate();
    assert_eq!(
        status_of(job_changed(missing, jobs::resume(&mut tables, ts(START), missing))),
        404
    );
}

#[test]
fn delete_existing_204_then_404() {
    let mut tables = Tables::new();
    let id = insert_job(&mut tables, "j").id;
    // First delete removes the row → 204.
    assert_eq!(status_of(job_changed(id, jobs::delete(&mut tables, id))), 204);
    // Deleting again → 404: proves the first call actually deleted (not a no-op/pause).
    assert_eq!(status_of(job_changed(id, jobs::delete(&mut tables, id))), 404);
}

#[test]
fn answers_name_what_is_missing() {
    let id = 0x0123_4567_89ab_cdef_0123_4567_89ab_cdef_u128;
    let hyphenated = "01234567-89ab-cdef-0123-456789abcdef";
    let mut tables = Tables::new();
    assert_eq!(
        job_changed(JobId(id), jobs::delete(&mut tables, JobId(id))),
        Err((Status::NotFound, format!("no job with id {hyphenated}")))
    );
    assert_eq!(
        task_state(RunId(id), Ok(None)),
        Err((Status::NotFound, format!("no task with id {hyphenated}")))
    );
    assert_eq!(
        task_cancelled(RunId(id), Ok(CancelOutcome::NotFound)),
        Err((Status::NotFound, format!("no task with id {hyphenated}")))
    );
}

#[test]
fn cancelling_an_ended_task_is_no_error() {
    assert_eq!(
        task_cancelled(RunId(1), Ok(CancelOutcome::AlreadyTerminal)),
        Ok(Status::NoContent)
    );
    assert_eq!(
        task_cancelled(RunId(1), Ok(CancelOutcome::Cancelled)),
        Ok(Status::NoContent)
    );
}

#[test]
fn errors_of_the_store_are_internal() {
    let e = || SchedulerError::Invariant("broken");
    let internal = (Status::InternalServerError, e().to_string());
    assert_eq!(list_jobs(Err(e())), Err(internal.clone()));
    assert_eq!(job_changed(JobId(1), Err(e())), Err(internal.clone()));
    assert_eq!(task_state(RunId(1), Err(e())), Err(internal.clone()));
    assert_eq!(task_cancelled(RunId(1), Err(e())), Err(internal.clone()));
    assert_eq!(internal.0.code(), 500);
    assert_eq!(unavailable("down".to_owned()).0.code(), 503);
    assert_eq!(unavailable("down".to_owned()).1, "down");
}

#[test]
fn jobs_are_shown_in_order() {
    let mut tables = Tables::new();
    let first = insert_job(&mut tables, "a");
    let second = insert_job(&mut tables, "b");
    jobs::pause(&mut tables, ts(START), second.id).unwrap();
    let shown = list_jobs(jobs::list(&tables)).unwrap();
    assert_eq!(shown[0], JobView::from(first));
    assert_eq!(
        shown[1],
        JobView {
            id: second.id,
            name: "b".to_owned(),
            cron_expression: "*/5 * * * *".to_owned(),
            is_paused: true,
        }
    );
}

#[test]
fn every_state_is_shown_with_its_facts() {
    let shown = |state: RunState| task_state(RunId(1), Ok(Some(state))).unwrap();
    let at = Some(ts(START));
    let view = |state, worker_id, finished_at, error| TaskStateView {
        state,
        worker_id,
        finished_at,
        error,
    };
    assert_eq!(shown(RunState::Pending), view("pending", None, None, None));
    assert_eq!(
        shown(RunState::Running(Lease {
            worker_id: WorkerId::try_from("w").unwrap(),
            lease_token: LeaseToken::generate(),
            lease_expires_at: ts(START),
            started_at: ts(START),
        })),
        view("running", Some("w".to_owned()), None, None)
    );
    assert_eq!(
        shown(RunState::Completed { finished_at: ts(START) }),
        view("completed", None, at, None)
    );
    assert_eq!(
        shown(RunState::Failed { finished_at: ts(START), error: "e".to_owned() }),
        view("failed", None, at, Some("e".to_owned()))
    );
    assert_eq!(
        shown(RunState::Cancelled { finished_at: ts(START) }),
        view("cancelled", None, at, None)
    );
}
