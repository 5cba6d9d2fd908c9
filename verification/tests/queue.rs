use pg_task_scheduler::error::{DatabaseError, SchedulerError};
use pg_task_scheduler::queue::enqueue_run;
use pg_task_scheduler::store;
use pg_task_scheduler::{
    AttemptState, CancelOutcome, DbClock, DeduplicationKey, Duration, EnqueueOptions, EnqueuedTask,
    FailureOutcome, FinalizeOutcome, IdentifierError, JobName, LeaseDuration, LeaseToken,
    MaxAttempts, Outcome, Priority, RenewalOutcome, RetryBackoff, RunId, RunState, Tables,
    Timestamp, WorkerId, cancel, enqueue, prune_terminal,
};

const SECOND: i64 = 1_000_000;
const START: i64 = 1_767_225_600 * SECOND;
const NAME: &str = "example-task";

fn ts(micros: i64) -> Timestamp {
    Timestamp { micros }
}

fn clock(micros: i64) -> DbClock {
    DbClock::new(ts(micros), ts(micros))
}

fn args(value: i32) -> Result<serde_json::Value, String> {
    serde_json::from_str(&format!("{{\"value\":{value}}}")).map_err(|e| e.to_string())
}

fn names() -> Vec<String> {
    vec![NAME.to_owned()]
}

fn worker() -> WorkerId {
    WorkerId::try_from("worker").unwrap()
}

#[test]
fn immediate_enqueue_claims_typed_payload() {
    let mut tables = Tables::new();
    let now = clock(START);
    let enqueued =
        enqueue(&mut tables, &now, NAME, args(42), EnqueueOptions::immediate()).unwrap();
    let claimed = store::claim_one(&mut tables, &now, &worker(), &names())
        .unwrap()
        .unwrap();
    assert_eq!(claimed.run_id, enqueued.task_id);
    assert!(claimed.job_id.is_none());
    assert_eq!(claimed.job_args["value"], 42);
    assert_eq!(claimed.scheduled_for, ts(START));
}

#[test]
fn delayed_and_priority_control_claim_order() {
    let mut tables = Tables::new();
    let now = clock(START);
    let delayed = enqueue(
        &mut tables,
        &now,
        NAME,
        args(1),
        EnqueueOptions::at(ts(START + 3600 * SECOND)),
    )
    .unwrap();
    let low = enqueue(
        &mut tables,
        &now,
        NAME,
        args(2),
        EnqueueOptions::immediate().priority(Priority::new(-1)),
    )
    .unwrap();
    let high = enqueue(
        &mut tables,
        &now,
        NAME,
        args(3),
        EnqueueOptions::immediate().priority(Priority::new(10)),
    )
    .unwrap();

    let claimed = store::claim_batch(&mut tables, &now, &worker(), &names(), 1).unwrap();
    assert_eq!(claimed[0].run_id, high.task_id);
    assert!(matches!(
        store::run_state(&tables, low.task_id).unwrap(),
        Some(RunState::Pending)
    ));
    assert!(matches!(
        store::run_state(&tables, delayed.task_id).unwrap(),
        Some(RunState::Pending)
    ));
    let rest = store::claim_batch(&mut tables, &now, &worker(), &names(), 10).unwrap();
    assert_eq!(rest.len(), 1);
    let later = clock(START + 3600 * SECOND);
    let last = store::claim_batch(&mut tables, &later, &worker(), &names(), 10).unwrap();
    assert_eq!(last[0].run_id, delayed.task_id);
}

#[test]
fn deduplication_returns_stable_task_id() {
    let mut tables = Tables::new();
    let now = clock(START);
    let key = DeduplicationKey::try_from("invoice-42").unwrap();
    assert_eq!(EnqueueOptions::immediate().key(), None);
    assert_eq!(
        EnqueueOptions::immediate().deduplicate(key.clone()).key(),
        Some(&key)
    );
    let first = enqueue(
        &mut tables,
        &now,
        NAME,
        args(1),
        EnqueueOptions::immediate().deduplicate(key.clone()),
    )
    .unwrap();
    let second = enqueue(
        &mut tables,
        &now,
        NAME,
        args(2),
        EnqueueOptions::immediate().deduplicate(key.clone()),
    )
    .unwrap();
    assert_eq!(first, second);
    assert_eq!(tables.runs.len(), 1);
    assert_eq!(tables.runs[0].job_args["value"], 1);
    // The key is free for another task name.
    let other = enqueue(
        &mut tables,
        &now,
        "other-task",
        args(3),
        EnqueueOptions::immediate().deduplicate(key),
    )
    .unwrap();
    assert_ne!(other, first);
}

#[test]
fn a_key_stays_taken_until_its_task_is_pruned() {
    let mut tables = Tables::new();
    let now = clock(START);
    let options =
        EnqueueOptions::immediate().deduplicate(DeduplicationKey::try_from("k").unwrap());
    let first = enqueue(&mut tables, &now, NAME, args(1), options.clone()).unwrap();
    cancel(&mut tables, &now, first.task_id).unwrap();
    let again = enqueue(&mut tables, &now, NAME, args(1), options.clone()).unwrap();
    assert_eq!(again, first);
    assert_eq!(prune_terminal(&mut tables, ts(START + 1), 1), Ok(1));
    let fresh = enqueue(&mut tables, &now, NAME, args(1), options).unwrap();
    assert_ne!(fresh, first);
}

#[test]
fn enqueue_reports_the_name_before_the_arguments() {
    let mut tables = Tables::new();
    let now = clock(START);
    let bad = || Err("no json".to_owned());
    assert_eq!(
        enqueue(&mut tables, &now, " x", bad(), EnqueueOptions::immediate()),
        Err(SchedulerError::Identifier(IdentifierError::SurroundingWhitespace))
    );
    assert_eq!(
        enqueue(&mut tables, &now, "x", bad(), EnqueueOptions::immediate()),
        Err(SchedulerError::Serde("no json".to_owned()))
    );
    assert!(tables.runs.is_empty());
}

#[test]
fn an_identifier_is_enqueued_once() {
    let mut tables = Tables::new();
    let now = clock(START);
    let name = JobName::try_from(NAME).unwrap();
    let value = args(1).unwrap();
    assert_eq!(
        enqueue_run(
            &mut tables,
            &now,
            RunId(5),
            name.clone(),
            value.clone(),
            EnqueueOptions::default()
        ),
        Ok(EnqueuedTask { task_id: RunId(5) })
    );
    assert_eq!(
        enqueue_run(&mut tables, &now, RunId(5), name, value, EnqueueOptions::default()),
        Err(SchedulerError::Database(DatabaseError::UniqueViolation))
    );
    let run = &tables.runs[0];
    assert_eq!(run.max_attempts, 3);
    assert_eq!(run.lease_duration.microseconds, 300 * SECOND);
    assert_eq!(run.retry_backoff.microseconds, SECOND);
    assert_eq!(run.priority, Priority::normal().get());
    assert_eq!(run.available_at, ts(START));
}

#[test]
fn retryable_failure_requeues_then_exhausts() {
    let mut tables = Tables::new();
    let now = clock(START);
    let task = enqueue(
        &mut tables,
        &now,
        NAME,
        args(1),
        EnqueueOptions::immediate()
            .max_attempts(MaxAttempts::try_from(2).unwrap())
            .retry_backoff(RetryBackoff::try_from(Duration::from_secs(0)).unwrap()),
    )
    .unwrap();
    let first = store::claim_one(&mut tables, &now, &worker(), &names())
        .unwrap()
        .unwrap();
    assert!(matches!(
        store::fail_run(
            &mut tables,
            &now,
            first.run_id,
            first.lease_token,
            "transient".into(),
            true,
        )
        .unwrap(),
        FailureOutcome::Retried { .. }
    ));
    let second = store::claim_one(&mut tables, &now, &worker(), &names())
        .unwrap()
        .unwrap();
    assert_eq!(second.attempt, 2);
    assert_eq!(
        store::fail_run(
            &mut tables,
            &now,
            second.run_id,
            second.lease_token,
            "still failing".into(),
            true,
        )
        .unwrap(),
        FailureOutcome::Failed
    );
    assert!(matches!(
        store::run_state(&tables, task.task_id).unwrap(),
        Some(RunState::Failed { .. })
    ));
    let attempts = store::task_attempts(&tables, task.task_id).unwrap();
    assert_eq!(attempts.len(), 2);
    assert!(
        attempts
            .iter()
            .all(|attempt| matches!(attempt.state, AttemptState::Failed { .. }))
    );
}

#[test]
fn a_retry_waits_for_its_backoff_and_a_permanent_failure_does_not_retry() {
    let mut tables = Tables::new();
    let now = clock(START);
    enqueue(&mut tables, &now, NAME, args(1), EnqueueOptions::immediate()).unwrap();
    let first = store::claim_one(&mut tables, &now, &worker(), &names())
        .unwrap()
        .unwrap();
    assert_eq!(
        store::fail_run(&mut tables, &now, first.run_id, first.lease_token, "t".into(), true),
        Ok(FailureOutcome::Retried { available_at: ts(START + SECOND) })
    );
    assert!(store::claim_one(&mut tables, &now, &worker(), &names()).unwrap().is_none());
    let later = clock(START + SECOND);
    let second = store::claim_one(&mut tables, &later, &worker(), &names())
        .unwrap()
        .unwrap();
    assert_eq!(
        store::fail_run(&mut tables, &later, second.run_id, second.lease_token, "p".into(), false),
        Ok(FailureOutcome::Failed)
    );
    assert_eq!(
        store::run_state(&tables, first.run_id).unwrap(),
        Some(RunState::Failed { finished_at: ts(START + SECOND), error: "p".to_owned() })
    );
    assert_eq!(
        store::fail_run(&mut tables, &later, second.run_id, second.lease_token, "p".into(), false),
        Ok(FailureOutcome::AlreadyTerminal)
    );
}

#[test]
fn renewal_is_token_guarded_and_extends_attempt() {
    let mut tables = Tables::new();
    let now = clock(START);
    enqueue(
        &mut tables,
        &now,
        NAME,
        args(1),
        EnqueueOptions::immediate()
            .lease_duration(LeaseDuration::try_from(Duration::from_secs(2)).unwrap()),
    )
    .unwrap();
    let claimed = store::claim_one(&mut tables, &now, &worker(), &names())
        .unwrap()
        .unwrap();
    let later = clock(START + 10_000);
    match store::renew_lease(&mut tables, &later, claimed.run_id, claimed.lease_token).unwrap() {
        RenewalOutcome::Renewed { lease_expires_at } => {
            assert!(lease_expires_at > claimed.lease_expires_at);
            assert_eq!(tables.attempts[0].lease_expires_at, lease_expires_at);
            assert_eq!(tables.runs[0].lease_expires_at, Some(lease_expires_at));
        }
        other => panic!("expected renewal, got {other:?}"),
    }
    assert_eq!(
        store::renew_lease(&mut tables, &later, claimed.run_id, LeaseToken::generate()).unwrap(),
        RenewalOutcome::Fenced
    );
}

#[test]
fn cancellation_fences_running_worker_and_retention_is_terminal_only() {
    let mut tables = Tables::new();
    let now = clock(START);
    let task = enqueue(&mut tables, &now, NAME, args(1), EnqueueOptions::immediate()).unwrap();
    let claimed = store::claim_one(&mut tables, &now, &worker(), &names())
        .unwrap()
        .unwrap();
    assert_eq!(
        cancel(&mut tables, &now, task.task_id).unwrap(),
        CancelOutcome::Cancelled
    );
    assert_eq!(
        store::finalize_run(
            &mut tables,
            &now,
            claimed.run_id,
            claimed.lease_token,
            Outcome::Completed,
        )
        .unwrap(),
        FinalizeOutcome::AlreadyTerminal
    );
    assert!(matches!(
        store::run_state(&tables, task.task_id).unwrap(),
        Some(RunState::Cancelled { .. })
    ));
    assert_eq!(
        store::task_attempts(&tables, task.task_id).unwrap()[0].state,
        AttemptState::Cancelled
    );
    enqueue(&mut tables, &now, NAME, args(2), EnqueueOptions::immediate()).unwrap();
    assert_eq!(prune_terminal(&mut tables, ts(START + SECOND), 10).unwrap(), 1);
    assert!(store::run_state(&tables, task.task_id).unwrap().is_none());
    assert_eq!(tables.runs.len(), 1);
    assert!(tables.attempts.is_empty());
}

#[test]
fn cancel_tells_pending_ended_and_missing_apart() {
    let mut tables = Tables::new();
    let now = clock(START);
    let task = enqueue(&mut tables, &now, NAME, args(1), EnqueueOptions::immediate()).unwrap();
    assert_eq!(cancel(&mut tables, &now, task.task_id), Ok(CancelOutcome::Cancelled));
    assert_eq!(cancel(&mut tables, &now, task.task_id), Ok(CancelOutcome::AlreadyTerminal));
    assert_eq!(cancel(&mut tables, &now, RunId(0)), Ok(CancelOutcome::NotFound));
}

#[test]
fn a_running_task_without_its_attempt_is_not_cancelled() {
    let mut tables = Tables::new();
    let now = clock(START);
    let task = enqueue(&mut tables, &now, NAME, args(1), EnqueueOptions::immediate()).unwrap();
    store::claim_one(&mut tables, &now, &worker(), &names()).unwrap();
    tables.attempts[0].run_id = RunId(1);
    assert_eq!(cancel(&mut tables, &now, task.task_id), Ok(CancelOutcome::AlreadyTerminal));
    assert!(matches!(
        store::run_state(&tables, task.task_id).unwrap(),
        Some(RunState::Running(_))
    ));
}

#[test]
fn pruning_is_bounded_and_takes_the_oldest() {
    let mut tables = Tables::new();
    for i in 0..3 {
        let task = enqueue(
            &mut tables,
            &clock(START),
            NAME,
            args(i),
            EnqueueOptions::immediate(),
        )
        .unwrap();
        let at = clock(START + SECOND * i64::from(3 - i));
        cancel(&mut tables, &at, task.task_id).unwrap();
    }
    let newest = tables.runs[0].id;
    assert_eq!(prune_terminal(&mut tables, ts(START + 10 * SECOND), 2), Ok(2));
    assert_eq!(tables.runs.len(), 1);
    assert_eq!(tables.runs[0].id, newest);
    // The cutoff itself is not before the cutoff.
    assert_eq!(prune_terminal(&mut tables, ts(START + 3 * SECOND), 2), Ok(0));
    assert_eq!(
        prune_terminal(&mut tables, ts(0), usize::MAX),
        Err(SchedulerError::Config("retention batch is too large".to_owned()))
    );
}
