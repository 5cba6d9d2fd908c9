use pg_task_scheduler::error::{DatabaseError, SchedulerError};
use pg_task_scheduler::models::{StoredAttemptOutcome, StoredRunState};
use pg_task_scheduler::store;
use pg_task_scheduler::store::claim::grant_unused;
use pg_task_scheduler::store::inspect::state_of;
use pg_task_scheduler::store::materialize::{
    Batch, Cursor, MATERIALIZE_LIMIT, Tick, find_due, handle_due, materialize_due_jobs_as,
    materialize_one, stored_cursor,
};
use pg_task_scheduler::{
    AttemptState, ClaimedRun, DbClock, FailureOutcome, FinalizeOutcome, JobId, JobName, LeaseToken,
    Outcome, PgInterval, RenewalOutcome, RunId, RunState, SchedulerJob, SchedulerRun, Tables,
    Timestamp, WorkerId,
};

const SECOND: i64 = 1_000_000;
const MINUTE: i64 = 60 * SECOND;
const START: i64 = 1_767_225_600 * SECOND; // 2026-01-01T00:00:00Z

fn ts(micros: i64) -> Timestamp {
    Timestamp { micros }
}

fn clock(micros: i64) -> DbClock {
    DbClock::new(ts(micros), ts(micros))
}

fn value(text: &str) -> serde_json::Value {
    serde_json::from_str(text).unwrap()
}

fn names(v: &[&str]) -> Vec<String> {
    v.iter().map(|s| s.to_string()).collect()
}

fn worker(name: &str) -> WorkerId {
    WorkerId::try_from(name).unwrap()
}

fn insert_job_full(
    tables: &mut Tables,
    name: &str,
    cron: &str,
    next_run_at: i64,
    lease_micros: i64,
    max_attempts: i32,
    is_paused: bool,
) -> JobId {
    let id = JobId::generate();
    tables.jobs.push(SchedulerJob {
        id,
        name: JobName::try_from(name).unwrap(),
        cron_expression: cron.to_owned(),
        job_args: value("{}"),
        next_run_at: ts(next_run_at),
        lease_duration: PgInterval::from_microseconds(lease_micros),
        max_attempts,
        is_paused,
        created_at: ts(START),
        updated_at: ts(START),
        retry_backoff: PgInterval::from_microseconds(SECOND),
    });
    id
}

fn insert_job(tables: &mut Tables, name: &str, cron: &str, next_run_at: i64) -> JobId {
    insert_job_full(tables, name, cron, next_run_at, 5 * MINUTE, 3, false)
}

fn run_ids(tables: &Tables, job: JobId) -> Vec<RunId> {
    tables
        .runs
        .iter()
        .filter(|r| r.job_id == Some(job))
        .map(|r| r.id)
        .collect()
}

fn materialized(tables: &mut Tables, name: &str, lease: i64, max_attempts: i32) -> JobId {
    let job = insert_job_full(
        tables,
        name,
        "*/1 * * * *",
        START - MINUTE,
        lease,
        max_attempts,
        false,
    );
    store::materialize_due_jobs(tables, &clock(START)).unwrap();
    job
}

fn claimed(tables: &mut Tables, name: &str) -> ClaimedRun {
    store::claim_one(tables, &clock(START), &worker("test-worker"), &names(&[name]))
        .unwrap()
        .unwrap()
}

#[test]
fn claims_pending_and_marks_running() {
    let mut tables = Tables::new();
    let job = materialized(&mut tables, "j", 5 * MINUTE, 3);
    let claimed = store::claim_one(&mut tables, &clock(START), &worker("w1"), &names(&["j"]))
        .unwrap()
        .expect("claim");
    assert_eq!(claimed.attempt, 1);
    assert_eq!(claimed.lease_expires_at, ts(START + 5 * MINUTE));

    // The claimed run id must belong to the job we materialized.
    assert_eq!(claimed.run_id, run_ids(&tables, job)[0]);

    match store::run_state(&tables, claimed.run_id).unwrap() {
        Some(RunState::Running(l)) => assert_eq!(l.lease_token, claimed.lease_token),
        other => panic!("expected Running, got {other:?}"),
    }
    assert_eq!(tables.attempts.len(), 1);
    assert_eq!(tables.attempts[0].attempt_number, 1);
    assert_eq!(tables.attempts[0].lease_token, claimed.lease_token);
}

#[test]
fn does_not_claim_unregistered_job() {
    let mut tables = Tables::new();
    materialized(&mut tables, "j", 5 * MINUTE, 3);
    assert!(
        store::claim_one(&mut tables, &clock(START), &worker("w1"), &names(&["other"]))
            .unwrap()
            .is_none()
    );
}

#[test]
fn concurrent_workers_claim_disjoint() {
    let mut tables = Tables::new();
    materialized(&mut tables, "j", 5 * MINUTE, 3);
    let a = store::claim_one(&mut tables, &clock(START), &worker("w1"), &names(&["j"])).unwrap();
    let b = store::claim_one(&mut tables, &clock(START), &worker("w2"), &names(&["j"])).unwrap();
    let some = [a, b].iter().filter(|x| x.is_some()).count();
    assert_eq!(some, 1);
}

#[test]
fn reclaims_expired_until_max_attempts() {
    let mut tables = Tables::new();
    materialized(&mut tables, "j", SECOND, 2);
    let w = worker("w");
    let a = store::claim_one(&mut tables, &clock(START), &w, &names(&["j"]))
        .unwrap()
        .unwrap();
    assert_eq!(a.attempt, 1);
    let later = clock(START + 2 * SECOND);
    store::recover_expired(&mut tables, &later, 10).unwrap();
    let b = store::claim_one(&mut tables, &later, &w, &names(&["j"]))
        .unwrap()
        .unwrap();
    assert_eq!(b.attempt, 2);
    assert_ne!(a.lease_token, b.lease_token);
    let last = clock(START + 4 * SECOND);
    store::recover_expired(&mut tables, &last, 10).unwrap();
    assert!(
        store::claim_one(&mut tables, &last, &w, &names(&["j"]))
            .unwrap()
            .is_none()
    );
}

#[test]
fn completes_with_matching_token() {
    let mut tables = Tables::new();
    materialized(&mut tables, "j", 5 * MINUTE, 3);
    let c = claimed(&mut tables, "j");
    let now = clock(START + SECOND);
    assert_eq!(
        store::finalize_run(&mut tables, &now, c.run_id, c.lease_token, Outcome::Completed),
        Ok(FinalizeOutcome::Applied)
    );
    assert_eq!(
        store::run_state(&tables, c.run_id).unwrap(),
        Some(RunState::Completed { finished_at: ts(START + SECOND) })
    );
    assert_eq!(tables.attempts[0].outcome, Some(StoredAttemptOutcome::Completed));
    assert_eq!(tables.attempts[0].finished_at, Some(ts(START + SECOND)));
}

#[test]
fn fails_with_error_and_clears_lease() {
    let mut tables = Tables::new();
    materialized(&mut tables, "j", 5 * MINUTE, 3);
    let c = claimed(&mut tables, "j");
    assert_eq!(
        store::finalize_run(
            &mut tables,
            &clock(START),
            c.run_id,
            c.lease_token,
            Outcome::Failed("boom".into())
        ),
        Ok(FinalizeOutcome::Applied)
    );
    match store::run_state(&tables, c.run_id).unwrap() {
        Some(RunState::Failed { error, .. }) => assert_eq!(error, "boom"),
        other => panic!("expected Failed, got {other:?}"),
    }
    assert_eq!(tables.runs[0].lease_token, None);
    assert_eq!(tables.runs[0].worker_id, None);
    assert_eq!(tables.runs[0].lease_expires_at, None);
    assert_eq!(tables.runs[0].started_at, None);
}

#[test]
fn stale_token_is_fenced_out() {
    let mut tables = Tables::new();
    materialized(&mut tables, "j", 5 * MINUTE, 3);
    let c = claimed(&mut tables, "j");
    let before = tables.clone();
    let outcome = store::finalize_run(
        &mut tables,
        &clock(START),
        c.run_id,
        LeaseToken::generate(),
        Outcome::Completed,
    )
    .unwrap();
    assert_eq!(outcome, FinalizeOutcome::Fenced);
    assert!(matches!(
        store::run_state(&tables, c.run_id).unwrap(),
        Some(RunState::Running(_))
    ));
    assert_eq!(tables, before);
}

#[test]
fn already_terminal_after_reap() {
    let mut tables = Tables::new();
    materialized(&mut tables, "j", SECOND, 1);
    let c = claimed(&mut tables, "j");
    let later = clock(START + 2 * SECOND);
    assert_eq!(store::reap_expired(&mut tables, &later), Ok(1));
    // The first worker finalizes late with its (now-cleared) token: benign no-op.
    let outcome =
        store::finalize_run(&mut tables, &later, c.run_id, c.lease_token, Outcome::Completed)
            .unwrap();
    assert_eq!(outcome, FinalizeOutcome::AlreadyTerminal);
    // The late Completed finalize recorded nothing; the reaper's Failed stands.
    assert!(matches!(
        store::run_state(&tables, c.run_id).unwrap(),
        Some(RunState::Failed { .. })
    ));
}

#[test]
fn stale_finalize_blocked_by_reclaim_is_fenced() {
    let mut tables = Tables::new();
    materialized(&mut tables, "j", 5 * MINUTE, 3);
    let c = claimed(&mut tables, "j");
    let new_token = LeaseToken::generate();
    tables.attempts[0].lease_token = new_token;
    tables.attempts[0].worker_id = worker("new-worker");
    tables.runs[0].lease_token = Some(new_token);
    tables.runs[0].worker_id = Some(worker("new-worker"));

    let outcome = store::finalize_run(
        &mut tables,
        &clock(START),
        c.run_id,
        c.lease_token,
        Outcome::Completed,
    )
    .unwrap();
    assert_eq!(outcome, FinalizeOutcome::Fenced);
    match store::run_state(&tables, c.run_id).unwrap() {
        Some(RunState::Running(lease)) => assert_eq!(lease.lease_token, new_token),
        other => panic!("new claim must remain running, got {other:?}"),
    }
}

#[test]
fn an_expired_lease_is_fenced_even_with_its_token() {
    let mut tables = Tables::new();
    materialized(&mut tables, "j", SECOND, 3);
    let c = claimed(&mut tables, "j");
    let at_expiry = clock(START + SECOND);
    assert_eq!(
        store::renew_lease(&mut tables, &at_expiry, c.run_id, c.lease_token),
        Ok(RenewalOutcome::Fenced)
    );
    assert_eq!(
        store::fail_run(&mut tables, &at_expiry, c.run_id, c.lease_token, "x".into(), true),
        Ok(FailureOutcome::Fenced)
    );
    let just_before = clock(START + SECOND - 1);
    assert_eq!(
        store::renew_lease(&mut tables, &just_before, c.run_id, c.lease_token),
        Ok(RenewalOutcome::Renewed { lease_expires_at: ts(START + 2 * SECOND - 1) })
    );
}

#[test]
fn unknown_runs_are_fenced() {
    let mut tables = Tables::new();
    assert_eq!(
        store::finalize_run(
            &mut tables,
            &clock(START),
            RunId(1),
            LeaseToken::generate(),
            Outcome::Completed
        ),
        Ok(FinalizeOutcome::Fenced)
    );
    assert_eq!(
        store::fail_run(
            &mut tables,
            &clock(START),
            RunId(1),
            LeaseToken::generate(),
            "e".into(),
            true
        ),
        Ok(FailureOutcome::Fenced)
    );
}

#[test]
fn a_claim_without_its_attempt_is_an_invariant_error() {
    let mut tables = Tables::new();
    materialized(&mut tables, "j", 5 * MINUTE, 3);
    let c = claimed(&mut tables, "j");
    tables.attempts.clear();
    let before = tables.clone();
    let now = clock(START);
    assert_eq!(
        store::finalize_run(&mut tables, &now, c.run_id, c.lease_token, Outcome::Completed),
        Err(SchedulerError::Invariant("finalized task did not have one live attempt"))
    );
    assert_eq!(
        store::fail_run(&mut tables, &now, c.run_id, c.lease_token, "e".into(), false),
        Err(SchedulerError::Invariant("failed task did not have one live attempt"))
    );
    assert_eq!(
        store::renew_lease(&mut tables, &now, c.run_id, c.lease_token),
        Err(SchedulerError::Invariant("renewed task did not have one live attempt"))
    );
    assert_eq!(tables, before);
}

#[test]
fn instants_out_of_range_are_database_errors() {
    let mut tables = Tables::new();
    materialized(&mut tables, "j", 5 * MINUTE, 3);
    tables.runs[0].lease_duration = PgInterval::from_microseconds(i64::MAX);
    let before = tables.clone();
    assert_eq!(
        store::claim_one(&mut tables, &clock(START), &worker("w"), &names(&["j"])),
        Err(SchedulerError::Database(DatabaseError::OutOfRange))
    );
    assert_eq!(tables, before);
    tables.runs[0].lease_duration = PgInterval::from_microseconds(5 * MINUTE);
    let c = claimed(&mut tables, "j");
    tables.runs[0].retry_backoff = PgInterval::from_microseconds(i64::MAX);
    tables.runs[0].lease_duration = PgInterval::from_microseconds(i64::MAX);
    assert_eq!(
        store::fail_run(&mut tables, &clock(START), c.run_id, c.lease_token, "e".into(), true),
        Err(SchedulerError::Database(DatabaseError::OutOfRange))
    );
    assert_eq!(
        store::renew_lease(&mut tables, &clock(START), c.run_id, c.lease_token),
        Err(SchedulerError::Database(DatabaseError::OutOfRange))
    );
}

#[test]
fn a_recorded_attempt_number_blocks_the_whole_claim() {
    let mut tables = Tables::new();
    materialized(&mut tables, "j", 5 * MINUTE, 3);
    let c = claimed(&mut tables, "j");
    store::finalize_run(&mut tables, &clock(START), c.run_id, c.lease_token, Outcome::Completed)
        .unwrap();
    tables.runs[0].state = StoredRunState::Pending;
    tables.runs[0].attempt_count = 0;
    materialized(&mut tables, "k", 5 * MINUTE, 3);
    let before = tables.clone();
    assert_eq!(
        store::claim_batch(&mut tables, &clock(START), &worker("w"), &names(&["j", "k"]), 5),
        Err(SchedulerError::Database(DatabaseError::UniqueViolation))
    );
    assert_eq!(tables, before);
}

#[test]
fn a_claimed_calendar_lease_is_reported_but_stays_claimed() {
    let mut tables = Tables::new();
    materialized(&mut tables, "j", 5 * MINUTE, 3);
    tables.runs[0].lease_duration = PgInterval { microseconds: 0, days: 1, months: 0 };
    assert_eq!(
        store::claim_one(&mut tables, &clock(START), &worker("w"), &names(&["j"])),
        Err(SchedulerError::Invariant("claimed task has invalid lease duration"))
    );
    assert_eq!(tables.runs[0].state, StoredRunState::Running);
    assert_eq!(
        tables.runs[0].lease_expires_at,
        Some(ts(START + 24 * 60 * MINUTE))
    );
    tables.runs[0].state = StoredRunState::Pending;
    tables.runs[0].attempt_count = -1;
    assert_eq!(
        store::claim_one(&mut tables, &clock(START), &worker("w"), &names(&["j"])),
        Err(SchedulerError::Invariant("attempt_count must be positive after claim"))
    );
}

#[test]
fn batch_limits_must_fit_the_database() {
    let mut tables = Tables::new();
    let now = clock(START);
    assert_eq!(
        store::claim_batch(&mut tables, &now, &worker("w"), &names(&["j"]), usize::MAX),
        Err(SchedulerError::Config("claim batch is too large".to_owned()))
    );
    assert_eq!(
        store::recover_expired(&mut tables, &now, usize::MAX),
        Err(SchedulerError::Config("recovery batch is too large".to_owned()))
    );
    assert_eq!(
        store::claim_batch(&mut tables, &now, &worker("w"), &names(&["j"]), 0),
        Ok(vec![])
    );
}

#[test]
fn claims_come_back_in_slot_order() {
    let mut tables = Tables::new();
    for (i, slot) in [3, 1, 2].iter().enumerate() {
        insert_job(&mut tables, &format!("j{i}"), "*/1 * * * *", START - slot * MINUTE);
    }
    assert_eq!(store::materialize_due_jobs(&mut tables, &clock(START)), Ok(3));
    for (i, priority) in [0i16, 5, -5].iter().enumerate() {
        tables.runs[i].priority = *priority;
    }
    let two = store::claim_batch(
        &mut tables,
        &clock(START),
        &worker("w"),
        &names(&["j0", "j1", "j2"]),
        2,
    )
    .unwrap();
    // The two of highest priority, the earlier slot first.
    assert_eq!(two.len(), 2);
    assert_eq!(two[0].scheduled_for, ts(START - 3 * MINUTE));
    assert_eq!(two[1].scheduled_for, ts(START - 2 * MINUTE));
}

#[test]
fn dead_letters_exhausted_runs() {
    let mut tables = Tables::new();
    materialized(&mut tables, "j", SECOND, 1);
    let c = claimed(&mut tables, "j");
    assert_eq!(store::reap_expired(&mut tables, &clock(START + 2 * SECOND)), Ok(1));
    assert_eq!(
        store::run_state(&tables, c.run_id).unwrap(),
        Some(RunState::Failed {
            finished_at: ts(START + 2 * SECOND),
            error: "lease expired; max attempts exhausted".to_owned(),
        })
    );
    assert_eq!(
        store::task_attempts(&tables, c.run_id).unwrap()[0].state,
        AttemptState::Expired { error: Some("lease expired".to_owned()) }
    );
}

#[test]
fn requeues_reclaimable_runs() {
    let mut tables = Tables::new();
    materialized(&mut tables, "j", SECOND, 3);
    let c = claimed(&mut tables, "j");
    assert_eq!(store::reap_expired(&mut tables, &clock(START + 2 * SECOND)), Ok(0));
    assert!(matches!(
        store::run_state(&tables, c.run_id).unwrap(),
        Some(RunState::Pending)
    ));
    assert_eq!(tables.runs[0].available_at, ts(START + 2 * SECOND));
}

#[test]
fn concurrent_recovery_processes_task_once() {
    let mut tables = Tables::new();
    materialized(&mut tables, "j", SECOND, 1);
    let c = claimed(&mut tables, "j");
    let later = clock(START + 2 * SECOND);
    let left = store::recover_expired(&mut tables, &later, 10).unwrap();
    let right = store::recover_expired(&mut tables, &later, 10).unwrap();
    assert_eq!(
        left.failed + right.failed,
        1,
        "exactly one recovery owns the expired row"
    );
    assert!(matches!(
        store::run_state(&tables, c.run_id).unwrap(),
        Some(RunState::Failed { .. })
    ));
}

#[test]
fn recovery_takes_the_longest_expired_first() {
    let mut tables = Tables::new();
    for (i, lease) in [3, 1, 2].iter().enumerate() {
        materialized(&mut tables, &format!("j{i}"), lease * SECOND, 1 + i as i32);
    }
    for i in 0..3 {
        claimed(&mut tables, &format!("j{i}"));
    }
    let later = clock(START + 10 * SECOND);
    let summary = store::recover_expired(&mut tables, &later, 2).unwrap();
    assert_eq!((summary.requeued, summary.failed), (2, 0));
    assert_eq!(tables.runs[0].state, StoredRunState::Running);
    assert_eq!(tables.runs[1].state, StoredRunState::Pending);
    assert_eq!(tables.runs[2].state, StoredRunState::Pending);
    let rest = store::recover_expired(&mut tables, &later, 2).unwrap();
    assert_eq!((rest.requeued, rest.failed), (0, 1));
}

#[test]
fn missing_run_returns_none() {
    assert!(
        store::run_state(&Tables::new(), RunId::generate())
            .unwrap()
            .is_none()
    );
}

#[test]
fn run_with_no_lease_or_outcome_is_pending() {
    let mut tables = Tables::new();
    let job = materialized(&mut tables, "j-pending", 5 * MINUTE, 3);
    let run = run_ids(&tables, job)[0];
    assert!(matches!(
        store::run_state(&tables, run).unwrap(),
        Some(RunState::Pending)
    ));
}

#[test]
fn run_with_lease_is_running() {
    let mut tables = Tables::new();
    materialized(&mut tables, "j-running", 5 * MINUTE, 3);
    let claimed = claimed(&mut tables, "j-running");
    match store::run_state(&tables, claimed.run_id).unwrap() {
        Some(RunState::Running(lease)) => {
            assert_eq!(lease.worker_id, WorkerId::try_from("test-worker").unwrap());
            assert_eq!(lease.lease_token, claimed.lease_token);
        }
        other => panic!("expected running, got {other:?}"),
    }
}

#[test]
fn run_with_completed_outcome_is_completed() {
    let mut tables = Tables::new();
    materialized(&mut tables, "j-completed", 5 * MINUTE, 3);
    let claimed = claimed(&mut tables, "j-completed");
    let outcome = store::finalize_run(
        &mut tables,
        &clock(START),
        claimed.run_id,
        claimed.lease_token,
        Outcome::Completed,
    )
    .unwrap();
    assert_eq!(outcome, FinalizeOutcome::Applied);
    assert!(matches!(
        store::run_state(&tables, claimed.run_id).unwrap(),
        Some(RunState::Completed { .. })
    ));
}

#[test]
fn run_with_failed_outcome_is_failed() {
    let mut tables = Tables::new();
    materialized(&mut tables, "j-failed", 5 * MINUTE, 3);
    let claimed = claimed(&mut tables, "j-failed");
    let outcome = store::finalize_run(
        &mut tables,
        &clock(START),
        claimed.run_id,
        claimed.lease_token,
        Outcome::Failed("something went boom".into()),
    )
    .unwrap();
    assert_eq!(outcome, FinalizeOutcome::Applied);
    match store::run_state(&tables, claimed.run_id).unwrap() {
        Some(RunState::Failed { error, .. }) => assert_eq!(error, "something went boom"),
        other => panic!("expected failed, got {other:?}"),
    }
}

fn read(run: &SchedulerRun) -> Result<RunState, SchedulerError> {
    state_of(pg_task_scheduler::models::StatusRow {
        id: run.id,
        job_id: run.job_id,
        scheduled_for: run.scheduled_for,
        attempt_count: run.attempt_count,
        worker_id: run.worker_id.clone(),
        lease_token: run.lease_token,
        lease_expires_at: run.lease_expires_at,
        started_at: run.started_at,
        state: run.state,
        finished_at: run.finished_at,
        last_error: run.last_error.clone(),
    })
}

#[test]
fn incomplete_rows_are_invariant_errors() {
    let mut tables = Tables::new();
    materialized(&mut tables, "j", 5 * MINUTE, 3);
    let mut run = tables.runs[0].clone();
    run.state = StoredRunState::Running;
    assert_eq!(read(&run), Err(SchedulerError::Invariant("running task without worker")));
    run.worker_id = Some(worker("w"));
    assert_eq!(read(&run), Err(SchedulerError::Invariant("running task without token")));
    run.lease_token = Some(LeaseToken::generate());
    assert_eq!(read(&run), Err(SchedulerError::Invariant("running task without expiry")));
    run.lease_expires_at = Some(ts(START));
    assert_eq!(read(&run), Err(SchedulerError::Invariant("running task without start")));
    run.state = StoredRunState::Completed;
    assert_eq!(read(&run), Err(SchedulerError::Invariant("completed task without finish")));
    run.state = StoredRunState::Failed;
    assert_eq!(read(&run), Err(SchedulerError::Invariant("failed task without finish")));
    run.finished_at = Some(ts(START));
    assert_eq!(read(&run), Err(SchedulerError::Invariant("failed task without error")));
    run.state = StoredRunState::Cancelled;
    assert_eq!(read(&run), Ok(RunState::Cancelled { finished_at: ts(START) }));
    run.finished_at = None;
    assert_eq!(read(&run), Err(SchedulerError::Invariant("cancelled task without finish")));
}

#[test]
fn history_is_ordered_and_positive() {
    let mut tables = Tables::new();
    materialized(&mut tables, "j", SECOND, 3);
    let run = tables.runs[0].id;
    claimed(&mut tables, "j");
    let later = clock(START + 2 * SECOND);
    store::recover_expired(&mut tables, &later, 1).unwrap();
    store::claim_one(&mut tables, &later, &worker("w2"), &names(&["j"])).unwrap();
    tables.attempts.swap(0, 1);
    let history = store::task_attempts(&tables, run).unwrap();
    assert_eq!(history.len(), 2);
    assert_eq!(history[0].attempt, 1);
    assert_eq!(history[1].attempt, 2);
    assert_eq!(history[1].state, AttemptState::Running);
    assert_eq!(history[1].worker_id.as_str(), "w2");
    tables.attempts[0].attempt_number = 0;
    assert_eq!(
        store::task_attempts(&tables, run),
        Err(SchedulerError::Invariant("attempt history contains a non-positive number"))
    );
    assert_eq!(store::task_attempts(&tables, RunId(0)), Ok(vec![]));
}

#[test]
fn materializes_missed_slot_and_advances() {
    let mut tables = Tables::new();
    let job = insert_job(&mut tables, "j", "*/1 * * * *", START - 5 * MINUTE);
    let now = clock(START);
    assert_eq!(store::materialize_due_jobs(&mut tables, &now), Ok(1));
    assert_eq!(run_ids(&tables, job).len(), 1);
    assert_eq!(tables.runs[0].scheduled_for, ts(START - 5 * MINUTE));
    assert_eq!(tables.jobs[0].next_run_at, ts(START + MINUTE));
    // second pass: next_run_at now future → nothing
    assert_eq!(store::materialize_due_jobs(&mut tables, &now), Ok(0));
    assert_eq!(run_ids(&tables, job).len(), 1);
}

#[test]
fn skips_not_due_and_paused() {
    let mut tables = Tables::new();
    insert_job(&mut tables, "future", "*/1 * * * *", START + 60 * MINUTE);
    let paused = insert_job_full(
        &mut tables,
        "paused",
        "*/1 * * * *",
        START - MINUTE,
        5 * MINUTE,
        3,
        true,
    );
    assert_eq!(store::materialize_due_jobs(&mut tables, &clock(START)), Ok(0));
    assert!(run_ids(&tables, paused).is_empty());
}

#[test]
fn pauses_job_with_uncorrupted_cron_left_intact() {
    let mut tables = Tables::new();
    insert_job(&mut tables, "bad", "*/1 * * * *", START - MINUTE);
    tables.jobs[0].cron_expression = "garbage".to_owned();
    let _ = store::materialize_due_jobs(&mut tables, &clock(START)).unwrap();
    assert!(tables.jobs[0].is_paused, "bad cron pauses the job");
    assert_eq!(tables.jobs[0].next_run_at, ts(START - MINUTE));
    assert!(tables.runs.is_empty());
}

#[test]
fn materialization_handles_a_bounded_batch() {
    let mut tables = Tables::new();
    for i in 0..120 {
        insert_job(&mut tables, &format!("j{i}"), "*/1 * * * *", START - MINUTE);
    }
    assert_eq!(store::materialize_due_jobs(&mut tables, &clock(START)), Ok(100));
    assert_eq!(store::materialize_due_jobs(&mut tables, &clock(START)), Ok(20));
}

#[test]
fn a_slot_with_a_run_is_only_advanced() {
    let mut tables = Tables::new();
    insert_job(&mut tables, "j", "*/1 * * * *", START - MINUTE);
    let id = RunId::generate();
    assert_eq!(materialize_one(&mut tables, &clock(START), id), Ok(Tick::Processed));
    tables.jobs[0].next_run_at = ts(START - MINUTE);
    // The identifier is taken too, but no run is added for the slot.
    assert_eq!(materialize_one(&mut tables, &clock(START), id), Ok(Tick::Processed));
    assert_eq!(tables.runs.len(), 1);
    assert_eq!(tables.jobs[0].next_run_at, ts(START + MINUTE));
    tables.jobs[0].next_run_at = ts(START - 2 * MINUTE);
    assert_eq!(
        materialize_one(&mut tables, &clock(START), id),
        Err(SchedulerError::Database(DatabaseError::UniqueViolation))
    );
    assert_eq!(tables.jobs[0].next_run_at, ts(START - 2 * MINUTE));
}

#[test]
fn the_earliest_slot_comes_first_and_an_exhausted_schedule_is_paused() {
    let mut tables = Tables::new();
    let late = insert_job(&mut tables, "late", "*/1 * * * *", START - MINUTE);
    let early = insert_job(&mut tables, "early", "0 0 31 2 *", START - 2 * MINUTE);
    let now = clock(START);
    assert_eq!(find_due(&tables, ts(START)), 1);
    assert_eq!(materialize_one(&mut tables, &now, RunId::generate()), Ok(Tick::Processed));
    assert!(tables.runs.is_empty());
    assert!(tables.jobs[1].is_paused);
    assert_eq!(store::materialize_due_jobs(&mut tables, &now), Ok(1));
    assert_eq!(tables.runs[0].job_name.as_str(), "late");
    assert_eq!(run_ids(&tables, late).len(), 1);
    assert!(run_ids(&tables, early).is_empty());
}

#[test]
fn a_job_without_a_further_slot_does_not_block_the_others() {
    let mut tables = Tables::new();
    let a = insert_job(&mut tables, "a", "0 0 30 2 *", START - 5 * MINUTE);
    let b = insert_job(&mut tables, "b", "*/1 * * * *", START - MINUTE);
    let now = clock(START);
    assert_eq!(store::materialize_due_jobs(&mut tables, &now), Ok(2));
    // The first is paused, with its cursor where it was and no run.
    assert!(tables.jobs[0].is_paused);
    assert_eq!(tables.jobs[0].next_run_at, ts(START - 5 * MINUTE));
    assert_eq!(tables.jobs[0].updated_at, ts(START));
    assert!(run_ids(&tables, a).is_empty());
    // The second has its run, and a cursor past now.
    assert!(!tables.jobs[1].is_paused);
    assert_eq!(run_ids(&tables, b).len(), 1);
    assert_eq!(tables.runs[0].scheduled_for, ts(START - MINUTE));
    assert_eq!(tables.jobs[1].next_run_at, ts(START + MINUTE));
    assert_eq!(store::materialize_due_jobs(&mut tables, &now), Ok(0));
}

#[test]
fn a_batch_gives_each_due_job_one_run_under_the_identifiers_it_gets() {
    let mut tables = Tables::new();
    for i in 0..103 {
        insert_job(&mut tables, &format!("j{i}"), "*/1 * * * *", START - 5 * MINUTE);
    }
    let waiting = insert_job(&mut tables, "waiting", "*/1 * * * *", START + MINUTE);
    let now = clock(START);
    let first: Vec<RunId> = (0..200).map(RunId).collect();
    assert_eq!(materialize_due_jobs_as(&mut tables, &now, &first), Ok(MATERIALIZE_LIMIT));
    assert_eq!(MATERIALIZE_LIMIT, 100);
    let added: Vec<RunId> = tables.runs.iter().map(|run| run.id).collect();
    assert_eq!(added, first[..100].to_vec());
    let second: Vec<RunId> = (200..202).map(RunId).collect();
    assert_eq!(materialize_due_jobs_as(&mut tables, &now, &second), Ok(2));
    let third: Vec<RunId> = (300..400).map(RunId).collect();
    assert_eq!(materialize_due_jobs_as(&mut tables, &now, &third), Ok(1));
    assert_eq!(materialize_due_jobs_as(&mut tables, &now, &third), Ok(0));
    assert_eq!(tables.runs.len(), 103);
    for job in tables.jobs.iter().filter(|job| job.id != waiting) {
        assert_eq!(run_ids(&tables, job.id).len(), 1);
        assert_eq!(job.next_run_at, ts(START + MINUTE));
    }
    assert!(run_ids(&tables, waiting).is_empty());
}

#[test]
fn a_batch_stops_at_an_identifier_that_is_taken() {
    let mut tables = Tables::new();
    insert_job(&mut tables, "a", "*/1 * * * *", START - 3 * MINUTE);
    insert_job(&mut tables, "b", "*/1 * * * *", START - 2 * MINUTE);
    insert_job(&mut tables, "c", "*/1 * * * *", START - MINUTE);
    let ids = vec![RunId(1), RunId(1), RunId(2)];
    assert_eq!(
        materialize_due_jobs_as(&mut tables, &clock(START), &ids),
        Err(SchedulerError::Database(DatabaseError::UniqueViolation))
    );
    // What came before stays, and nothing else has changed.
    assert_eq!(tables.runs.len(), 1);
    assert_eq!(tables.jobs[0].next_run_at, ts(START + MINUTE));
    assert_eq!(tables.jobs[1].next_run_at, ts(START - 2 * MINUTE));
    assert_eq!(tables.jobs[2].next_run_at, ts(START - MINUTE));
}

#[test]
fn a_batch_counts_until_it_is_idle_full_or_fails() {
    let mut batch = Batch::new();
    assert_eq!(batch.on_tick(Ok(Tick::Processed)), None);
    assert_eq!(batch.done(), 1);
    assert_eq!(batch.on_tick(Ok(Tick::Idle)), Some(Ok(1)));
    let failure = SchedulerError::Pool("gone".to_owned());
    assert_eq!(batch.on_tick(Err(failure.clone())), Some(Err(failure)));
    let mut full = Batch::new();
    for _ in 0..99 {
        assert_eq!(full.on_tick(Ok(Tick::Processed)), None);
    }
    assert_eq!(full.on_tick(Ok(Tick::Processed)), Some(Ok(100)));
}

#[test]
fn a_token_that_is_taken_claims_nothing() {
    let mut tables = Tables::new();
    insert_job(&mut tables, "j", "*/1 * * * *", START - 2 * MINUTE);
    let now = clock(START);
    let ids = vec![RunId(1)];
    assert_eq!(materialize_due_jobs_as(&mut tables, &now, &ids), Ok(1));
    tables.jobs[0].next_run_at = ts(START - MINUTE);
    assert_eq!(materialize_due_jobs_as(&mut tables, &now, &vec![RunId(2)]), Ok(1));
    let (first, second) = (LeaseToken::generate(), LeaseToken::generate());
    let taken = Err(SchedulerError::Database(DatabaseError::UniqueViolation));
    let before = tables.clone();
    // Twice in one batch.
    let runs = vec![RunId(1), RunId(2)];
    assert_eq!(
        grant_unused(&mut tables, &now, &worker("w"), &runs, &vec![first, first]),
        taken
    );
    assert_eq!(tables, before);
    // Used by an earlier claim.
    let claimed = grant_unused(&mut tables, &now, &worker("w"), &ids, &vec![first]).unwrap();
    assert_eq!(claimed[0].lease_token, first);
    let before = tables.clone();
    assert_eq!(
        grant_unused(&mut tables, &now, &worker("w"), &vec![RunId(2)], &vec![first]),
        taken
    );
    assert_eq!(tables, before);
    let claimed =
        grant_unused(&mut tables, &now, &worker("w"), &vec![RunId(2)], &vec![second]).unwrap();
    assert_eq!(claimed[0].run_id, RunId(2));
    assert_eq!(tables.attempts.len(), 2);
}

#[test]
fn a_due_job_is_handled_by_what_its_expression_gives() {
    let mut tables = Tables::new();
    insert_job(&mut tables, "late", "*/1 * * * *", START + MINUTE);
    let job = insert_job(&mut tables, "due", "*/1 * * * *", START - MINUTE);
    let now = clock(START);
    assert_eq!(find_due(&tables, ts(START)), 1);
    let stuck = SchedulerError::Cron("no slot".to_owned());
    let before = tables.clone();
    assert_eq!(
        handle_due(&mut tables, &now, 1, RunId(7), Cursor::Stuck(stuck)),
        Ok(Tick::Processed)
    );
    assert!(tables.jobs[1].is_paused);
    assert_eq!(tables.jobs[1].next_run_at, ts(START - MINUTE));
    assert!(tables.runs.is_empty());
    tables = before;
    assert_eq!(
        handle_due(&mut tables, &now, 1, RunId(7), Cursor::Next(ts(START + 5))),
        Ok(Tick::Processed)
    );
    assert_eq!(run_ids(&tables, job), vec![RunId(7)]);
    assert_eq!(tables.jobs[1].next_run_at, ts(START + 5));
    assert_eq!(
        handle_due(&mut tables, &now, 1, RunId(8), Cursor::Corrupt),
        Ok(Tick::Processed)
    );
    assert!(tables.jobs[1].is_paused);
    assert_eq!(tables.runs.len(), 1);
    assert_eq!(find_due(&tables, ts(START)), 2);
}

#[test]
fn a_stored_expression_gives_a_cursor() {
    let now = clock(START);
    assert_eq!(
        stored_cursor("*/5 * * * *", &now),
        Cursor::Next(ts(START + 5 * MINUTE))
    );
    assert_eq!(stored_cursor("garbage", &now), Cursor::Corrupt);
    assert!(matches!(
        stored_cursor("0 0 31 2 *", &now),
        Cursor::Stuck(SchedulerError::Cron(_))
    ));
}
