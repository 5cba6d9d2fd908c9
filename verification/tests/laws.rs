use pg_task_scheduler::jobs;
use pg_task_scheduler::models::StoredRunState;
use pg_task_scheduler::store;
use pg_task_scheduler::time::LAST_SEARCHABLE;
use pg_task_scheduler::{
    CancelOutcome, ClaimedRun, CreateJob, CronExpression, DbClock, Duration, EnqueueOptions,
    FailureOutcome, FinalizeOutcome, JobLifecycle, JobName, LeaseDuration, MaxAttempts, Outcome,
    RenewalOutcome, RetryBackoff, RunId, RunState, SchedulerRun, Tables, Timestamp, WorkerId,
    cancel, enqueue, prune_terminal,
};

const SECOND: i64 = 1_000_000;
const START: i64 = 1_767_225_600 * SECOND;

fn ts(micros: i64) -> Timestamp {
    Timestamp { micros }
}

fn at(seconds: i64) -> DbClock {
    let now = ts(START + seconds * SECOND);
    DbClock::new(now, now)
}

fn enqueued(tables: &mut Tables) -> RunId {
    let options = EnqueueOptions::immediate()
        .lease_duration(LeaseDuration::try_from(Duration::from_secs(10)).unwrap())
        .retry_backoff(RetryBackoff::try_from(Duration::from_secs(0)).unwrap());
    enqueue(tables, &at(0), "t", Ok(serde_json::Value::from("payload")), options)
        .unwrap()
        .task_id
}

fn claim(tables: &mut Tables, seconds: i64, worker: &str) -> ClaimedRun {
    let worker = WorkerId::try_from(worker).unwrap();
    store::claim_one(tables, &at(seconds), &worker, &["t".to_owned()])
        .unwrap()
        .unwrap()
}

fn complete(tables: &mut Tables, seconds: i64, run: &ClaimedRun) -> FinalizeOutcome {
    store::finalize_run(
        tables,
        &at(seconds),
        run.run_id,
        run.lease_token,
        Outcome::Completed,
    )
    .unwrap()
}

fn snapshot(run: &SchedulerRun) -> (RunId, String, Timestamp, serde_json::Value, i32) {
    (
        run.id,
        run.job_name.as_str().to_owned(),
        run.scheduled_for,
        run.job_args.clone(),
        run.max_attempts,
    )
}

fn spec(name: &str, version: i64) -> CreateJob {
    CreateJob::new(
        JobName::try_from(name).unwrap(),
        CronExpression::parse("*/5 * * * *").unwrap(),
        LeaseDuration::default_value(),
        MaxAttempts::default_value(),
        JobLifecycle::Active,
        Ok(serde_json::Value::from(version)),
    )
    .unwrap()
}

#[test]
fn an_expired_worker_is_fenced_after_reclaim() {
    let mut tables = Tables::new();
    enqueued(&mut tables);
    let first = claim(&mut tables, 0, "first");
    store::recover_expired(&mut tables, &at(10), 10).unwrap();
    let second = claim(&mut tables, 10, "second");
    assert_eq!(first.run_id, second.run_id);
    assert_eq!((first.attempt, second.attempt), (1, 2));
    let before = tables.clone();
    assert_eq!(complete(&mut tables, 11, &first), FinalizeOutcome::Fenced);
    assert_eq!(
        store::renew_lease(&mut tables, &at(11), first.run_id, first.lease_token),
        Ok(RenewalOutcome::Fenced)
    );
    assert_eq!(
        store::fail_run(
            &mut tables,
            &at(11),
            first.run_id,
            first.lease_token,
            "late".to_owned(),
            true
        ),
        Ok(FailureOutcome::Fenced)
    );
    assert_eq!(tables, before);
    assert_eq!(complete(&mut tables, 11, &second), FinalizeOutcome::Applied);
}

#[test]
fn completion_and_cancellation_exclude_each_other() {
    let mut tables = Tables::new();
    let id = enqueued(&mut tables);
    let run = claim(&mut tables, 0, "w");
    let mut other = tables.clone();
    assert_eq!(complete(&mut tables, 1, &run), FinalizeOutcome::Applied);
    assert_eq!(cancel(&mut tables, &at(2), id), Ok(CancelOutcome::AlreadyTerminal));
    assert!(matches!(
        store::run_state(&tables, id).unwrap(),
        Some(RunState::Completed { .. })
    ));
    assert_eq!(cancel(&mut other, &at(1), id), Ok(CancelOutcome::Cancelled));
    assert_eq!(complete(&mut other, 2, &run), FinalizeOutcome::AlreadyTerminal);
    assert!(matches!(
        store::run_state(&other, id).unwrap(),
        Some(RunState::Cancelled { .. })
    ));
}

#[test]
fn ended_runs_stay_as_they_are() {
    let mut tables = Tables::new();
    enqueued(&mut tables);
    let run = claim(&mut tables, 0, "w");
    complete(&mut tables, 1, &run);
    let before = tables.clone();
    assert_eq!(complete(&mut tables, 2, &run), FinalizeOutcome::AlreadyTerminal);
    store::recover_expired(&mut tables, &at(1_000), 10).unwrap();
    let worker = WorkerId::try_from("w").unwrap();
    assert_eq!(
        store::claim_batch(&mut tables, &at(1_000), &worker, &["t".to_owned()], 10),
        Ok(vec![])
    );
    assert_eq!(tables, before);
}

#[test]
fn no_run_is_claimed_twice_at_a_time() {
    let mut tables = Tables::new();
    enqueued(&mut tables);
    enqueued(&mut tables);
    let worker = WorkerId::try_from("w").unwrap();
    let names = ["t".to_owned()];
    let first = store::claim_batch(&mut tables, &at(0), &worker, &names, 10).unwrap();
    assert_eq!(first.len(), 2);
    assert_ne!(first[0].run_id, first[1].run_id);
    assert_ne!(first[0].lease_token, first[1].lease_token);
    let second = store::claim_batch(&mut tables, &at(0), &worker, &names, 10).unwrap();
    assert!(second.is_empty());
}

#[test]
fn a_run_keeps_its_snapshot_through_its_life() {
    let mut tables = Tables::new();
    enqueued(&mut tables);
    let made = snapshot(&tables.runs[0]);
    let run = claim(&mut tables, 0, "w");
    store::renew_lease(&mut tables, &at(1), run.run_id, run.lease_token).unwrap();
    store::fail_run(
        &mut tables,
        &at(2),
        run.run_id,
        run.lease_token,
        "busy".to_owned(),
        true,
    )
    .unwrap();
    claim(&mut tables, 2, "w");
    store::recover_expired(&mut tables, &at(100), 10).unwrap();
    let last = claim(&mut tables, 100, "w");
    complete(&mut tables, 101, &last);
    assert_eq!(last.attempt, 3);
    assert_eq!(snapshot(&tables.runs[0]), made);
    assert_eq!(last.job_args, serde_json::Value::from("payload"));
}

#[test]
fn a_retired_token_stays_retired() {
    let mut tables = Tables::new();
    enqueued(&mut tables);
    let run = claim(&mut tables, 0, "w");
    store::fail_run(
        &mut tables,
        &at(1),
        run.run_id,
        run.lease_token,
        "busy".to_owned(),
        true,
    )
    .unwrap();
    assert_eq!(complete(&mut tables, 2, &run), FinalizeOutcome::Fenced);
    claim(&mut tables, 3, "w");
    assert_eq!(complete(&mut tables, 4, &run), FinalizeOutcome::Fenced);
    store::recover_expired(&mut tables, &at(100), 10).unwrap();
    assert_eq!(complete(&mut tables, 101, &run), FinalizeOutcome::Fenced);
}

#[test]
fn ensuring_twice_adds_once_and_leaves_runs_alone() {
    let mut tables = Tables::new();
    let first = jobs::ensure_job(&mut tables, &at(0), spec("j", 1)).unwrap();
    store::materialize_due_jobs(&mut tables, &at(300)).unwrap();
    let runs = tables.runs.clone();
    assert_eq!(runs.len(), 1);
    let second = jobs::ensure_job(&mut tables, &at(301), spec("j", 2)).unwrap();
    assert_eq!(first.id, second.id);
    assert_eq!(tables.jobs.len(), 1);
    assert_eq!(second.args, serde_json::Value::from(2));
    jobs::pause(&mut tables, ts(START), first.id).unwrap();
    jobs::delete(&mut tables, first.id).unwrap();
    assert_eq!(tables.runs, runs);
    assert_eq!(tables.runs[0].job_args, serde_json::Value::from(1));
}

#[test]
fn pause_and_resume_undo_each_other() {
    let mut tables = Tables::new();
    let made = jobs::create(&mut tables, &at(0), spec("j", 1)).unwrap();
    jobs::pause(&mut tables, ts(START), made.id).unwrap();
    assert_eq!(store::materialize_due_jobs(&mut tables, &at(300)), Ok(0));
    jobs::resume(&mut tables, ts(START), made.id).unwrap();
    let back = jobs::get(&tables, made.id).unwrap().unwrap();
    assert_eq!(back.lifecycle, JobLifecycle::Active);
    assert_eq!(back.next_run_at, made.next_run_at);
    assert_eq!(store::materialize_due_jobs(&mut tables, &at(300)), Ok(1));
}

#[test]
fn a_due_slot_is_not_skipped_by_a_late_tick() {
    let mut tables = Tables::new();
    jobs::create(&mut tables, &at(0), spec("j", 1)).unwrap();
    assert_eq!(store::materialize_due_jobs(&mut tables, &at(299)), Ok(0));
    assert_eq!(store::materialize_due_jobs(&mut tables, &at(1_000)), Ok(1));
    // The slot that was due gets its run; those missed after it do not.
    assert_eq!(tables.runs[0].scheduled_for, ts(START + 300 * SECOND));
    assert_eq!(tables.jobs[0].next_run_at, ts(START + 1_200 * SECOND));
}

#[test]
fn runs_are_worked_on_when_no_schedule_can_be_searched() {
    // The last of these is the end of the calendar.
    for seconds in [1, 86_400, 31 * 86_400] {
        let now = ts(LAST_SEARCHABLE + seconds * SECOND);
        let clock = DbClock::new(now, now);
        assert!(!clock.can_search());
        let mut tables = Tables::new();
        let options = EnqueueOptions::immediate();
        let payload = Ok(serde_json::Value::Null);
        let first = enqueue(&mut tables, &clock, "t", payload.clone(), options.clone()).unwrap();
        let second = enqueue(&mut tables, &clock, "t", payload, options).unwrap();
        let worker = WorkerId::try_from("w").unwrap();
        let names = ["t".to_owned()];
        let claimed = store::claim_batch(&mut tables, &clock, &worker, &names, 2).unwrap();
        assert_eq!(claimed.len(), 2);
        assert!(matches!(
            store::renew_lease(&mut tables, &clock, claimed[0].run_id, claimed[0].lease_token),
            Ok(RenewalOutcome::Renewed { .. })
        ));
        assert_eq!(
            store::finalize_run(
                &mut tables,
                &clock,
                claimed[0].run_id,
                claimed[0].lease_token,
                Outcome::Completed,
            ),
            Ok(FinalizeOutcome::Applied)
        );
        let other = if claimed[0].run_id == first.task_id { second } else { first };
        assert_eq!(cancel(&mut tables, &clock, other.task_id), Ok(CancelOutcome::Cancelled));
        assert_eq!(store::reap_expired(&mut tables, &clock), Ok(0));
        // Nothing is due, so there is nothing to search.
        assert_eq!(store::materialize_due_jobs(&mut tables, &clock), Ok(0));
    }
}

#[test]
fn pruning_deletes_only_ended_runs() {
    let mut tables = Tables::new();
    for _ in 0..3 {
        enqueued(&mut tables);
    }
    let done = claim(&mut tables, 0, "w");
    complete(&mut tables, 1, &done);
    claim(&mut tables, 1, "w");
    assert_eq!(prune_terminal(&mut tables, ts(i64::MAX), 10), Ok(1));
    assert_eq!(tables.runs.len(), 2);
    assert!(
        tables
            .runs
            .iter()
            .all(|r| r.state == StoredRunState::Pending || r.state == StoredRunState::Running)
    );
    assert_eq!(tables.attempts.len(), 1);
}
