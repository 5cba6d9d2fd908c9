use pg_task_scheduler::error::{DatabaseError, JobError, RegisterError, SchedulerError};
use pg_task_scheduler::metrics;
use pg_task_scheduler::metrics::CounterUpdate;
use pg_task_scheduler::runtime::builder::DEFAULT_MAX_CONCURRENCY;
use pg_task_scheduler::runtime::dispatch::{
    DispatchAction, DispatchEvent, DispatchLoop, DispatchPhase, Heartbeat, RenewalReply,
    heartbeat_interval, on_heartbeat, renewal_reply,
};
use pg_task_scheduler::runtime::health::{stopped, update_health};
use pg_task_scheduler::runtime::worker::{
    HandlerEnd, WorkerAction, WorkerEvent, WorkerLoop, WorkerPhase, claim_and_dispatch,
    finalize_handler, materialize, materialized, plan_dispatch, recover_leases,
};
use pg_task_scheduler::store;
use pg_task_scheduler::{
    AttemptState, ClaimedRun, DbClock, DuplicateJobName, Duration, EnqueueOptions, HealthStatus,
    IdentifierError, JobContext, JobId, JobName, LeaseDuration, MaxAttempts, PgInterval, Registry,
    RenewalOutcome, RunId, RunState, Scheduler, SchedulerJob, Tables, Timestamp, WorkerHealth,
    WorkerId, enqueue,
};

const SECOND: i64 = 1_000_000;
const START: i64 = 1_767_225_600 * SECOND;

/// Stands for a source of connections that no test asks for one.
#[derive(Clone, Debug)]
struct FakePool;

type Handler = fn() -> i64;

fn one() -> i64 {
    1
}

fn hundred() -> i64 {
    100
}

fn ts(micros: i64) -> Timestamp {
    Timestamp { micros }
}

fn clock(micros: i64) -> DbClock {
    DbClock::new(ts(micros), ts(micros))
}

fn name(text: &str) -> JobName {
    JobName::try_from(text).unwrap()
}

fn worker() -> WorkerId {
    WorkerId::try_from("w").unwrap()
}

fn registry(names: &[&str]) -> Registry<Handler> {
    let mut registry: Registry<Handler> = Registry::new();
    for text in names {
        registry.register(name(text), one).unwrap();
    }
    registry
}

fn enqueued(tables: &mut Tables, task: &str, options: EnqueueOptions) -> RunId {
    enqueue(tables, &clock(START), task, Ok(serde_json::Value::Null), options)
        .unwrap()
        .task_id
}

fn claimed(tables: &mut Tables, task: &str) -> ClaimedRun {
    store::claim_one(tables, &clock(START), &worker(), &[task.to_owned()])
        .unwrap()
        .unwrap()
}

#[test]
fn build_errors_on_empty_registry() {
    let worker_id = WorkerId::try_from("test-worker").unwrap();
    let result = Scheduler::<FakePool, Handler>::builder(FakePool, worker_id).build();
    match result {
        Err(SchedulerError::Config(m)) => {
            assert_eq!(m, "at least one handler must be registered")
        }
        Err(other) => panic!("expected SchedulerError::Config, got {other:?}"),
        Ok(_) => panic!("build() must fail when no handlers are registered"),
    }
}

#[test]
fn builder_rejects_duplicate_registration() {
    let builder =
        Scheduler::<FakePool, Handler>::builder(FakePool, WorkerId::try_from("w").unwrap())
            .register("dup", one as Handler)
            .ok()
            .unwrap();
    let err = builder.register("dup", hundred as Handler).err().unwrap();
    assert!(matches!(err, RegisterError::Duplicate(_)), "got {err:?}");
}

#[test]
fn builder_rejects_invalid_name() {
    let err = Scheduler::<FakePool, Handler>::builder(FakePool, WorkerId::try_from("w").unwrap())
        .register("", one as Handler)
        .err()
        .unwrap();
    assert!(
        matches!(err, RegisterError::Name(IdentifierError::Empty)),
        "got {err:?}"
    );
}

#[test]
fn builder_accepts_prebuilt_job_name() {
    let name = JobName::try_from("built").unwrap();
    let result =
        Scheduler::<FakePool, Handler>::builder(FakePool, WorkerId::try_from("w").unwrap())
            .register(name, one as Handler);
    assert!(result.is_ok());
}

#[test]
fn default_concurrency_is_16() {
    assert_eq!(DEFAULT_MAX_CONCURRENCY, 16);
}

#[test]
fn builder_settings_reach_the_scheduler() {
    let scheduler = Scheduler::<FakePool, Handler>::builder(FakePool, worker())
        .register("a".to_owned(), one as Handler)
        .ok()
        .unwrap();
    let defaults = scheduler.build().ok().unwrap();
    assert_eq!(defaults.config.worker_id, worker());
    assert_eq!(defaults.config.poll_interval, Duration::from_secs(1));
    assert_eq!(defaults.config.reaper_interval, Duration::from_secs(20));
    assert_eq!(defaults.config.shutdown_timeout, Duration::from_secs(25));
    assert_eq!(defaults.config.max_concurrency, 16);
    let tuned = Scheduler::<FakePool, Handler>::builder(FakePool, worker())
        .poll_interval(Duration::from_millis(50))
        .reaper_interval(Duration::from_secs(60))
        .shutdown_timeout(Duration::from_millis(200))
        .max_concurrency(4)
        .register("a", one as Handler)
        .ok()
        .unwrap()
        .build()
        .ok()
        .unwrap();
    assert_eq!(tuned.config.poll_interval, Duration::from_millis(50));
    assert_eq!(tuned.config.reaper_interval, Duration::from_secs(60));
    assert_eq!(tuned.config.shutdown_timeout, Duration::from_millis(200));
    assert_eq!(tuned.config.max_concurrency, 4);
    assert_eq!(tuned.registry.names(), vec!["a".to_owned()]);
}

#[test]
fn duplicate_registration_is_rejected_first_wins() {
    let mut reg: Registry<Handler> = Registry::new();
    // First handler for "x" counts 1.
    reg.register(JobName::try_from("x").unwrap(), one).unwrap();
    // A second handler for "x" (would count 100) must be rejected.
    let err = reg
        .register(JobName::try_from("x").unwrap(), hundred)
        .unwrap_err();
    assert_eq!(err, DuplicateJobName(JobName::try_from("x").unwrap()));
    // First-wins: the retained handler is the FIRST one.
    assert_eq!(reg.get(&JobName::try_from("x").unwrap()).unwrap()(), 1);
}

#[test]
fn distinct_names_both_register() {
    let mut reg: Registry<Handler> = Registry::new();
    assert!(reg.is_empty());
    reg.register(JobName::try_from("a").unwrap(), one).unwrap();
    reg.register(JobName::try_from("b").unwrap(), one).unwrap();
    assert!(reg.get(&JobName::try_from("a").unwrap()).is_some());
    assert!(reg.get(&JobName::try_from("b").unwrap()).is_some());
    assert!(reg.get(&JobName::try_from("c").unwrap()).is_none());
    assert!(!reg.is_empty());
    let mut names = reg.names();
    names.sort();
    assert_eq!(names, vec!["a".to_owned(), "b".to_owned()]);
}

#[test]
fn health_counts_failures_in_a_row() {
    let mut failures = 0;
    let e = SchedulerError::Pool("down".to_owned());
    assert_eq!(
        WorkerHealth::default(),
        WorkerHealth {
            status: HealthStatus::Starting,
            consecutive_failures: 0,
            last_error: None
        }
    );
    update_health(&mut failures, Some(&e));
    let second = update_health(&mut failures, Some(&e));
    assert_eq!(
        second,
        WorkerHealth {
            status: HealthStatus::Degraded,
            consecutive_failures: 2,
            last_error: Some(e.to_string())
        }
    );
    assert_eq!(update_health(&mut failures, None).status, HealthStatus::Healthy);
    assert_eq!(failures, 0);
    failures = u64::MAX;
    assert_eq!(
        update_health(&mut failures, Some(&e)).consecutive_failures,
        u64::MAX
    );
    assert_eq!(stopped(3).consecutive_failures, 3);
    assert_eq!(stopped(3).status, HealthStatus::Stopped);
}

#[test]
fn counters_stop_at_what_the_machine_can_count() {
    assert_eq!(
        metrics::incr(metrics::RUNS_CLAIMED),
        CounterUpdate { name: "pg_task_scheduler.runs.claimed", amount: 1 }
    );
    assert_eq!(metrics::incr_by(metrics::RUNS_REAPED, 7).amount, 7);
    assert_eq!(
        metrics::incr_by(metrics::RUNS_REAPED, u64::MAX).amount,
        usize::try_from(u64::MAX).unwrap_or(usize::MAX)
    );
}

#[test]
fn a_good_cycle_materializes_then_claims() {
    let mut worker = WorkerLoop::new();
    assert_eq!(worker.on_event(WorkerEvent::PollDue), WorkerAction::Materialize);
    // A shutdown waits for the cycle to end.
    assert_eq!(worker.on_event(WorkerEvent::ShutdownRequested), WorkerAction::Wait);
    assert_eq!(worker.on_event(WorkerEvent::Finished(Ok(()))), WorkerAction::Claim);
    assert_eq!(worker.on_event(WorkerEvent::Finished(Ok(()))), WorkerAction::Report);
    assert_eq!(worker.health.status, HealthStatus::Healthy);
    assert_eq!(worker.on_event(WorkerEvent::HandlerJoined), WorkerAction::Claim);
    assert_eq!(worker.on_event(WorkerEvent::Finished(Ok(()))), WorkerAction::Report);
}

#[test]
fn a_failed_cycle_claims_nothing_and_degrades() {
    let mut worker = WorkerLoop::new();
    assert_eq!(worker.on_event(WorkerEvent::RecoveryDue), WorkerAction::Recover);
    let e = SchedulerError::Database(DatabaseError::Other("gone".to_owned()));
    assert_eq!(worker.on_event(WorkerEvent::Finished(Err(e))), WorkerAction::Report);
    assert_eq!(worker.phase, WorkerPhase::Waiting);
    assert_eq!(worker.health.status, HealthStatus::Degraded);
    assert_eq!(worker.failures, 1);
}

#[test]
fn after_shutdown_nothing_is_claimed() {
    let mut worker = WorkerLoop::new();
    assert_eq!(worker.on_event(WorkerEvent::ShutdownRequested), WorkerAction::Drain);
    assert_eq!(worker.on_event(WorkerEvent::PollDue), WorkerAction::Wait);
    assert_eq!(worker.on_event(WorkerEvent::HandlerJoined), WorkerAction::Wait);
    assert_eq!(worker.on_event(WorkerEvent::Drained), WorkerAction::Stop);
    assert_eq!(worker.health.status, HealthStatus::Stopped);
    assert_eq!(worker.on_event(WorkerEvent::RecoveryDue), WorkerAction::Wait);
}

#[test]
fn handlers_that_outlast_a_shutdown_are_aborted() {
    let mut worker = WorkerLoop::new();
    // Nothing is aborted before a shutdown.
    assert_eq!(worker.on_event(WorkerEvent::TimeUp), WorkerAction::Wait);
    assert_eq!(worker.on_event(WorkerEvent::ShutdownRequested), WorkerAction::Drain);
    assert_eq!(worker.on_event(WorkerEvent::HandlerJoined), WorkerAction::Wait);
    assert_eq!(worker.phase, WorkerPhase::Draining);
    assert_eq!(worker.on_event(WorkerEvent::TimeUp), WorkerAction::Abort);
    assert_eq!(worker.phase, WorkerPhase::Aborting);
    assert_eq!(worker.on_event(WorkerEvent::TimeUp), WorkerAction::Wait);
    assert_eq!(worker.on_event(WorkerEvent::PollDue), WorkerAction::Wait);
    assert_eq!(worker.health.status, HealthStatus::Starting);
    assert_eq!(worker.on_event(WorkerEvent::Drained), WorkerAction::Stop);
    assert_eq!(worker.phase, WorkerPhase::Stopped);
    assert_eq!(worker.health.status, HealthStatus::Stopped);
}

#[test]
fn materialization_is_counted() {
    let mut tables = Tables::new();
    assert_eq!(materialize(&mut tables, &clock(START)), Ok(None));
    tables.jobs.push(SchedulerJob {
        id: JobId::generate(),
        name: name("j"),
        cron_expression: "*/1 * * * *".to_owned(),
        job_args: serde_json::Value::Null,
        next_run_at: ts(START),
        lease_duration: PgInterval::from_microseconds(SECOND),
        max_attempts: 1,
        is_paused: false,
        created_at: ts(START),
        updated_at: ts(START),
        retry_backoff: PgInterval::from_microseconds(0),
    });
    assert_eq!(
        materialize(&mut tables, &clock(START)),
        Ok(Some(CounterUpdate { name: metrics::RUNS_MATERIALIZED, amount: 1 }))
    );
}

#[test]
fn a_materialization_counts_what_it_handled() {
    assert_eq!(materialized(Ok(0)), Ok(None));
    assert_eq!(
        materialized(Ok(7)),
        Ok(Some(CounterUpdate { name: metrics::RUNS_MATERIALIZED, amount: 7 }))
    );
    let e = SchedulerError::Pool("gone".to_owned());
    assert_eq!(materialized(Err(e.clone())), Err(e));
}

#[test]
fn recovery_is_counted() {
    let mut tables = Tables::new();
    let none = recover_leases(&mut tables, &clock(START)).unwrap();
    assert_eq!((none.requeued, none.reaped), (None, None));
    for attempts in [1, 2, 2] {
        let options = EnqueueOptions::immediate()
            .max_attempts(MaxAttempts::try_from(attempts).unwrap())
            .lease_duration(LeaseDuration::try_from(Duration::from_secs(1)).unwrap());
        enqueued(&mut tables, "t", options);
        claimed(&mut tables, "t");
    }
    let updates = recover_leases(&mut tables, &clock(START + SECOND)).unwrap();
    assert_eq!(
        updates.requeued,
        Some(CounterUpdate { name: metrics::RUNS_REQUEUED, amount: 2 })
    );
    assert_eq!(
        updates.reaped,
        Some(CounterUpdate { name: metrics::RUNS_REAPED, amount: 1 })
    );
}

#[test]
fn a_worker_claims_no_more_than_its_permits() {
    let mut tables = Tables::new();
    let reg = registry(&["t"]);
    for _ in 0..3 {
        enqueued(&mut tables, "t", EnqueueOptions::immediate());
    }
    let now = clock(START);
    assert!(
        claim_and_dispatch(&mut tables, &now, &reg, &reg.names(), &worker(), 0)
            .unwrap()
            .is_none()
    );
    assert!(tables.attempts.is_empty());
    let plan = claim_and_dispatch(&mut tables, &now, &reg, &reg.names(), &worker(), 2)
        .unwrap()
        .unwrap();
    assert_eq!(plan.started.len(), 2);
    assert_eq!(plan.error, None);
    assert_eq!(plan.update, CounterUpdate { name: metrics::RUNS_CLAIMED, amount: 1 });
    assert_eq!(tables.attempts.len(), 2);
}

#[test]
fn a_dispatch_stops_at_the_first_run_it_cannot_start() {
    let mut tables = Tables::new();
    let mut batch = Vec::new();
    for task in ["a", "b", "a"] {
        enqueued(&mut tables, task, EnqueueOptions::immediate());
        batch.push(claimed(&mut tables, task));
    }
    let plan = plan_dispatch(batch.clone(), 3, &registry(&["a"]));
    assert_eq!(plan.started.len(), 1);
    assert_eq!(
        plan.error,
        Some(SchedulerError::Invariant("claimed task has no registered handler"))
    );
    let plan = plan_dispatch(batch, 2, &registry(&["a", "b"]));
    assert_eq!(plan.started.len(), 2);
    assert_eq!(
        plan.error,
        Some(SchedulerError::Invariant("claimed more tasks than worker capacity"))
    );
}

#[test]
fn the_end_of_a_handler_is_recorded_and_counted() {
    let mut tables = Tables::new();
    let now = clock(START);
    let done = enqueued(&mut tables, "t", EnqueueOptions::immediate());
    let run = claimed(&mut tables, "t");
    match finalize_handler(&mut tables, &now, &run, Ok(())) {
        HandlerEnd::Recorded(update) => assert_eq!(update.name, metrics::RUNS_COMPLETED),
        other => panic!("expected a record, got {other:?}"),
    }
    assert!(matches!(
        store::run_state(&tables, done).unwrap(),
        Some(RunState::Completed { .. })
    ));
    assert!(matches!(
        finalize_handler(&mut tables, &now, &run, Ok(())),
        HandlerEnd::Fenced
    ));
    assert!(matches!(
        finalize_handler(&mut tables, &now, &run, Err(JobError::retry("x"))),
        HandlerEnd::Fenced
    ));

    enqueued(&mut tables, "t", EnqueueOptions::immediate());
    let run = claimed(&mut tables, "t");
    match finalize_handler(&mut tables, &now, &run, Err(JobError::retry("busy"))) {
        HandlerEnd::Recorded(update) => assert_eq!(update.name, metrics::RUNS_REQUEUED),
        other => panic!("expected a record, got {other:?}"),
    }
    assert_eq!(
        store::task_attempts(&tables, run.run_id).unwrap()[0].state,
        AttemptState::Failed { error: Some(JobError::retry("busy").to_string()) }
    );

    let failed = enqueued(&mut tables, "t", EnqueueOptions::immediate());
    let run = claimed(&mut tables, "t");
    assert_eq!(run.run_id, failed);
    match finalize_handler(&mut tables, &now, &run, Err(JobError::permanent("bad"))) {
        HandlerEnd::Recorded(update) => assert_eq!(update.name, metrics::RUNS_FAILED),
        other => panic!("expected a record, got {other:?}"),
    }
    enqueued(&mut tables, "t", EnqueueOptions::immediate());
    let run = claimed(&mut tables, "t");
    tables.attempts.clear();
    assert!(matches!(
        finalize_handler(&mut tables, &now, &run, Ok(())),
        HandlerEnd::Lost(SchedulerError::Invariant(_))
    ));
}

#[test]
fn heartbeats_come_three_times_in_a_lease() {
    assert_eq!(heartbeat_interval(Duration::from_secs(3)), Duration::from_secs(1));
    assert_eq!(
        heartbeat_interval(Duration::from_secs(1)),
        Duration::from_nanos(333_333_333)
    );
    assert_eq!(heartbeat_interval(Duration::from_nanos(2)), Duration::from_micros(1));
}

#[test]
fn a_lease_is_lost_when_fenced_or_overdue() {
    let renewed = renewal_reply(Ok(RenewalOutcome::Renewed { lease_expires_at: ts(20) }));
    assert_eq!(
        on_heartbeat(ts(10), &renewed, ts(15)),
        Heartbeat::Continue { lease_expires_at: ts(20) }
    );
    assert_eq!(on_heartbeat(ts(10), &renewed, ts(20)), Heartbeat::LeaseLost);
    let fenced = renewal_reply(Ok(RenewalOutcome::Fenced));
    assert_eq!(fenced, RenewalReply::Fenced);
    assert_eq!(on_heartbeat(ts(10), &fenced, ts(0)), Heartbeat::LeaseLost);
    let away = renewal_reply(Err(SchedulerError::Pool("down".to_owned())));
    assert_eq!(
        on_heartbeat(ts(10), &away, ts(9)),
        Heartbeat::Continue { lease_expires_at: ts(10) }
    );
    assert_eq!(on_heartbeat(ts(10), &away, ts(10)), Heartbeat::LeaseLost);
}

#[test]
fn a_handler_ends_once() {
    let mut tables = Tables::new();
    enqueued(&mut tables, "t", EnqueueOptions::immediate());
    let run = claimed(&mut tables, "t");
    let context = JobContext::of(&run);
    assert_eq!(context.run_id, run.run_id);
    assert_eq!(context.attempt, 1);
    assert_eq!(context.job_id, None);

    let mut handler = DispatchLoop::start(&run);
    assert_eq!(handler.heartbeat, Duration::from_secs(100));
    assert_eq!(handler.on_event(DispatchEvent::HeartbeatDue), DispatchAction::Renew);
    let later = run.lease_expires_at.micros + 1;
    assert_eq!(
        handler.on_event(DispatchEvent::RenewalReturned {
            reply: RenewalReply::Renewed { lease_expires_at: ts(later) },
            host_now: ts(START),
        }),
        DispatchAction::Wait
    );
    assert_eq!(handler.lease_expires_at, ts(later));
    assert_eq!(handler.on_event(DispatchEvent::HandlerFinished), DispatchAction::Record);
    assert_eq!(handler.on_event(DispatchEvent::HandlerFinished), DispatchAction::Wait);
    assert_eq!(handler.on_event(DispatchEvent::HeartbeatDue), DispatchAction::Wait);
    assert_eq!(handler.phase, DispatchPhase::Ended);

    let mut lost = DispatchLoop::start(&run);
    lost.on_event(DispatchEvent::HeartbeatDue);
    assert_eq!(
        lost.on_event(DispatchEvent::RenewalReturned {
            reply: RenewalReply::Fenced,
            host_now: ts(START),
        }),
        DispatchAction::Cancel
    );
    assert_eq!(lost.on_event(DispatchEvent::HandlerFinished), DispatchAction::Wait);
}
