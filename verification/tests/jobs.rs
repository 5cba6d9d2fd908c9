use pg_task_scheduler::error::{CorruptJobRow, DatabaseError, SchedulerError};
use pg_task_scheduler::jobs;
use pg_task_scheduler::jobs::{applied_from_affected, create_as, create_at, ensure_job_at};
use pg_task_scheduler::policy::{LeaseDurationError, MaxAttemptsError};
use pg_task_scheduler::store;
use pg_task_scheduler::{
    Applied, CreateJob, CronExpression, DbClock, Duration, Job, JobId, JobLifecycle, JobName,
    LeaseDuration, MaxAttempts, PgInterval, ScheduleUpdate, SchedulerJob, Tables, Timestamp,
    WorkerId,
};

const SECOND: i64 = 1_000_000;
const MINUTE: i64 = 60 * SECOND;
const START: i64 = 1_767_225_600 * SECOND;

fn ts(micros: i64) -> Timestamp {
    Timestamp { micros }
}

fn clock(micros: i64) -> DbClock {
    DbClock::new(ts(micros), ts(micros))
}

fn value(text: &str) -> Result<serde_json::Value, String> {
    serde_json::from_str(text).map_err(|e| e.to_string())
}

fn spec(name: &str, cron: &str) -> CreateJob {
    CreateJob::new(
        JobName::try_from(name).unwrap(),
        CronExpression::parse(cron).unwrap(),
        LeaseDuration::try_from(Duration::from_secs(300)).unwrap(),
        MaxAttempts::try_from(3u32).unwrap(),
        JobLifecycle::Active,
        value("{\"k\":\"v\"}"),
    )
    .unwrap()
}

fn insert_job_full(
    tables: &mut Tables,
    name: &str,
    cron: &str,
    next_run_at: i64,
    lease_duration: PgInterval,
    is_paused: bool,
) -> JobId {
    let id = JobId::generate();
    tables.jobs.push(SchedulerJob {
        id,
        name: JobName::try_from(name).unwrap(),
        cron_expression: cron.to_owned(),
        job_args: value("{}").unwrap(),
        next_run_at: ts(next_run_at),
        lease_duration,
        max_attempts: 3,
        is_paused,
        created_at: ts(START),
        updated_at: ts(START),
        retry_backoff: PgInterval::from_microseconds(SECOND),
    });
    id
}

fn insert_job(tables: &mut Tables, name: &str, cron: &str, next_run_at: i64) -> JobId {
    let lease = PgInterval::from_microseconds(5 * MINUTE);
    insert_job_full(tables, name, cron, next_run_at, lease, false)
}

#[test]
fn create_sets_future_next_run() {
    let mut tables = Tables::new();
    let job = jobs::create(&mut tables, &clock(START), spec("digest", "*/5 * * * *")).unwrap();
    assert_eq!(job.next_run_at, ts(START + 5 * MINUTE));
    assert_eq!(job.args["k"], "v");
    assert_eq!(job.lease_duration.as_duration(), Duration::from_secs(300));
    assert_eq!(job.max_attempts.to_i32(), 3);
    assert_eq!(job.lifecycle, JobLifecycle::Active);
}

#[test]
fn create_is_strict_about_names_and_identifiers() {
    let mut tables = Tables::new();
    let now = clock(START);
    let job = create_as(&mut tables, &now, JobId(1), spec("a", "*/5 * * * *")).unwrap();
    assert_eq!(job.id, JobId(1));
    assert_eq!(
        jobs::create(&mut tables, &now, spec("a", "*/5 * * * *")),
        Err(SchedulerError::Database(DatabaseError::UniqueViolation))
    );
    assert_eq!(
        create_as(&mut tables, &now, JobId(1), spec("b", "*/5 * * * *")),
        Err(SchedulerError::Database(DatabaseError::UniqueViolation))
    );
    assert_eq!(tables.jobs.len(), 1);
    assert!(matches!(
        jobs::create(&mut tables, &now, spec("c", "0 0 31 2 *")),
        Err(SchedulerError::Cron(_))
    ));
    let unserializable = CreateJob::new(
        JobName::try_from("d").unwrap(),
        CronExpression::parse("* * * * *").unwrap(),
        LeaseDuration::default_value(),
        MaxAttempts::default_value(),
        JobLifecycle::Paused,
        Err("no json".to_owned()),
    );
    assert!(matches!(unserializable, Err(SchedulerError::Serde(m)) if m == "no json"));
}

#[test]
fn ensure_job_inserts_then_reconciles_config() {
    let mut tables = Tables::new();
    let now = clock(START);
    let a = jobs::ensure_job(&mut tables, &now, spec("sync", "*/5 * * * *")).unwrap();
    assert!(a.next_run_at > ts(START)); // insert path: cursor in the future
    let b = jobs::ensure_job(&mut tables, &now, spec("sync", "0 * * * *")).unwrap();
    assert_eq!(a.id, b.id); // idempotent by name — same row
    assert_eq!(b.cron.as_str(), "0 * * * *"); // config reconciled on conflict
    assert_eq!(tables.jobs.len(), 1);
}

#[test]
fn ensure_job_preserves_due_cursor_and_no_slot_skipped() {
    let mut tables = Tables::new();
    let now = clock(START);
    // An existing job whose next_run_at is already due (in the past).
    let id = insert_job(&mut tables, "sync", "*/5 * * * *", START - 5 * MINUTE);
    let before = tables.jobs[0].next_run_at;

    // ensure_job with a CHANGED cron must NOT advance the cursor.
    let job = jobs::ensure_job(&mut tables, &now, spec("sync", "0 * * * *")).unwrap();
    assert_eq!(job.id, id); // updated the existing row
    assert_eq!(job.cron.as_str(), "0 * * * *"); // config reconciled
    let after = tables.jobs[0].next_run_at;
    assert_eq!(after, before, "cursor must be preserved, not advanced");
    assert!(after < ts(START), "cursor still due — the slot was not skipped");

    // The materializer catches up the missed slot: the occurrence IS created.
    assert_eq!(store::materialize_due_jobs(&mut tables, &now).unwrap(), 1);
    assert_eq!(tables.runs.len(), 1);
}

#[test]
fn ensure_job_preserves_is_paused_on_conflict() {
    let mut tables = Tables::new();
    // An existing job that an operator has paused.
    insert_job_full(
        &mut tables,
        "p",
        "*/5 * * * *",
        START + 60 * MINUTE,
        PgInterval::from_microseconds(5 * MINUTE),
        true,
    );
    // ensure_job carries an active lifecycle; it must NOT resume.
    jobs::ensure_job(&mut tables, &clock(START), spec("p", "*/5 * * * *")).unwrap();
    assert!(
        tables.jobs[0].is_paused,
        "ensure_job must not resurrect a paused job"
    );
}

#[test]
fn pause_resume_list_get_delete() {
    let mut tables = Tables::new();
    let now = clock(START);
    let job = jobs::create(&mut tables, &now, spec("p", "*/5 * * * *")).unwrap();
    jobs::pause(&mut tables, ts(START + 1), job.id).unwrap();
    assert_eq!(
        jobs::get(&tables, job.id).unwrap().unwrap().lifecycle,
        JobLifecycle::Paused
    );
    assert_eq!(tables.jobs[0].updated_at, ts(START + 1));
    jobs::resume(&mut tables, ts(START + 2), job.id).unwrap();
    assert_eq!(
        jobs::get(&tables, job.id).unwrap().unwrap().lifecycle,
        JobLifecycle::Active
    );
    assert_eq!(jobs::list(&tables).unwrap().len(), 1);
    assert_eq!(jobs::delete(&mut tables, job.id), Ok(Applied::Changed));
    assert!(jobs::get(&tables, job.id).unwrap().is_none());
    assert_eq!(jobs::delete(&mut tables, job.id), Ok(Applied::NotFound));
    assert_eq!(jobs::pause(&mut tables, ts(START), job.id), Ok(Applied::NotFound));
    assert_eq!(jobs::resume(&mut tables, ts(START), job.id), Ok(Applied::NotFound));
}

#[test]
fn affected_rows_tell_whether_a_change_applied() {
    assert_eq!(applied_from_affected(0), Applied::NotFound);
    assert_eq!(applied_from_affected(1), Applied::Changed);
}

#[test]
fn reschedule_reset_from_now_advances_to_future() {
    let mut tables = Tables::new();
    let id = insert_job(&mut tables, "r", "*/5 * * * *", START - 5 * MINUTE);
    let job = jobs::reschedule(&mut tables, &clock(START), id, ScheduleUpdate::ResetFromNow)
        .unwrap()
        .expect("job exists");
    assert!(job.next_run_at > ts(START), "cursor reset into the future");
}

#[test]
fn reschedule_set_next_run_at_pins_instant() {
    let mut tables = Tables::new();
    let id = insert_job(&mut tables, "r", "*/5 * * * *", START + 60 * MINUTE);
    let target = ts(START + 360 * MINUTE);
    let job = jobs::reschedule(
        &mut tables,
        &clock(START),
        id,
        ScheduleUpdate::SetNextRunAt(target),
    )
    .unwrap()
    .expect("job exists");
    assert_eq!(job.next_run_at, target);
    assert_eq!(tables.jobs[0].next_run_at, target);
    assert_eq!(tables.jobs[0].updated_at, ts(START));
}

#[test]
fn reschedule_unknown_id_returns_none() {
    let mut tables = Tables::new();
    let now = clock(START);
    let missing = JobId::generate();
    assert!(
        jobs::reschedule(&mut tables, &now, missing, ScheduleUpdate::ResetFromNow)
            .unwrap()
            .is_none()
    );
    assert!(
        jobs::reschedule(&mut tables, &now, missing, ScheduleUpdate::SetNextRunAt(ts(START)))
            .unwrap()
            .is_none()
    );
}

#[test]
fn reschedule_reset_from_now_corrupt_cron_errors() {
    let mut tables = Tables::new();
    let id = insert_job(&mut tables, "c", "garbage", START - MINUTE);
    let res = jobs::reschedule(&mut tables, &clock(START), id, ScheduleUpdate::ResetFromNow);
    assert!(matches!(res, Err(SchedulerError::CorruptJob { .. })));
    assert_eq!(tables.jobs[0].next_run_at, ts(START - MINUTE));
}

#[test]
fn reschedule_moves_the_cursor_of_a_row_it_cannot_read() {
    let mut tables = Tables::new();
    let id = insert_job(&mut tables, "c", "* * * * *", START - MINUTE);
    tables.jobs[0].max_attempts = 0;
    let res = jobs::reschedule(&mut tables, &clock(START), id, ScheduleUpdate::ResetFromNow);
    assert_eq!(
        res,
        Err(SchedulerError::CorruptJob {
            job_id: id,
            source: CorruptJobRow::MaxAttempts(MaxAttemptsError::NonPositive),
        })
    );
    assert_eq!(tables.jobs[0].next_run_at, ts(START + MINUTE));
}

#[test]
fn get_unparseable_cron_is_corrupt_job() {
    let mut tables = Tables::new();
    let id = insert_job(&mut tables, "c", "garbage", START + 60 * MINUTE);
    assert!(matches!(
        jobs::get(&tables, id),
        Err(SchedulerError::CorruptJob { source: CorruptJobRow::Cron(_), .. })
    ));
}

#[test]
fn get_calendar_lease_interval_is_corrupt_job() {
    let mut tables = Tables::new();
    // '1 day' is not a pure-microsecond lease, so it must surface as CorruptJob,
    // not as a successful projection.
    let id = insert_job_full(
        &mut tables,
        "d",
        "*/5 * * * *",
        START + 60 * MINUTE,
        PgInterval { microseconds: 0, days: 1, months: 0 },
        false,
    );
    assert_eq!(
        jobs::get(&tables, id),
        Err(SchedulerError::CorruptJob {
            job_id: id,
            source: CorruptJobRow::LeaseDuration(LeaseDurationError::CalendarComponent {
                months: 0,
                days: 1,
            }),
        })
    );
}

#[test]
fn list_stops_at_the_first_corrupt_row() {
    let mut tables = Tables::new();
    insert_job(&mut tables, "a", "*/5 * * * *", START);
    let bad = insert_job(&mut tables, "b", "garbage", START);
    insert_job_full(
        &mut tables,
        "c",
        "*/5 * * * *",
        START,
        PgInterval::from_microseconds(0),
        false,
    );
    assert!(matches!(
        jobs::list(&tables),
        Err(SchedulerError::CorruptJob { job_id, .. }) if job_id == bad
    ));
    tables.jobs.truncate(1);
    let jobs = jobs::list(&tables).unwrap();
    assert_eq!(jobs[0].name.as_str(), "a");
}

#[test]
fn materialized_task_keeps_payload_and_survives_schedule_deletion() {
    let mut tables = Tables::new();
    let now = clock(START);
    let make_spec = |version: i32| {
        CreateJob::new(
            JobName::try_from("snapshot").unwrap(),
            CronExpression::parse("*/5 * * * *").unwrap(),
            LeaseDuration::try_from(Duration::from_secs(60)).unwrap(),
            MaxAttempts::try_from(3).unwrap(),
            JobLifecycle::Active,
            value(&format!("{{\"version\":{version}}}")),
        )
        .unwrap()
    };
    let job = jobs::create(&mut tables, &now, make_spec(1)).unwrap();
    jobs::reschedule(
        &mut tables,
        &now,
        job.id,
        ScheduleUpdate::SetNextRunAt(ts(START - SECOND)),
    )
    .unwrap();
    assert_eq!(store::materialize_due_jobs(&mut tables, &now).unwrap(), 1);
    jobs::ensure_job(&mut tables, &now, make_spec(2)).unwrap();
    assert_eq!(jobs::delete(&mut tables, job.id).unwrap(), Applied::Changed);

    let claimed = store::claim_one(
        &mut tables,
        &now,
        &WorkerId::try_from("worker").unwrap(),
        &["snapshot".to_owned()],
    )
    .unwrap()
    .unwrap();
    assert_eq!(claimed.job_id, Some(JobId(job.id.0)));
    assert_eq!(claimed.job_args["version"], 1);
    assert_eq!(claimed.lease_duration.as_duration(), Duration::from_secs(60));
}

#[test]
fn a_new_job_starts_where_its_cursor_is_put() {
    let mut tables = Tables::new();
    let now = clock(START);
    let made = spec("a", "*/5 * * * *");
    assert_eq!(made.name().as_str(), "a");
    let job = create_at(&mut tables, &now, JobId(1), made, ts(7)).unwrap();
    assert_eq!((job.id, job.next_run_at), (JobId(1), ts(7)));
    assert_eq!(tables.jobs[0].retry_backoff, PgInterval::from_microseconds(SECOND));
    let again = ensure_job_at(&mut tables, &now, JobId(2), spec("a", "0 * * * *"), ts(9)).unwrap();
    assert_eq!((again.id, again.next_run_at), (JobId(1), ts(7)));
    assert_eq!(again.cron.as_str(), "0 * * * *");
    let other = ensure_job_at(&mut tables, &now, JobId(2), spec("b", "0 * * * *"), ts(9)).unwrap();
    assert_eq!((other.id, other.next_run_at), (JobId(2), ts(9)));
    assert_eq!(
        ensure_job_at(&mut tables, &now, JobId(2), spec("c", "0 * * * *"), ts(9)),
        Err(SchedulerError::Database(DatabaseError::UniqueViolation))
    );
}

#[test]
fn the_first_fault_of_a_row_is_reported() {
    let mut tables = Tables::new();
    insert_job(&mut tables, "a", "*/5 * * * *", START);
    let mut row = tables.jobs[0].clone();
    row.max_attempts = 0;
    row.lease_duration = PgInterval::from_microseconds(0);
    let cron = || CronExpression::parse("0 * * * *");
    let e = SchedulerError::Cron("unreadable".to_owned());
    assert_eq!(Job::with_cron(row.clone(), Err(e.clone())), Err(e));
    assert!(matches!(
        Job::with_cron(row.clone(), cron()),
        Err(SchedulerError::CorruptJob {
            source: CorruptJobRow::LeaseDuration(LeaseDurationError::Zero),
            ..
        })
    ));
    row.lease_duration = PgInterval::from_microseconds(1);
    assert!(matches!(
        Job::with_cron(row.clone(), cron()),
        Err(SchedulerError::CorruptJob {
            source: CorruptJobRow::MaxAttempts(MaxAttemptsError::NonPositive),
            ..
        })
    ));
    row.max_attempts = 1;
    let job = Job::with_cron(row, cron()).unwrap();
    assert_eq!(job.cron.as_str(), "0 * * * *");
    assert_eq!(job.name.as_str(), "a");
}
