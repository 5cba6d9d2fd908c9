use chrono::Datelike;
use pg_task_scheduler::policy::{
    JobLifecycle, LeaseDuration, LeaseDurationError, MaxAttempts, MaxAttemptsError, RetryBackoff,
    RetryBackoffError,
};
use pg_task_scheduler::time::{
    DbClock, Duration, FIRST_SEARCHABLE, LAST_SEARCHABLE, PgInterval, Timestamp,
};

#[test]
fn try_from_zero_is_non_positive() {
    assert_eq!(MaxAttempts::try_from(0u32), Err(MaxAttemptsError::NonPositive));
}

#[test]
fn try_from_above_i32_max_is_too_large() {
    let v = u32::try_from(i32::MAX).unwrap() + 1;
    assert_eq!(MaxAttempts::try_from(v), Err(MaxAttemptsError::TooLarge));
}

#[test]
fn try_from_i32_max_is_accepted() {
    let m = MaxAttempts::try_from(u32::try_from(i32::MAX).unwrap()).expect("i32::MAX valid");
    assert_eq!(m.to_i32(), i32::MAX);
}

#[test]
fn try_from_typical_round_trips() {
    assert_eq!(MaxAttempts::try_from(3u32).unwrap().to_i32(), 3);
}

#[test]
fn from_db_rejects_non_positive() {
    assert_eq!(MaxAttempts::from_db_i32(0), Err(MaxAttemptsError::NonPositive));
    assert_eq!(MaxAttempts::from_db_i32(-1), Err(MaxAttemptsError::NonPositive));
}

#[test]
fn from_db_accepts_positive() {
    assert_eq!(MaxAttempts::from_db_i32(3).unwrap().to_i32(), 3);
    for limit in [MaxAttempts::default_value(), MaxAttempts::try_from(1).unwrap()] {
        assert_eq!(MaxAttempts::from_db_i32(limit.to_i32()), Ok(limit));
    }
    assert_eq!(MaxAttempts::from_db_i32(i32::MAX).unwrap().to_i32(), i32::MAX);
}

#[test]
fn from_paused_round_trips() {
    assert_eq!(JobLifecycle::from_paused(true), JobLifecycle::Paused);
    assert_eq!(JobLifecycle::from_paused(false), JobLifecycle::Active);
    assert!(JobLifecycle::Paused.is_paused());
    assert!(!JobLifecycle::Active.is_paused());
}

#[test]
fn zero_is_rejected() {
    assert_eq!(
        LeaseDuration::try_from(Duration::from_nanos(0)),
        Err(LeaseDurationError::Zero)
    );
}

#[test]
fn sub_microsecond_is_precision_loss() {
    assert_eq!(
        LeaseDuration::try_from(Duration::from_nanos(500)),
        Err(LeaseDurationError::PrecisionLoss)
    );
}

#[test]
fn fractional_microsecond_is_precision_loss() {
    assert_eq!(
        LeaseDuration::try_from(Duration::from_nanos(1500)),
        Err(LeaseDurationError::PrecisionLoss)
    );
}

#[test]
fn one_microsecond_is_accepted() {
    let ld = LeaseDuration::try_from(Duration::from_micros(1)).expect("1us is valid");
    let iv = ld.to_pg_interval();
    assert_eq!(iv.microseconds, 1);
    assert_eq!(iv.days, 0);
    assert_eq!(iv.months, 0);
}

#[test]
fn whole_seconds_convert_to_microseconds() {
    let ld = LeaseDuration::try_from(Duration::from_secs(60)).expect("60s is valid");
    assert_eq!(ld.to_pg_interval().microseconds, 60_000_000);
}

#[test]
fn max_i64_microseconds_is_accepted() {
    let micros = u64::try_from(i64::MAX).unwrap();
    let ld = LeaseDuration::try_from(Duration::from_micros(micros)).expect("i64::MAX us is valid");
    assert_eq!(ld.to_pg_interval().microseconds, i64::MAX);
}

#[test]
fn one_past_max_i64_microseconds_is_too_large() {
    let micros = u64::try_from(i64::MAX).unwrap() + 1;
    assert_eq!(
        LeaseDuration::try_from(Duration::from_micros(micros)),
        Err(LeaseDurationError::TooLarge)
    );
}

#[test]
fn from_pg_interval_round_trips() {
    let ld = LeaseDuration::try_from(Duration::from_secs(300)).unwrap();
    let back = LeaseDuration::from_pg_interval(ld.to_pg_interval()).unwrap();
    assert_eq!(back, ld);
}

#[test]
fn from_pg_interval_rejects_days() {
    let iv = PgInterval { microseconds: 0, days: 1, months: 0 };
    assert_eq!(
        LeaseDuration::from_pg_interval(iv),
        Err(LeaseDurationError::CalendarComponent { months: 0, days: 1 })
    );
}

#[test]
fn from_pg_interval_rejects_months() {
    let iv = PgInterval { microseconds: 0, days: 0, months: 1 };
    assert_eq!(
        LeaseDuration::from_pg_interval(iv),
        Err(LeaseDurationError::CalendarComponent { months: 1, days: 0 })
    );
}

#[test]
fn from_pg_interval_rejects_zero_micros() {
    let iv = PgInterval { microseconds: 0, days: 0, months: 0 };
    assert_eq!(LeaseDuration::from_pg_interval(iv), Err(LeaseDurationError::Zero));
}

#[test]
fn from_pg_interval_rejects_negative_micros() {
    let iv = PgInterval::from_microseconds(-5);
    assert_eq!(LeaseDuration::from_pg_interval(iv), Err(LeaseDurationError::Zero));
}

#[test]
fn policy_messages() {
    assert_eq!(
        MaxAttemptsError::NonPositive.to_string(),
        "max_attempts must be greater than zero"
    );
    assert_eq!(
        MaxAttemptsError::TooLarge.to_string(),
        "max_attempts exceeds i32::MAX"
    );
    assert_eq!(
        LeaseDurationError::Zero.to_string(),
        "lease duration must be greater than zero"
    );
    assert_eq!(
        LeaseDurationError::PrecisionLoss.to_string(),
        "lease duration must be a whole number of microseconds"
    );
    assert_eq!(
        LeaseDurationError::TooLarge.to_string(),
        "lease duration exceeds the maximum of i64::MAX microseconds"
    );
    assert_eq!(
        RetryBackoffError::PrecisionLoss.to_string(),
        "retry backoff must be a whole number of microseconds"
    );
    assert_eq!(
        RetryBackoffError::TooLarge.to_string(),
        "retry backoff exceeds the maximum of i64::MAX microseconds"
    );
}

#[test]
fn backoff_may_be_zero_but_not_fractional() {
    let none = RetryBackoff::try_from(Duration::from_secs(0)).unwrap();
    assert_eq!(none.to_pg_interval(), PgInterval::from_microseconds(0));
    assert_eq!(
        RetryBackoff::try_from(Duration::from_nanos(1)),
        Err(RetryBackoffError::PrecisionLoss)
    );
    assert_eq!(
        RetryBackoff::try_from(Duration::from_micros(u64::MAX)),
        Err(RetryBackoffError::TooLarge)
    );
}

#[test]
fn default_policies() {
    assert_eq!(MaxAttempts::default_value().to_i32(), 3);
    assert_eq!(LeaseDuration::default_value().as_duration(), Duration::from_secs(300));
    assert_eq!(
        RetryBackoff::default().to_pg_interval(),
        PgInterval::from_microseconds(1_000_000)
    );
}

fn at(text: &str) -> Timestamp {
    let at: chrono::DateTime<chrono::Utc> = text.parse().unwrap();
    Timestamp { micros: at.timestamp_micros() }
}

#[test]
fn intervals_add_months_then_days_then_microseconds() {
    let start = at("2026-01-31T10:00:00Z");
    let step = |months: i32, days: i32, microseconds: i64| {
        start.checked_add(PgInterval { microseconds, days, months })
    };
    assert_eq!(step(0, 0, 1), Some(Timestamp { micros: start.micros + 1 }));
    assert_eq!(step(1, 0, 0), Some(at("2026-02-28T10:00:00Z")));
    assert_eq!(step(1, 1, 0), Some(at("2026-03-01T10:00:00Z")));
    assert_eq!(step(-2, 0, 0), Some(at("2025-11-30T10:00:00Z")));
    assert_eq!(step(0, -1, 1_000_000), Some(at("2026-01-30T10:00:01Z")));
    assert_eq!(step(i32::MAX, 0, 0), None);
    assert_eq!(step(i32::MIN, 0, 0), None);
    assert_eq!(
        Timestamp { micros: i64::MAX }.checked_add(PgInterval::from_microseconds(1)),
        None
    );
}

#[test]
fn a_clock_reads_any_instant_and_tells_whether_to_search_from_it() {
    let now = at("2026-01-31T10:00:00Z");
    let clock = DbClock::new(now, Timestamp { micros: i64::MAX });
    assert_eq!(clock.now(), now);
    assert_eq!(clock.wall(), Timestamp { micros: i64::MAX });
    assert!(clock.can_search());
    let can_search = |micros| DbClock::new(Timestamp { micros }, now).can_search();
    assert!(can_search(FIRST_SEARCHABLE));
    assert!(can_search(LAST_SEARCHABLE));
    assert!(!can_search(FIRST_SEARCHABLE - 1));
    assert!(!can_search(LAST_SEARCHABLE + 1));
    assert!(!can_search(i64::MIN));
    assert!(!can_search(i64::MAX));
    // One second after the first, the second day of the calendar begins; one second
    // and a microsecond after the last, its last month.
    let first = chrono::NaiveDate::MIN.succ_opt().unwrap().and_hms_opt(0, 0, 0).unwrap();
    assert_eq!(first.and_utc().timestamp_micros(), FIRST_SEARCHABLE + 1_000_000);
    let last = chrono::NaiveDate::MAX.with_day(1).unwrap().and_hms_opt(0, 0, 0).unwrap();
    assert_eq!(last.and_utc().timestamp_micros(), LAST_SEARCHABLE + 1_000_001);
}

#[test]
fn durations_measure_nanoseconds() {
    assert_eq!(Duration::from_millis(1500).as_micros(), 1_500_000);
    assert_eq!(Duration::from_millis(1500).subsec_nanos(), 500_000_000);
    assert!(Duration::from_nanos(0).is_zero());
    assert!(!Duration::from_nanos(1).is_zero());
}
