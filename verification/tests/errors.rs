use pg_task_scheduler::error::{
    CorruptJobRow, DatabaseError, DuplicateJobName, JobError, RegisterError, SchedulerError,
};
use pg_task_scheduler::ids::{IdentifierError, JobId, JobName};
use pg_task_scheduler::policy::{LeaseDurationError, MaxAttemptsError};

#[test]
fn job_error_msg_display() {
    let job_err = JobError::msg("e");
    assert_eq!(job_err.to_string(), "e");
}

#[test]
fn job_error_from_std_error() {
    let serde_err = serde_json::from_str::<i32>("x").unwrap_err();
    let job_err = JobError::from(serde_err.to_string());
    // Should produce a non-empty display string from the inner error.
    assert!(!job_err.to_string().is_empty());
    assert_eq!(job_err.to_string(), serde_err.to_string());
    assert!(!job_err.is_retryable());
}

#[test]
fn corrupt_job_row_from_max_attempts() {
    let e: CorruptJobRow = MaxAttemptsError::NonPositive.into();
    assert!(e.to_string().contains("max_attempts"));
}

#[test]
fn only_retry_is_retryable() {
    assert!(!JobError::msg("a").is_retryable());
    assert!(!JobError::permanent("a".to_owned()).is_retryable());
    assert!(JobError::retry("a").is_retryable());
    assert_eq!(JobError::retry("again").to_string(), "again");
}

#[test]
fn scheduler_error_messages() {
    let shown = [
        (
            SchedulerError::Database(DatabaseError::UniqueViolation).to_string(),
            "database error: duplicate key value violates unique constraint",
        ),
        (
            SchedulerError::Database(DatabaseError::OutOfRange).to_string(),
            "database error: value out of range",
        ),
        (
            SchedulerError::Database(DatabaseError::Other("gone".to_owned())).to_string(),
            "database error: gone",
        ),
        (
            SchedulerError::Pool("p".to_owned()).to_string(),
            "connection pool error: p",
        ),
        (
            SchedulerError::Cron("c".to_owned()).to_string(),
            "cron parse error: c",
        ),
        (
            SchedulerError::Config("c".to_owned()).to_string(),
            "configuration error: c",
        ),
        (
            SchedulerError::from(IdentifierError::Empty).to_string(),
            "invalid identifier: identifier must not be empty",
        ),
        (
            SchedulerError::from(RegisterError::from(IdentifierError::Empty)).to_string(),
            "identifier must not be empty",
        ),
        (
            SchedulerError::Serde("s".to_owned()).to_string(),
            "serialization error: s",
        ),
        (
            SchedulerError::Invariant("i").to_string(),
            "invariant violated: i",
        ),
    ];
    for (shown, expected) in shown {
        assert_eq!(shown, expected);
    }
}

#[test]
fn corrupt_job_names_the_row() {
    let e = SchedulerError::CorruptJob {
        job_id: JobId(0x0123_4567_89ab_cdef_0123_4567_89ab_cdef),
        source: CorruptJobRow::Cron("bad".to_owned()),
    };
    assert_eq!(
        e.to_string(),
        "corrupt job row JobId(01234567-89ab-cdef-0123-456789abcdef): unparseable cron: bad"
    );
    let e = SchedulerError::CorruptJob {
        job_id: JobId(0),
        source: CorruptJobRow::from(LeaseDurationError::CalendarComponent {
            months: -12,
            days: 305,
        }),
    };
    assert_eq!(
        e.to_string(),
        "corrupt job row JobId(00000000-0000-0000-0000-000000000000): lease interval has \
         calendar components (months=-12, days=305); only microseconds are valid"
    );
}

#[test]
fn calendar_components_are_shown_in_decimal() {
    let shown = [
        (i32::MIN, i32::MAX, "months=-2147483648, days=2147483647"),
        (0, -1, "months=0, days=-1"),
        (10, 9, "months=10, days=9"),
        (-100, 87_654, "months=-100, days=87654"),
    ];
    for (months, days, text) in shown {
        let error = LeaseDurationError::CalendarComponent { months, days };
        assert!(CorruptJobRow::from(error).to_string().contains(text));
    }
}

#[test]
fn duplicate_name_message() {
    let duplicate = DuplicateJobName(JobName::try_from("x").unwrap());
    assert_eq!(
        RegisterError::from(duplicate).to_string(),
        "a handler is already registered for job name x"
    );
}
