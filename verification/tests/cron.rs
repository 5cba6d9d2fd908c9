use chrono::TimeZone;
use pg_task_scheduler::cron::{CronExpression, rejected, slot, stored_error};
use pg_task_scheduler::error::{CorruptJobRow, SchedulerError};
use pg_task_scheduler::ids::JobId;
use pg_task_scheduler::time::{FIRST_SEARCHABLE, LAST_SEARCHABLE, MICROS_PER_MINUTE, Timestamp};

fn utc(y: i32, mo: u32, d: u32, h: u32, mi: u32) -> Timestamp {
    let at = chrono::Utc.with_ymd_and_hms(y, mo, d, h, mi, 0).unwrap();
    Timestamp { micros: at.timestamp_micros() }
}

#[test]
fn next_is_strictly_after() {
    let c = CronExpression::parse("17 * * * *").unwrap();
    assert_eq!(
        c.next_after(utc(2026, 1, 1, 10, 17)).unwrap(),
        utc(2026, 1, 1, 11, 17)
    );
}

#[test]
fn rolls_forward_within_hour() {
    let c = CronExpression::parse("17 * * * *").unwrap();
    assert_eq!(
        c.next_after(utc(2026, 1, 1, 10, 0)).unwrap(),
        utc(2026, 1, 1, 10, 17)
    );
}

#[test]
fn daily_midnight() {
    let c = CronExpression::parse("0 0 * * *").unwrap();
    assert_eq!(
        c.next_after(utc(2026, 3, 14, 12, 0)).unwrap(),
        utc(2026, 3, 15, 0, 0)
    );
}

#[test]
fn sunday_0_equals_7() {
    let z = CronExpression::parse("0 0 * * 0").unwrap();
    let s = CronExpression::parse("0 0 * * 7").unwrap();
    let from = utc(2026, 1, 1, 0, 0);
    assert_eq!(z.next_after(from).unwrap(), s.next_after(from).unwrap());
}

#[test]
fn rejects_garbage() {
    assert!(CronExpression::parse("not a cron").is_err());
}

#[test]
fn preserves_source() {
    assert_eq!(
        CronExpression::parse("17 * * * *").unwrap().as_str(),
        "17 * * * *"
    );
}

#[test]
fn rejection_quotes_the_source() {
    match CronExpression::parse("not\ta cron".to_owned()) {
        Err(SchedulerError::Cron(m)) => assert!(m.starts_with("\"not\\ta cron\": "), "{m}"),
        other => panic!("{other:?}"),
    }
}

#[test]
fn stored_rejection_names_the_job() {
    match CronExpression::parse_stored(JobId(9), "not a cron") {
        Err(SchedulerError::CorruptJob { job_id, source: CorruptJobRow::Cron(m) }) => {
            assert_eq!(job_id, JobId(9));
            assert!(m.starts_with("\"not a cron\": "), "{m}");
        }
        other => panic!("{other:?}"),
    }
    let stored = CronExpression::parse_stored(JobId(9), "* * * * *").unwrap();
    assert_eq!(stored.as_str(), "* * * * *");
}

#[test]
fn next_is_later_than_a_fraction_of_a_second() {
    let c = CronExpression::parse("* * * * *").unwrap();
    let at = utc(2026, 1, 1, 10, 17);
    let just_before = Timestamp { micros: at.micros - 1 };
    assert_eq!(c.next_after(just_before).unwrap(), at);
    let just_after = Timestamp { micros: at.micros + 1 };
    assert_eq!(c.next_after(just_after).unwrap(), utc(2026, 1, 1, 10, 18));
}

#[test]
fn occurrences_are_whole_minutes() {
    let from = utc(2026, 1, 30, 10, 17).micros;
    for source in ["* * * * *", "*/7 3 * * *", "0 0 L * *", "30 4 * * 5#2", "@hourly"] {
        let c = CronExpression::parse(source).unwrap();
        for offset in [-1, 0, 1, 59_000_000, 59_999_999] {
            let after = Timestamp { micros: from + offset };
            let next = c.next_after(after).unwrap();
            assert!(next > after);
            assert_eq!(next.micros.rem_euclid(MICROS_PER_MINUTE), 0);
        }
    }
}

#[test]
fn a_search_from_the_edges_of_its_range_ends() {
    for source in ["* * * * *", "* * * * 4#5", "* * * * 4L", "* * L * *", "* * 15W * *", "* * 1W * *"] {
        let c = CronExpression::parse(source).unwrap();
        let next = c.next_after(Timestamp { micros: FIRST_SEARCHABLE }).unwrap();
        assert!(next.micros > FIRST_SEARCHABLE);
        // From there on a search gives up as soon as it has to move on.
        for back in [0, 1, 86_400_000_000, 7 * 86_400_000_000] {
            let after = Timestamp { micros: LAST_SEARCHABLE - back };
            if let Ok(next) = c.next_after(after) {
                assert!(next > after);
            }
        }
    }
}

#[test]
fn impossible_dates_are_reported() {
    let c = CronExpression::parse("0 0 31 2 *").unwrap();
    assert!(matches!(
        c.next_after(utc(2026, 1, 1, 0, 0)),
        Err(SchedulerError::Cron(_))
    ));
}

#[test]
fn outcomes_of_the_search_are_passed_on() {
    assert_eq!(slot(Ok(5)), Ok(Timestamp { micros: 5 }));
    assert_eq!(
        slot(Err("none".to_owned())),
        Err(SchedulerError::Cron("none".to_owned()))
    );
    let e = rejected("\"x\"".to_owned(), "too short");
    assert_eq!(e, SchedulerError::Cron("\"x\": too short".to_owned()));
    assert_eq!(
        stored_error(JobId(3), e),
        SchedulerError::CorruptJob {
            job_id: JobId(3),
            source: CorruptJobRow::Cron("\"x\": too short".to_owned()),
        }
    );
    assert_eq!(
        stored_error(JobId(3), SchedulerError::Invariant("i")),
        SchedulerError::Invariant("i")
    );
}
