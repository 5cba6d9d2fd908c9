//! Instants, durations and database intervals as plain integers.
//!
//! An instant counts microseconds since the Unix epoch in UTC, which is the
//! resolution the database keeps. An interval has the three components of a
//! database interval: calendar months, days of twenty-four hours, and
//! microseconds.
use vstd::prelude::*;

verus! {

/// Microseconds in one day of an interval.
pub const MICROS_PER_DAY: i64 = 86_400_000_000;

/// Microseconds in one minute.
pub const MICROS_PER_MINUTE: i64 = 60_000_000;

/// The earliest instant, in microseconds, from which a schedule is searched. One
/// second later the second day of the calendar begins, so that there is a day before
/// each day that a search looks at.
pub const FIRST_SEARCHABLE: i64 = -8_334_601_142_401_000_000;

/// The latest instant, in microseconds, from which a schedule is searched. Just over
/// one second later the last month of the calendar begins, so that there is a month
/// after each month that a search looks at.
pub const LAST_SEARCHABLE: i64 = 8_210_264_198_398_999_999;

/// An instant in UTC, in microseconds since the Unix epoch.
#[derive(Debug, Clone, Copy, PartialEq, Eq, PartialOrd, Ord, Hash, Structural)]
pub struct Timestamp {
    pub micros: i64,
}

/// A span of time, in nanoseconds.
#[derive(Debug, Clone, Copy, PartialEq, Eq, PartialOrd, Ord, Hash, Structural)]
pub struct Duration {
    pub nanos: u128,
}

impl Duration {
    /// The span of `secs` seconds.
    pub fn from_secs(secs: u64) -> (res: Self)
        ensures
            res.nanos == secs * 1_000_000_000,
    {
        Duration { nanos: secs as u128 * 1_000_000_000 }
    }

    /// The span of `millis` milliseconds.
    pub fn from_millis(millis: u64) -> (res: Self)
        ensures
            res.nanos == millis * 1_000_000,
    {
        Duration { nanos: millis as u128 * 1_000_000 }
    }

    /// The span of `micros` microseconds.
    pub fn from_micros(micros: u64) -> (res: Self)
        ensures
            res.nanos == micros * 1_000,
    {
        Duration { nanos: micros as u128 * 1_000 }
    }

    /// The span of `nanos` nanoseconds.
    pub fn from_nanos(nanos: u64) -> (res: Self)
        ensures
            res.nanos == nanos,
    {
        Duration { nanos: nanos as u128 }
    }

    /// Whole microseconds in this span, rounded down.
    pub fn as_micros(self) -> (res: u128)
        ensures
            res == self.nanos / 1_000,
    {
        self.nanos / 1_000
    }

    /// Nanoseconds beyond the last whole second of this span.
    pub fn subsec_nanos(self) -> (res: u32)
        ensures
            res == self.nanos % 1_000_000_000,
    {
        (self.nanos % 1_000_000_000) as u32
    }

    pub fn is_zero(self) -> (res: bool)
        ensures
            res == (self.nanos == 0),
    {
        self.nanos == 0
    }
}

/// A database interval.
#[derive(Debug, Clone, Copy, PartialEq, Eq, Hash, Structural)]
pub struct PgInterval {
    pub microseconds: i64,
    pub days: i32,
    pub months: i32,
}

impl PgInterval {
    /// The interval of exactly `microseconds`, without calendar components.
    pub fn from_microseconds(microseconds: i64) -> (res: Self)
        ensures
            res == (PgInterval { microseconds, days: 0, months: 0 }),
    {
        PgInterval { microseconds, days: 0, months: 0 }
    }
}

/// What the calendar gives for the instant `months` months after `micros`, or
/// `None` where one of the two instants lies outside the calendar.
pub uninterp spec fn months_after(micros: i64, months: u32) -> Option<i64>;

/// What the calendar gives for the instant `months` months before `micros`, or
/// `None` where one of the two instants lies outside the calendar.
pub uninterp spec fn months_before(micros: i64, months: u32) -> Option<i64>;

/// Wraps `chrono::DateTime::<Utc>::checked_add_months`, between the conversions
/// of an instant from and to microseconds. The result is a function of the two
/// arguments; which instant it is goes by the calendar and is not stated.
#[verifier::external_body]
fn add_months(micros: i64, months: u32) -> (res: Option<i64>)
    ensures
        res == months_after(micros, months),
{
    chrono::DateTime::<chrono::Utc>::from_timestamp_micros(micros)?
        .checked_add_months(chrono::Months::new(months))
        .map(|at| at.timestamp_micros())
}

/// Wraps `chrono::DateTime::<Utc>::checked_sub_months`, between the conversions
/// of an instant from and to microseconds. The result is a function of the two
/// arguments; which instant it is goes by the calendar and is not stated.
#[verifier::external_body]
fn subtract_months(micros: i64, months: u32) -> (res: Option<i64>)
    ensures
        res == months_before(micros, months),
{
    chrono::DateTime::<chrono::Utc>::from_timestamp_micros(micros)?
        .checked_sub_months(chrono::Months::new(months))
        .map(|at| at.timestamp_micros())
}

/// `micros` moved by the calendar months of an interval. No month moves nothing,
/// not even for an instant outside the calendar.
pub open spec fn moved_by_months(micros: i64, months: i32) -> Option<i64> {
    if months == 0 {
        Some(micros)
    } else if months > 0 {
        months_after(micros, months as u32)
    } else {
        months_before(micros, (-months) as u32)
    }
}

/// The instant `interval` after `at`: months first, then days of twenty-four
/// hours, then microseconds. `None` where that instant cannot be represented.
pub open spec fn instant_after(at: Timestamp, interval: PgInterval) -> Option<Timestamp> {
    match moved_by_months(at.micros, interval.months) {
        None => None,
        Some(base) => {
            let sum = base + interval.days * MICROS_PER_DAY + interval.microseconds;
            if i64::MIN <= sum <= i64::MAX {
                Some(Timestamp { micros: sum as i64 })
            } else {
                None
            }
        },
    }
}

impl Timestamp {
    /// The instant `interval` after this one, or `None` where it cannot be
    /// represented.
    pub fn checked_add(self, interval: PgInterval) -> (res: Option<Timestamp>)
        ensures
            res == instant_after(self, interval),
    {
        let base: Option<i64> = if interval.months == 0 {
            Some(self.micros)
        } else if interval.months > 0 {
            add_months(self.micros, interval.months as u32)
        } else {
            subtract_months(self.micros, (-(interval.months as i64)) as u32)
        };
        match base {
            None => None,
            Some(base) => {
                let sum: i128 = base as i128 + interval.days as i128 * MICROS_PER_DAY as i128
                    + interval.microseconds as i128;
                if i64::MIN as i128 <= sum && sum <= i64::MAX as i128 {
                    Some(Timestamp { micros: sum as i64 })
                } else {
                    None
                }
            },
        }
    }
}

/// Whether a schedule can be searched from the instant of `micros`.
pub open spec fn searchable(micros: i64) -> bool {
    FIRST_SEARCHABLE <= micros <= LAST_SEARCHABLE
}

/// One reading of the database clock: the start of the transaction, and the wall
/// clock at the statement. Every decision about time takes its instants from one
/// of these, never from the clock of the host.
#[derive(Debug, Clone, Copy)]
pub struct DbClock {
    now: Timestamp,
    wall: Timestamp,
}

impl DbClock {
    /// The start of the transaction.
    pub closed spec fn now_spec(&self) -> Timestamp {
        self.now
    }

    /// The wall clock of the database.
    pub closed spec fn wall_spec(&self) -> Timestamp {
        self.wall
    }

    /// A reading with transaction start `now` and wall clock `wall`.
    pub fn new(now: Timestamp, wall: Timestamp) -> (res: DbClock)
        ensures
            res.now_spec() == now,
            res.wall_spec() == wall,
    {
        DbClock { now, wall }
    }

    /// Whether schedules can be searched from the start of the transaction.
    pub fn can_search(&self) -> (res: bool)
        ensures
            res == searchable(self.now_spec().micros),
    {
        FIRST_SEARCHABLE <= self.now.micros && self.now.micros <= LAST_SEARCHABLE
    }

    #[verifier::when_used_as_spec(now_spec)]
    pub fn now(&self) -> (res: Timestamp)
        ensures
            res == self.now_spec(),
    {
        self.now
    }

    #[verifier::when_used_as_spec(wall_spec)]
    pub fn wall(&self) -> (res: Timestamp)
        ensures
            res == self.wall_spec(),
    {
        self.wall
    }
}

} // verus!
