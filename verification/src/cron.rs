//! Cron expressions.
use vstd::prelude::*;
use vstd::string::*;

use crate::error::{CorruptJobRow, SchedulerError};
use crate::ids::JobId;
use crate::text;
use crate::text::Text;
use crate::time;
use crate::time::Timestamp;

verus! {

/// Why the cron grammar rejects `source`, or `None` where it accepts it.
pub uninterp spec fn cron_rejection(source: Seq<char>) -> Option<Seq<char>>;

/// The next occurrence of the accepted expression `source` after the instant of
/// `after` microseconds, or why the search found none.
pub uninterp spec fn cron_next(source: Seq<char>, after: i64) -> Result<i64, Seq<char>>;

/// Wraps `croner::Cron::parse`. Whether an expression is accepted, and the text of
/// the rejection, are a function of the expression; the grammar is not stated.
#[verifier::external_body]
fn parse_pattern(source: &str) -> (res: Result<(), String>)
    ensures
        match res {
            Ok(()) => cron_rejection(source@) is None,
            Err(m) => cron_rejection(source@) == Some(m@),
        },
{
    match croner::Cron::new(source).parse() {
        Ok(_) => Ok(()),
        Err(e) => Err(e.to_string()),
    }
}

/// Wraps `croner::Cron::find_next_occurrence`, not inclusive, in UTC. What it
/// finds is a function of the expression and the instant; it is a whole minute, as
/// an expression has no field for seconds, and later than the instant. Which minute
/// it is goes by the calendar and is not stated. Outside the range that `requires`
/// admits, the search panics for some expressions: it steps from the first day of the
/// calendar to the day before, or from a day of the last month past the last day.
#[verifier::external_body]
fn search_next(source: &str, after: i64) -> (res: Result<i64, String>)
    requires
        cron_rejection(source@) is None,
        time::searchable(after),
    ensures
        match res {
            Ok(next) => cron_next(source@, after) == Ok::<i64, Seq<char>>(next) && is_slot(
                next,
                after,
            ),
            Err(m) => cron_next(source@, after) == Err::<i64, Seq<char>>(m@),
        },
{
    let schedule = croner::Cron::new(source).parse().map_err(|e| e.to_string())?;
    let after = chrono::DateTime::<chrono::Utc>::from_timestamp_micros(after)
        .ok_or_else(|| croner::errors::CronError::InvalidTime.to_string())?;
    match schedule.find_next_occurrence(&after, false) {
        Ok(next) => Ok(next.timestamp_micros()),
        Err(e) => Err(e.to_string()),
    }
}

/// Whether the instant of `next` microseconds can be a slot after that of `after`: it
/// is later, and a whole minute.
pub open spec fn is_slot(next: i64, after: i64) -> bool {
    next > after && next % time::MICROS_PER_MINUTE == 0
}

/// The next slot of `source` after `now`: where the grammar accepts `source`, and
/// the search finds a later minute.
pub open spec fn next_slot(source: Seq<char>, now: Timestamp) -> Option<Timestamp> {
    match (cron_rejection(source), cron_next(source, now.micros)) {
        (None, Ok(next)) => if is_slot(next, now.micros) {
            Some(Timestamp { micros: next })
        } else {
            None
        },
        _ => None,
    }
}

/// The text shown for an expression that the grammar rejects with `reason`.
pub open spec fn rejection_text(source: Seq<char>, reason: Seq<char>) -> Seq<char> {
    text::debug_of(source) + ": "@ + reason
}

/// The error for an expression that is shown as `quoted` and rejected for `reason`.
pub fn rejected(quoted: String, reason: &str) -> (res: SchedulerError)
    ensures
        res is Cron,
        res->Cron_0@ == quoted@ + ": "@ + reason@,
{
    SchedulerError::Cron(quoted.concat(": ").concat(reason))
}

/// What the error `e` of an expression is for the row of job `id` that stores it: a
/// rejected expression makes the row corrupt.
pub fn stored_error(id: JobId, e: SchedulerError) -> (res: SchedulerError)
    ensures
        res == match e {
            SchedulerError::Cron(m) => SchedulerError::CorruptJob {
                job_id: id,
                source: CorruptJobRow::Cron(m),
            },
            _ => e,
        },
{
    match e {
        SchedulerError::Cron(m) => SchedulerError::CorruptJob {
            job_id: id,
            source: CorruptJobRow::Cron(m),
        },
        e => e,
    }
}

/// The slot that a search found, or the error of one that found none.
pub fn slot(found: Result<i64, String>) -> (res: Result<Timestamp, SchedulerError>)
    ensures
        res == match found {
            Ok(next) => Ok::<Timestamp, SchedulerError>(Timestamp { micros: next }),
            Err(m) => Err(SchedulerError::Cron(m)),
        },
{
    match found {
        Ok(next) => Ok(Timestamp { micros: next }),
        Err(m) => Err(SchedulerError::Cron(m)),
    }
}

/// A cron expression that the grammar accepts.
#[derive(Debug, PartialEq, Eq)]
pub struct CronExpression {
    source: String,
}

impl View for CronExpression {
    type V = Seq<char>;

    closed spec fn view(&self) -> Seq<char> {
        self.source@
    }
}

impl CronExpression {
    #[verifier::type_invariant]
    spec fn inv(self) -> bool {
        cron_rejection(self.source@) is None
    }

    /// The expression `source`, where the grammar accepts it.
    pub fn parse(source: impl Text) -> (res: Result<Self, SchedulerError>)
        ensures
            match cron_rejection(source.text()) {
                None => res is Ok && res->Ok_0@ == source.text(),
                Some(reason) => res is Err && res->Err_0 is Cron && res->Err_0->Cron_0@
                    == rejection_text(source.text(), reason),
            },
    {
        let source = source.into_text();
        match parse_pattern(source.as_str()) {
            Ok(()) => Ok(CronExpression { source }),
            Err(reason) => Err(rejected(text::debug_text(source.as_str()), reason.as_str())),
        }
    }

    /// The expression that the row of job `id` stores. One that the grammar
    /// rejects makes the row corrupt.
    pub fn parse_stored(id: JobId, source: &str) -> (res: Result<Self, SchedulerError>)
        ensures
            match cron_rejection(source@) {
                None => res is Ok && res->Ok_0@ == source@,
                Some(reason) => res matches Err(SchedulerError::CorruptJob {
                    job_id,
                    source: CorruptJobRow::Cron(m),
                }) && job_id == id && m@ == rejection_text(source@, reason),
            },
    {
        match CronExpression::parse(source) {
            Ok(cron) => Ok(cron),
            Err(e) => Err(stored_error(id, e)),
        }
    }

    pub fn as_str(&self) -> (res: &str)
        ensures
            res@ == self@,
            cron_rejection(self@) is None,
    {
        proof {
            use_type_invariant(self);
        }
        self.source.as_str()
    }

    /// The next occurrence, strictly after `after`. Occurrences are whole minutes.
    pub fn next_after(&self, after: Timestamp) -> (res: Result<Timestamp, SchedulerError>)
        requires
            time::searchable(after.micros),
        ensures
            match cron_next(self@, after.micros) {
                Ok(next) => res == Ok::<Timestamp, SchedulerError>(Timestamp { micros: next }),
                Err(m) => res is Err && res->Err_0 is Cron && res->Err_0->Cron_0@ == m,
            },
            res is Ok ==> is_slot(res->Ok_0.micros, after.micros),
    {
        proof {
            use_type_invariant(self);
        }
        slot(search_next(self.source.as_str(), after.micros))
    }
}

impl Clone for CronExpression {
    fn clone(&self) -> (res: Self)
        ensures
            res == *self,
    {
        proof {
            use_type_invariant(self);
        }
        CronExpression { source: self.source.clone() }
    }
}

} // verus!
