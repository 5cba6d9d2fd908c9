//! The small decisions: what is accepted, how spans add up, what is shown of a run, and
//! what a worker does next. What these laws say they say of values and columns.
use vstd::prelude::*;

use crate::admin;
use crate::cron;
use crate::error::{CorruptJobRow, DatabaseError, SchedulerError};
use crate::ids;
use crate::ids::{IdentifierError, JobName};
use crate::metrics;
use crate::models::{
    AttemptRow, AttemptState, ClaimedRun, FailureOutcome, FinalizeOutcome, Lease, RunState,
    SchedulerRun, StoredAttemptOutcome,
};
use crate::policy;
use crate::policy::{LeaseDurationError, RetryBackoffError};
use crate::queue;
use crate::runtime::builder;
use crate::runtime::builder::IntoJobName;
use crate::runtime::dispatch;
use crate::runtime::dispatch::{DispatchEvent, RenewalReply};
use crate::runtime::health;
use crate::runtime::worker;
use crate::runtime::worker::{HandlerEnd, WorkerAction, WorkerEvent, WorkerPhase};
use crate::store::inspect;
use crate::store::materialize;
use crate::store::materialize::Tick;
use crate::store::reap;
use crate::tables;
use crate::text;
use crate::text::Text;
use crate::time;
use crate::time::{Duration, PgInterval, Timestamp};

verus! {

/// An instant moves by the days and microseconds of an interval, a day being
/// twenty-four hours, after the calendar has moved it by the months. It is there exactly
/// where it can be represented.
pub proof fn law_spans_add_up(at: Timestamp, interval: PgInterval)
    ensures
        interval.months == 0 ==> {
            let sum = at.micros + interval.days * 86_400_000_000 + interval.microseconds;
            &&& time::instant_after(at, interval) is Some <==> i64::MIN <= sum <= i64::MAX
            &&& time::instant_after(at, interval) matches Some(then) ==> then.micros == sum
        },
        interval.months > 0 ==> match time::months_after(at.micros, interval.months as u32) {
            None => time::instant_after(at, interval) is None,
            Some(base) => {
                let sum = base + interval.days * 86_400_000_000 + interval.microseconds;
                &&& time::instant_after(at, interval) is Some <==> i64::MIN <= sum <= i64::MAX
                &&& time::instant_after(at, interval) matches Some(then) ==> then.micros == sum
            },
        },
        interval.months < 0 ==> match time::months_before(at.micros, (-interval.months) as u32) {
            None => time::instant_after(at, interval) is None,
            Some(base) => {
                let sum = base + interval.days * 86_400_000_000 + interval.microseconds;
                &&& time::instant_after(at, interval) is Some <==> i64::MIN <= sum <= i64::MAX
                &&& time::instant_after(at, interval) matches Some(then) ==> then.micros == sum
            },
        },
{
}

/// An expression has a next slot exactly where the grammar accepts it and the search
/// finds a later whole minute, and then that is the slot.
pub proof fn law_the_next_slot_is_what_is_found(source: Seq<char>, now: Timestamp, next: i64)
    ensures
        cron::next_slot(source, now) == Some(Timestamp { micros: next })
            <==> cron::cron_rejection(source) is None && cron::cron_next(source, now.micros) == Ok::<
            i64,
            Seq<char>,
        >(next) && next > now.micros && next % 60_000_000 == 0,
{
}

/// A lease is any span of whole microseconds, from one of them to the most that can be
/// counted; a backoff may also be none. The error says what is wrong.
pub proof fn law_spans_are_accepted(d: Duration)
    ensures
        policy::lease_rejection(d) is None <==> d.nanos % 1_000 == 0 && d.nanos > 0 && d.nanos
            / 1_000 <= i64::MAX,
        policy::lease_rejection(d) == Some(LeaseDurationError::PrecisionLoss) <==> d.nanos % 1_000
            != 0,
        policy::lease_rejection(d) == Some(LeaseDurationError::Zero) <==> d.nanos == 0,
        policy::lease_rejection(d) == Some(LeaseDurationError::TooLarge) <==> d.nanos % 1_000 == 0
            && d.nanos / 1_000 > i64::MAX,
        policy::backoff_rejection(d) is None <==> d.nanos % 1_000 == 0 && d.nanos / 1_000
            <= i64::MAX,
        policy::backoff_rejection(d) == Some(RetryBackoffError::PrecisionLoss) <==> d.nanos
            % 1_000 != 0,
{
}

/// A stored interval is a lease exactly where it is a positive number of microseconds
/// and nothing else.
pub proof fn law_stored_leases_are_accepted(iv: PgInterval)
    ensures
        policy::stored_lease_rejection(iv) is None <==> iv.months == 0 && iv.days == 0
            && iv.microseconds > 0,
        iv.months != 0 || iv.days != 0 ==> policy::stored_lease_rejection(iv) == Some(
            LeaseDurationError::CalendarComponent { months: iv.months, days: iv.days },
        ),
        iv.months == 0 && iv.days == 0 && iv.microseconds <= 0 ==> policy::stored_lease_rejection(
            iv,
        ) == Some(LeaseDurationError::Zero),
{
}

/// A name is anything from one to two hundred and fifty-five characters that neither
/// begins nor ends with white space. The error says what is wrong.
pub proof fn law_names_are_accepted(s: Seq<char>)
    ensures
        ids::identifier_rejection(s) is None <==> 1 <= s.len() <= 255 && !text::is_white_space(s[0])
            && !text::is_white_space(s[s.len() - 1]),
        ids::identifier_rejection(s) == Some(IdentifierError::Empty) <==> s.len() == 0,
        ids::identifier_rejection(s) == Some(IdentifierError::SurroundingWhitespace) <==> s.len()
            > 0 && (text::is_white_space(s[0]) || text::is_white_space(s[s.len() - 1])),
{
}

/// A task that asks for nothing may be claimed at once, at normal priority, up to three
/// times, for five minutes each, with a second between, and is not deduplicated.
pub proof fn law_a_task_that_asks_for_nothing()
    ensures
        ({
            let options = queue::default_options();
            &&& options.available_at is None
            &&& options.priority == 0
            &&& options.max_attempts == 3
            &&& options.lease_duration == (PgInterval {
                microseconds: 300_000_000,
                days: 0,
                months: 0,
            })
            &&& options.retry_backoff == (PgInterval { microseconds: 1_000_000, days: 0, months: 0 })
            &&& options.key is None
        }),
{
}

/// A worker that asks for nothing polls each second, recovers every twenty, has
/// twenty-five to shut down, and runs sixteen handlers at once.
pub proof fn law_a_worker_that_asks_for_nothing(worker_id: ids::WorkerId)
    ensures
        ({
            let config = builder::default_config(worker_id);
            &&& config.worker_id == worker_id
            &&& config.poll_interval.nanos == 1_000_000_000
            &&& config.reaper_interval.nanos == 20_000_000_000
            &&& config.shutdown_timeout.nanos == 25_000_000_000
            &&& config.max_concurrency == 16
        }),
{
}

/// The state of a run is read as it is stored, with the facts that go with it. Where one
/// of those is missing, the reading fails.
pub proof fn law_a_state_is_read_as_stored(r: SchedulerRun)
    ensures
        ({
            let read = inspect::state_read(inspect::status_of(r));
            &&& r.state is Pending ==> read == Ok::<RunState, SchedulerError>(RunState::Pending)
            &&& r.state is Running ==> (read is Ok <==> r.worker_id is Some && r.lease_token is Some
                && r.lease_expires_at is Some && r.started_at is Some)
            &&& r.state is Running && read is Ok ==> read->Ok_0 == RunState::Running(
                Lease {
                    worker_id: r.worker_id->0,
                    lease_token: r.lease_token->0,
                    lease_expires_at: r.lease_expires_at->0,
                    started_at: r.started_at->0,
                },
            )
            &&& r.state is Completed ==> (read is Ok <==> r.finished_at is Some)
            &&& r.state is Completed && read is Ok ==> read->Ok_0 == (RunState::Completed {
                finished_at: r.finished_at->0,
            })
            &&& r.state is Failed ==> (read is Ok <==> r.finished_at is Some && r.last_error
                is Some)
            &&& r.state is Failed && read is Ok ==> read->Ok_0 == (RunState::Failed {
                finished_at: r.finished_at->0,
                error: r.last_error->0,
            })
            &&& r.state is Cancelled ==> (read is Ok <==> r.finished_at is Some)
            &&& r.state is Cancelled && read is Ok ==> read->Ok_0 == (RunState::Cancelled {
                finished_at: r.finished_at->0,
            })
            &&& read is Err ==> read->Err_0 is Invariant
        }),
{
}

/// An attempt is read as it is stored: its number, worker and instants, and how it
/// stands.
pub proof fn law_an_attempt_is_read_as_stored(a: AttemptRow)
    requires
        a.attempt_number > 0,
    ensures
        ({
            let entry = inspect::history_entry(a);
            &&& entry.attempt == a.attempt_number
            &&& entry.worker_id == a.worker_id
            &&& entry.started_at == a.started_at
            &&& entry.lease_expires_at == a.lease_expires_at
            &&& entry.finished_at == a.finished_at
            &&& entry.state is Running <==> a.outcome is None
            &&& entry.state is Completed <==> a.outcome == Some(StoredAttemptOutcome::Completed)
            &&& entry.state is Cancelled <==> a.outcome == Some(StoredAttemptOutcome::Cancelled)
            &&& entry.state == (AttemptState::Failed { error: a.error }) <==> a.outcome == Some(
                StoredAttemptOutcome::Failed,
            )
            &&& entry.state == (AttemptState::Expired { error: a.error }) <==> a.outcome == Some(
                StoredAttemptOutcome::Expired,
            )
        }),
{
}

/// A heartbeat waits for a third of the lease, to the nanosecond.
pub proof fn law_a_heartbeat_waits_a_third(lease: nat)
    requires
        lease >= 3,
    ensures
        3 * dispatch::heartbeat_nanos(lease) <= lease < 3 * dispatch::heartbeat_nanos(lease) + 3,
{
}

/// A running handler that ends has its end recorded, and one whose heartbeat comes asks
/// for a renewal. What comes back decides: a renewal that comes before its own deadline
/// lets the handler go on until then; a failure to ask lets it go on as long as its
/// lease was known to last; a refusal, or a deadline that is over, cancels it.
pub proof fn law_a_handler_goes_on_while_its_lease_lasts(
    state: dispatch::DispatchLoop,
    host_now: Timestamp,
    until: Timestamp,
    error: SchedulerError,
)
    ensures
        state.phase is Running ==> {
            let ended = dispatch::dispatch_step(state, DispatchEvent::HandlerFinished);
            let due = dispatch::dispatch_step(state, DispatchEvent::HeartbeatDue);
            &&& ended.1 is Record
            &&& ended.0.phase is Ended
            &&& due.1 is Renew
            &&& due.0.phase is Renewing
            &&& due.0.lease_expires_at == state.lease_expires_at
            &&& due.0.heartbeat == state.heartbeat
        },
        state.phase is Renewing ==> {
            let renewed = dispatch::dispatch_step(
                state,
                DispatchEvent::RenewalReturned {
                    reply: RenewalReply::Renewed { lease_expires_at: until },
                    host_now,
                },
            );
            let failed = dispatch::dispatch_step(
                state,
                DispatchEvent::RenewalReturned {
                    reply: RenewalReply::Unavailable(error),
                    host_now,
                },
            );
            let fenced = dispatch::dispatch_step(
                state,
                DispatchEvent::RenewalReturned { reply: RenewalReply::Fenced, host_now },
            );
            &&& host_now.micros < until.micros ==> renewed.1 is Wait && renewed.0.phase is Running
                && renewed.0.lease_expires_at == until && renewed.0.heartbeat == state.heartbeat
            &&& host_now.micros >= until.micros ==> renewed.1 is Cancel && renewed.0.phase is Lost
            &&& host_now.micros < state.lease_expires_at.micros ==> failed.1 is Wait
                && failed.0.phase is Running && failed.0.lease_expires_at == state.lease_expires_at
                && failed.0.heartbeat == state.heartbeat
            &&& host_now.micros >= state.lease_expires_at.micros ==> failed.1 is Cancel
                && failed.0.phase is Lost
            &&& fenced.1 is Cancel
            &&& fenced.0.phase is Lost
        },
{
}

/// A worker that waits turns due jobs into runs when a poll is due, recovers leases when
/// that is due, and claims when a handler has ended. Once either of the first two is
/// done it claims; where it failed, it reports that and waits. After a claim it reports
/// and waits.
pub proof fn law_a_cycle_ends_with_a_claim(phase: WorkerPhase, error: SchedulerError)
    ensures
        worker::transition(WorkerPhase::Waiting, WorkerEvent::PollDue) == (
            WorkerPhase::Materializing,
            WorkerAction::Materialize,
        ),
        worker::transition(WorkerPhase::Waiting, WorkerEvent::RecoveryDue) == (
            WorkerPhase::Recovering,
            WorkerAction::Recover,
        ),
        worker::transition(WorkerPhase::Waiting, WorkerEvent::HandlerJoined) == (
            WorkerPhase::Claiming,
            WorkerAction::Claim,
        ),
        phase is Materializing || phase is Recovering ==> worker::transition(
            phase,
            WorkerEvent::Finished(Ok(())),
        ) == (WorkerPhase::Claiming, WorkerAction::Claim) && worker::transition(
            phase,
            WorkerEvent::Finished(Err(error)),
        ) == (WorkerPhase::Waiting, WorkerAction::Report),
        worker::transition(WorkerPhase::Claiming, WorkerEvent::Finished(Ok(()))) == (
            WorkerPhase::Waiting,
            WorkerAction::Report,
        ),
        worker::transition(WorkerPhase::Claiming, WorkerEvent::Finished(Err(error))) == (
            WorkerPhase::Waiting,
            WorkerAction::Report,
        ),
{
}

/// A worker starts claimed runs in the order in which they were handed out, up to the
/// first for which it has no permit or no handler, and only those. Where it has permits
/// and handlers for all, it starts all, and there is no error.
pub proof fn law_claimed_runs_are_started<H>(
    claimed: Seq<ClaimedRun>,
    permits: nat,
    handlers: Map<Seq<char>, H>,
    plan: worker::DispatchPlan,
    j: int,
)
    requires
        worker::plans(claimed, permits, handlers, plan),
    ensures
        plan.started@.len() <= permits,
        plan.started@.len() <= claimed.len(),
        0 <= j < plan.started@.len() ==> plan.started@[j] == claimed[j]
            && handlers.dom().contains(claimed[j].job_name@),
        plan.error is None <==> plan.started@.len() == claimed.len(),
        plan.started@.len() < claimed.len() ==> plan.started@.len() == permits
            || !handlers.dom().contains(claimed[plan.started@.len() as int].job_name@),
{
    let unknown = |c: ClaimedRun| !handlers.dom().contains(c.job_name@);
    tables::lemma_first_position(claimed, unknown);
    if 0 <= j < plan.started@.len() {
        assert(!unknown(claimed[j]));
    }
}

/// A counter goes up by as much as there is to count, and not at all where there is
/// nothing.
pub proof fn law_counters_go_up_by_what_is_counted(name: &'static str, count: usize)
    ensures
        count == 0 ==> worker::update_for(name, count) is None,
        count > 0 ==> worker::update_for(name, count) is Some && worker::update_for(
            name,
            count,
        )->0.name == name && worker::update_for(name, count)->0.amount == count,
{
}

/// The end of a handler counts under what became of it: completed, failed for good, or
/// waiting again. One that was fenced counts for nothing, and an error is passed on.
pub proof fn law_ends_are_counted(available_at: Timestamp, error: SchedulerError)
    ensures
        ({
            let completed = worker::completion_end(Ok(FinalizeOutcome::Applied));
            let failed = worker::failure_end(Ok(FailureOutcome::Failed));
            let retried = worker::failure_end(Ok(FailureOutcome::Retried { available_at }));
            &&& completed matches HandlerEnd::Recorded(update) && update.name
                == metrics::RUNS_COMPLETED && update.amount == 1
            &&& failed matches HandlerEnd::Recorded(update) && update.name == metrics::RUNS_FAILED
                && update.amount == 1
            &&& retried matches HandlerEnd::Recorded(update) && update.name
                == metrics::RUNS_REQUEUED && update.amount == 1
            &&& worker::completion_end(Ok(FinalizeOutcome::Fenced)) is Fenced
            &&& worker::completion_end(Ok(FinalizeOutcome::AlreadyTerminal)) is Fenced
            &&& worker::failure_end(Ok(FailureOutcome::Fenced)) is Fenced
            &&& worker::failure_end(Ok(FailureOutcome::AlreadyTerminal)) is Fenced
            &&& worker::completion_end(Err(error)) == HandlerEnd::Lost(error)
            &&& worker::failure_end(Err(error)) == HandlerEnd::Lost(error)
        }),
{
}

/// Failed cycles are counted one by one, up to the most that can be counted.
pub proof fn law_failures_are_counted(failures: u64)
    ensures
        failures < u64::MAX ==> health::one_more(failures) == failures + 1,
        failures == u64::MAX ==> health::one_more(failures) == u64::MAX,
{
}

/// The state of a task is shown under its name, with the worker of one that runs, the
/// end of one that has ended, and the error of one that has failed.
pub proof fn law_a_state_is_shown_as_it_is(state: RunState, view: admin::TaskStateView)
    requires
        admin::shows(state, view),
    ensures
        state is Pending ==> view.state@ == "pending"@,
        state is Running ==> view.state@ == "running"@,
        state is Completed ==> view.state@ == "completed"@,
        state is Failed ==> view.state@ == "failed"@,
        state is Cancelled ==> view.state@ == "cancelled"@,
        state matches RunState::Running(lease) ==> view.worker_id is Some && view.worker_id->0@
            == lease.worker_id@,
        !(state is Running) ==> view.worker_id is None,
        state matches RunState::Completed { finished_at } ==> view.finished_at == Some(finished_at),
        state matches RunState::Cancelled { finished_at } ==> view.finished_at == Some(finished_at),
        state matches RunState::Failed { finished_at, error } ==> view.finished_at == Some(
            finished_at,
        ) && view.error == Some(error),
        state is Pending || state is Running ==> view.finished_at is None,
        !(state is Failed) ==> view.error is None,
{
}

/// A batch goes on after each job it has handled, up to a hundred, and ends when nothing
/// is due, or with the error of a step. It returns how many it has handled.
pub proof fn law_a_batch_goes_on_to_a_hundred(done: usize, error: SchedulerError)
    requires
        done < 100,
    ensures
        materialize::batch_step(done, Ok(Tick::Idle)).1 == Some(
            Ok::<usize, SchedulerError>(done),
        ),
        materialize::batch_step(done, Err(error)).1 == Some(Err::<usize, SchedulerError>(error)),
        done < 99 ==> materialize::batch_step(done, Ok(Tick::Processed)).0 == done + 1
            && materialize::batch_step(done, Ok(Tick::Processed)).1 is None,
        done == 99 ==> materialize::batch_step(done, Ok(Tick::Processed)).1 == Some(
            Ok::<usize, SchedulerError>(100),
        ),
{
}

/// One recovery takes up to a thousand runs.
pub proof fn law_a_recovery_takes_up_to_a_thousand()
    ensures
        worker::RECOVERY_LIMIT == 1_000,
        reap::REAP_LIMIT == 1_000,
{
}

/// A handler is registered under the name as it is given, which is held to the policy of
/// names unless it is a name already.
pub proof fn law_names_are_taken_as_given(borrowed: &str, owned: String, name: JobName)
    ensures
        borrowed.rejection() == ids::identifier_rejection(borrowed@),
        IntoJobName::text(&borrowed) == borrowed@,
        owned.rejection() == ids::identifier_rejection(owned@),
        IntoJobName::text(&owned) == owned@,
        name.rejection() is None,
        IntoJobName::text(&name) == name@,
{
}

/// A text is handed over as it is.
pub proof fn law_texts_are_handed_over_as_they_are(borrowed: &str, owned: String)
    ensures
        Text::text(&borrowed) == borrowed@,
        Text::text(&owned) == owned@,
{
}

/// The answers of the administration routes have the numbers of their protocol.
pub proof fn law_answers_have_their_numbers()
    ensures
        admin::Status::NoContent.code_spec() == 204,
        admin::Status::NotFound.code_spec() == 404,
        admin::Status::InternalServerError.code_spec() == 500,
        admin::Status::ServiceUnavailable.code_spec() == 503,
{
}

/// An error that carries a text shows it, behind what kind of error it is.
pub proof fn law_errors_show_what_they_carry(m: String, e: DatabaseError, i: IdentifierError)
    ensures
        SchedulerError::Database(e).message() == "database error: "@ + e.message(),
        DatabaseError::Other(m).message() == m@,
        SchedulerError::Pool(m).message() == "connection pool error: "@ + m@,
        SchedulerError::Cron(m).message() == "cron parse error: "@ + m@,
        SchedulerError::Config(m).message() == "configuration error: "@ + m@,
        SchedulerError::Serde(m).message() == "serialization error: "@ + m@,
        SchedulerError::Identifier(i).message() == "invalid identifier: "@ + i.message(),
        CorruptJobRow::Cron(m).message() == "unparseable cron: "@ + m@,
{
}

/// The number that a sequence of decimal digits stands for.
pub open spec fn value_of(digits: Seq<char>) -> int
    decreases digits.len(),
{
    if digits.len() == 0 {
        0
    } else {
        10 * value_of(digits.drop_last()) + (digits.last() as int - '0' as int)
    }
}

/// A number that is written in decimal is read back as it was, from digits alone and
/// without a leading zero; a negative one has a sign in front.
pub proof fn law_numbers_are_read_back(n: int)
    ensures
        n >= 0 ==> value_of(text::decimal(n)) == n && text::decimal(n).len() > 0 && (n > 0
            ==> text::decimal(n)[0] != '0') && forall|k: int|
            0 <= k < text::decimal(n).len() ==> '0' <= #[trigger] text::decimal(n)[k] <= '9',
        n < 0 ==> text::decimal(n) == seq!['-'] + text::decimal(-n),
    decreases (if n < 0 { 1 - n } else { n }),
{
    if n >= 10 {
        law_numbers_are_read_back(n / 10);
        let digits = text::decimal(n);
        assert(digits.drop_last() =~= text::decimal(n / 10));
        assert(digits.last() == text::hex_digit(n % 10));
        assert(digits[0] == text::decimal(n / 10)[0]);
        assert forall|k: int| 0 <= k < digits.len() implies '0' <= #[trigger] digits[k] <= '9' by {
            if k < digits.len() - 1 {
                assert(digits[k] == text::decimal(n / 10)[k]);
            }
        }
    } else if n >= 0 {
        let digits = text::decimal(n);
        assert(digits.drop_last() =~= seq![]);
        assert(value_of(digits.drop_last()) == 0);
    }
}

} // verus!
