//! Ending and renewing a claimed run. Each request carries the fencing token of
//! the claim; one that does not hold the lease changes nothing.
use vstd::prelude::*;

use crate::error::{DatabaseError, SchedulerError};
use crate::ids::{LeaseToken, RunId};
use crate::models::{
    FailureOutcome, FinalizeOutcome, Outcome, RenewalOutcome, SchedulerRun, StoredAttemptOutcome,
    StoredRunState,
};
use crate::tables;
use crate::tables::{Tables, TablesView};
use crate::time;
use crate::time::{DbClock, Timestamp};

verus! {

/// Whether `r` runs under `token`, with a lease that outlasts `wall`.
pub open spec fn holds_lease(r: SchedulerRun, token: LeaseToken, wall: Timestamp) -> bool {
    &&& r.state is Running
    &&& r.lease_token == Some(token)
    &&& r.lease_expires_at is Some
    &&& r.lease_expires_at->0.micros > wall.micros
}

/// Whether `token` holds the lease of run `id` at `wall`.
pub open spec fn held(v: TablesView, id: RunId, token: LeaseToken, wall: Timestamp) -> bool {
    v.has_run(id) && holds_lease(v.run(id)->0, token, wall)
}

/// Whether run `id` has ended.
pub open spec fn is_over(v: TablesView, id: RunId) -> bool {
    v.has_run(id) && v.run(id)->0.state.terminal()
}

/// `r` without its lease, in `state`.
pub open spec fn released(
    r: SchedulerRun,
    state: StoredRunState,
    finished_at: Option<Timestamp>,
    last_error: Option<String>,
    wall: Timestamp,
) -> SchedulerRun {
    SchedulerRun {
        state,
        worker_id: None,
        lease_token: None,
        lease_expires_at: None,
        started_at: None,
        finished_at,
        last_error,
        updated_at: wall,
        ..r
    }
}

/// The state in which `outcome` leaves a run.
pub open spec fn run_state_for(outcome: Outcome) -> StoredRunState {
    match outcome {
        Outcome::Completed => StoredRunState::Completed,
        Outcome::Failed(_) => StoredRunState::Failed,
    }
}

/// The end that `outcome` records for the attempt.
pub open spec fn attempt_outcome_for(outcome: Outcome) -> StoredAttemptOutcome {
    match outcome {
        Outcome::Completed => StoredAttemptOutcome::Completed,
        Outcome::Failed(_) => StoredAttemptOutcome::Failed,
    }
}

/// The error that `outcome` records.
pub open spec fn error_for(outcome: Outcome) -> Option<String> {
    match outcome {
        Outcome::Completed => None,
        Outcome::Failed(error) => Some(error),
    }
}

/// `v` once run `id` has ended under `token` with `outcome`.
pub open spec fn finalized(
    v: TablesView,
    wall: Timestamp,
    id: RunId,
    token: LeaseToken,
    outcome: Outcome,
) -> TablesView {
    TablesView {
        attempts: tables::close_live(
            v.attempts,
            token,
            attempt_outcome_for(outcome),
            error_for(outcome),
            wall,
        ),
        ..v.with_run(
            released(
                v.run(id)->0,
                run_state_for(outcome),
                Some(wall),
                error_for(outcome),
                wall,
            ),
        )
    }
}

/// What [`finalize_run`] does to `v`, and what it returns.
pub open spec fn finalize_effect(
    v: TablesView,
    wall: Timestamp,
    id: RunId,
    token: LeaseToken,
    outcome: Outcome,
) -> (TablesView, Result<FinalizeOutcome, SchedulerError>) {
    if !held(v, id, token, wall) {
        (
            v,
            Ok(
                if is_over(v, id) {
                    FinalizeOutcome::AlreadyTerminal
                } else {
                    FinalizeOutcome::Fenced
                },
            ),
        )
    } else if tables::live_count(v.attempts, token) != 1 {
        (v, Err(SchedulerError::Invariant("finalized task did not have one live attempt")))
    } else {
        (finalized(v, wall, id, token, outcome), Ok(FinalizeOutcome::Applied))
    }
}

/// Whether a failure leaves `r` to another attempt.
pub open spec fn retries(r: SchedulerRun, retryable: bool) -> bool {
    retryable && r.attempt_count < r.max_attempts
}

/// `r` waiting for its next attempt from `available_at` on.
pub open spec fn requeued(
    r: SchedulerRun,
    available_at: Timestamp,
    wall: Timestamp,
) -> SchedulerRun {
    SchedulerRun {
        available_at,
        ..released(r, StoredRunState::Pending, None, None, wall)
    }
}

/// What a failure with `error` makes of `r`, or `None` where the end of the
/// backoff cannot be represented.
pub open spec fn failed_row(
    r: SchedulerRun,
    error: String,
    retryable: bool,
    wall: Timestamp,
) -> Option<SchedulerRun> {
    if retries(r, retryable) {
        match time::instant_after(wall, r.retry_backoff) {
            Some(available_at) => Some(requeued(r, available_at, wall)),
            None => None,
        }
    } else {
        Some(released(r, StoredRunState::Failed, Some(wall), Some(error), wall))
    }
}

/// What [`fail_run`] does to `v`, and what it returns.
pub open spec fn fail_effect(
    v: TablesView,
    wall: Timestamp,
    id: RunId,
    token: LeaseToken,
    error: String,
    retryable: bool,
) -> (TablesView, Result<FailureOutcome, SchedulerError>) {
    if !held(v, id, token, wall) {
        (
            v,
            Ok(
                if is_over(v, id) {
                    FailureOutcome::AlreadyTerminal
                } else {
                    FailureOutcome::Fenced
                },
            ),
        )
    } else {
        match failed_row(v.run(id)->0, error, retryable, wall) {
            None => (v, Err(SchedulerError::Database(DatabaseError::OutOfRange))),
            Some(row) => if tables::live_count(v.attempts, token) != 1 {
                (v, Err(SchedulerError::Invariant("failed task did not have one live attempt")))
            } else {
                (
                    TablesView {
                        attempts: tables::close_live(
                            v.attempts,
                            token,
                            StoredAttemptOutcome::Failed,
                            Some(error),
                            wall,
                        ),
                        ..v.with_run(row)
                    },
                    Ok(
                        if retries(v.run(id)->0, retryable) {
                            FailureOutcome::Retried { available_at: row.available_at }
                        } else {
                            FailureOutcome::Failed
                        },
                    ),
                )
            },
        }
    }
}

/// What [`renew_lease`] does to `v`, and what it returns.
pub open spec fn renew_effect(
    v: TablesView,
    wall: Timestamp,
    id: RunId,
    token: LeaseToken,
) -> (TablesView, Result<RenewalOutcome, SchedulerError>) {
    if !held(v, id, token, wall) {
        (v, Ok(RenewalOutcome::Fenced))
    } else {
        let r = v.run(id)->0;
        match time::instant_after(wall, r.lease_duration) {
            None => (v, Err(SchedulerError::Database(DatabaseError::OutOfRange))),
            Some(expires_at) => if tables::live_count(v.attempts, token) != 1 {
                (v, Err(SchedulerError::Invariant("renewed task did not have one live attempt")))
            } else {
                (
                    TablesView {
                        attempts: tables::extend_live(v.attempts, token, expires_at),
                        ..v.with_run(
                            SchedulerRun {
                                lease_expires_at: Some(expires_at),
                                updated_at: wall,
                                ..r
                            },
                        )
                    },
                    Ok(RenewalOutcome::Renewed { lease_expires_at: expires_at }),
                )
            },
        }
    }
}

/// The position of the run `id` where `token` holds its lease at `wall`.
fn find_held(tables: &Tables, wall: Timestamp, id: RunId, token: LeaseToken) -> (res: Option<
    usize,
>)
    ensures
        match res {
            Some(at) => held(tables@, id, token, wall) && at == tables@.run_position(id) && at
                < tables.runs@.len() && tables.runs@[at as int].id == id,
            None => !held(tables@, id, token, wall),
        },
{
    let at: usize = tables.find_run(id);
    if at == tables.runs.len() {
        return None;
    }
    let run = &tables.runs[at];
    let running = match run.state {
        StoredRunState::Running => true,
        _ => false,
    };
    let owned = match run.lease_token {
        Some(stored) => stored == token,
        None => false,
    };
    let live = match run.lease_expires_at {
        Some(expires_at) => expires_at.micros > wall.micros,
        None => false,
    };
    if running && owned && live {
        Some(at)
    } else {
        None
    }
}

/// Whether the run `id` has ended.
fn terminal(tables: &Tables, id: RunId) -> (res: bool)
    ensures
        res == is_over(tables@, id),
{
    let at: usize = tables.find_run(id);
    at < tables.runs.len() && tables.runs[at].state.is_terminal()
}

/// Takes the lease off the run at `at` and leaves it in `state`.
fn release(
    tables: &mut Tables,
    at: usize,
    state: StoredRunState,
    finished_at: Option<Timestamp>,
    last_error: Option<String>,
    wall: Timestamp,
)
    requires
        at < old(tables).runs@.len(),
    ensures
        final(tables)@ == (TablesView {
            runs: old(tables).runs@.update(
                at as int,
                released(old(tables).runs@[at as int], state, finished_at, last_error, wall),
            ),
            ..old(tables)@
        }),
{
    tables.runs[at].state = state;
    tables.runs[at].worker_id = None;
    tables.runs[at].lease_token = None;
    tables.runs[at].lease_expires_at = None;
    tables.runs[at].started_at = None;
    tables.runs[at].finished_at = finished_at;
    tables.runs[at].last_error = last_error;
    tables.runs[at].updated_at = wall;
}

/// Ends the run `run_id` with `outcome`, where `lease_token` holds its lease. The
/// live attempt ends with it; both change or neither does.
pub fn finalize_run(
    tables: &mut Tables,
    clock: &DbClock,
    run_id: RunId,
    lease_token: LeaseToken,
    outcome: Outcome,
) -> (res: Result<FinalizeOutcome, SchedulerError>)
    ensures
        (final(tables)@, res) == finalize_effect(
            old(tables)@,
            clock.wall(),
            run_id,
            lease_token,
            outcome,
        ),
{
    let wall: Timestamp = clock.wall();
    let at: usize = match find_held(tables, wall, run_id, lease_token) {
        Some(at) => at,
        None => {
            return Ok(
                if terminal(tables, run_id) {
                    FinalizeOutcome::AlreadyTerminal
                } else {
                    FinalizeOutcome::Fenced
                },
            );
        },
    };
    if tables.count_live(lease_token) != 1 {
        return Err(SchedulerError::Invariant("finalized task did not have one live attempt"));
    }
    match outcome {
        Outcome::Completed => {
            release(tables, at, StoredRunState::Completed, Some(wall), None, wall);
            tables.close_live(lease_token, StoredAttemptOutcome::Completed, None, wall);
        },
        Outcome::Failed(error) => {
            release(tables, at, StoredRunState::Failed, Some(wall), Some(error.clone()), wall);
            tables.close_live(lease_token, StoredAttemptOutcome::Failed, Some(error), wall);
        },
    }
    Ok(FinalizeOutcome::Applied)
}

/// Fails the run `run_id` with `error`, where `lease_token` holds its lease. A
/// retryable failure with attempts left makes the run pending again after its
/// backoff; any other failure ends it.
pub fn fail_run(
    tables: &mut Tables,
    clock: &DbClock,
    run_id: RunId,
    lease_token: LeaseToken,
    error: String,
    retryable: bool,
) -> (res: Result<FailureOutcome, SchedulerError>)
    ensures
        (final(tables)@, res) == fail_effect(
            old(tables)@,
            clock.wall(),
            run_id,
            lease_token,
            error,
            retryable,
        ),
{
    let wall: Timestamp = clock.wall();
    let at: usize = match find_held(tables, wall, run_id, lease_token) {
        Some(at) => at,
        None => {
            return Ok(
                if terminal(tables, run_id) {
                    FailureOutcome::AlreadyTerminal
                } else {
                    FailureOutcome::Fenced
                },
            );
        },
    };
    let retry = retryable && tables.runs[at].attempt_count < tables.runs[at].max_attempts;
    let available_at: Timestamp = if retry {
        match wall.checked_add(tables.runs[at].retry_backoff) {
            Some(available_at) => available_at,
            None => return Err(SchedulerError::Database(DatabaseError::OutOfRange)),
        }
    } else {
        tables.runs[at].available_at
    };
    if tables.count_live(lease_token) != 1 {
        return Err(SchedulerError::Invariant("failed task did not have one live attempt"));
    }
    let outcome = if retry {
        release(tables, at, StoredRunState::Pending, None, None, wall);
        tables.runs[at].available_at = available_at;
        FailureOutcome::Retried { available_at }
    } else {
        release(tables, at, StoredRunState::Failed, Some(wall), Some(error.clone()), wall);
        FailureOutcome::Failed
    };
    tables.close_live(lease_token, StoredAttemptOutcome::Failed, Some(error), wall);
    Ok(outcome)
}

/// Moves the expiry of run `run_id` to one lease from now, where `lease_token`
/// holds its lease.
pub fn renew_lease(
    tables: &mut Tables,
    clock: &DbClock,
    run_id: RunId,
    lease_token: LeaseToken,
) -> (res: Result<RenewalOutcome, SchedulerError>)
    ensures
        (final(tables)@, res) == renew_effect(old(tables)@, clock.wall(), run_id, lease_token),
{
    let wall: Timestamp = clock.wall();
    let at: usize = match find_held(tables, wall, run_id, lease_token) {
        Some(at) => at,
        None => return Ok(RenewalOutcome::Fenced),
    };
    let expires_at: Timestamp = match wall.checked_add(tables.runs[at].lease_duration) {
        Some(expires_at) => expires_at,
        None => return Err(SchedulerError::Database(DatabaseError::OutOfRange)),
    };
    if tables.count_live(lease_token) != 1 {
        return Err(SchedulerError::Invariant("renewed task did not have one live attempt"));
    }
    tables.runs[at].lease_expires_at = Some(expires_at);
    tables.runs[at].updated_at = wall;
    tables.extend_live(lease_token, expires_at);
    Ok(RenewalOutcome::Renewed { lease_expires_at: expires_at })
}

} // verus!
