//! Holding a lease: who holds it ends, fails and renews the run, whatever else the
//! row says; nobody else does. What these laws say they say of the columns of the
//! rows.
use vstd::prelude::*;

use crate::consistency;
use crate::error::{DatabaseError, JobError, SchedulerError};
use crate::ids::{LeaseToken, RunId, WorkerId};
use crate::laws::granting;
use crate::laws::keeping;
use crate::laws::taking;
use crate::models::{
    AttemptRow, ClaimedRun, FailureOutcome, FinalizeOutcome, Outcome, RenewalOutcome, SchedulerRun,
    StoredAttemptOutcome, StoredRunState,
};
use crate::queue;
use crate::queue::CancelOutcome;
use crate::runtime::worker;
use crate::runtime::worker::HandlerEnd;
use crate::store::claim;
use crate::store::finalize;
use crate::tables;
use crate::tables::TablesView;
use crate::time::{DbClock, Timestamp};

verus! {

/// Where a run is running under `token` and its lease outlasts `wall`, the token holds
/// the lease; and only there.
pub proof fn law_the_token_of_the_row_holds_the_lease(
    v: TablesView,
    wall: Timestamp,
    i: int,
    token: LeaseToken,
)
    requires
        consistency::consistent(v),
        0 <= i < v.runs.len(),
    ensures
        finalize::held(v, v.runs[i].id, token, wall) <==> {
            &&& v.runs[i].state is Running
            &&& v.runs[i].lease_token == Some(token)
            &&& v.runs[i].lease_expires_at->0.micros > wall.micros
        },
{
    consistency::lemma_distinct(v);
    consistency::lemma_position(v, i);
    assert(consistency::run_ok(v.runs[i]));
}

/// Whoever holds the lease of a run ends it: the request is applied, the row has the
/// outcome and no lease, and the live attempt ends with it. Nothing else changes.
pub proof fn law_the_holder_ends_the_run(
    v: TablesView,
    wall: Timestamp,
    i: int,
    token: LeaseToken,
    outcome: Outcome,
)
    requires
        consistency::consistent(v),
        0 <= i < v.runs.len(),
        v.runs[i].state is Running,
        v.runs[i].lease_token == Some(token),
        v.runs[i].lease_expires_at->0.micros > wall.micros,
    ensures
        ({
            let (after, res) = finalize::finalize_effect(v, wall, v.runs[i].id, token, outcome);
            &&& res == Ok::<FinalizeOutcome, SchedulerError>(FinalizeOutcome::Applied)
            &&& after.jobs == v.jobs
            &&& after.runs == v.runs.update(
                i,
                SchedulerRun {
                    state: match outcome {
                        Outcome::Completed => StoredRunState::Completed,
                        Outcome::Failed(_) => StoredRunState::Failed,
                    },
                    worker_id: None,
                    lease_token: None,
                    lease_expires_at: None,
                    started_at: None,
                    finished_at: Some(wall),
                    last_error: match outcome {
                        Outcome::Completed => None,
                        Outcome::Failed(error) => Some(error),
                    },
                    updated_at: wall,
                    ..v.runs[i]
                },
            )
            &&& after.attempts.len() == v.attempts.len()
            &&& forall|k: int|
                0 <= k < v.attempts.len() ==> #[trigger] after.attempts[k] == if v.attempts[k].run_id
                    == v.runs[i].id && v.attempts[k].outcome is None {
                    AttemptRow {
                        finished_at: Some(wall),
                        outcome: Some(
                            match outcome {
                                Outcome::Completed => StoredAttemptOutcome::Completed,
                                Outcome::Failed(_) => StoredAttemptOutcome::Failed,
                            },
                        ),
                        error: match outcome {
                            Outcome::Completed => None,
                            Outcome::Failed(error) => Some(error),
                        },
                        ..v.attempts[k]
                    }
                } else {
                    v.attempts[k]
                }
        }),
{
    consistency::lemma_distinct(v);
    consistency::lemma_position(v, i);
    assert(consistency::run_ok(v.runs[i]));
    lemma_live_attempts(v, i);
}

/// The live attempts under the token of a running run are those of that run.
proof fn lemma_live_attempts(v: TablesView, i: int)
    requires
        consistency::consistent(v),
        0 <= i < v.runs.len(),
        v.runs[i].state is Running,
    ensures
        tables::live_count(v.attempts, v.runs[i].lease_token->0) == 1,
        forall|k: int|
            0 <= k < v.attempts.len() && (#[trigger] v.attempts[k]).outcome is None ==> (
            v.attempts[k].run_id == v.runs[i].id <==> v.attempts[k].lease_token
                == v.runs[i].lease_token->0),
        exists|k: int|
            0 <= k < v.attempts.len() && (#[trigger] v.attempts[k]).run_id == v.runs[i].id
                && v.attempts[k].outcome is None && v.attempts[k].lease_token
                == v.runs[i].lease_token->0,
{
    let live = consistency::lemma_one_live_attempt(v, i);
    consistency::lemma_distinct(v);
    consistency::lemma_position(v, i);
    assert(consistency::run_ok(v.runs[i]));
    assert forall|k: int| 0 <= k < v.attempts.len() && (#[trigger] v.attempts[k]).outcome
        is None implies (v.attempts[k].run_id == v.runs[i].id <==> v.attempts[k].lease_token
        == v.runs[i].lease_token->0) by {
        assert(consistency::attempt_linked(v, k));
        if v.attempts[k].lease_token == v.runs[i].lease_token->0 {
            assert(tables::is_live(v.attempts[k], v.runs[i].lease_token->0));
            assert(k == live);
        }
    }
    assert(v.attempts[live].run_id == v.runs[i].id);
}

/// Whoever holds the lease of a run that fails for good, because the failure is not
/// retryable or no attempt is left, fails it: the row has the error and no lease, and
/// the live attempt ends with it.
pub proof fn law_the_holder_fails_the_run(
    v: TablesView,
    wall: Timestamp,
    i: int,
    token: LeaseToken,
    error: String,
    retryable: bool,
)
    requires
        consistency::consistent(v),
        0 <= i < v.runs.len(),
        v.runs[i].state is Running,
        v.runs[i].lease_token == Some(token),
        v.runs[i].lease_expires_at->0.micros > wall.micros,
        !retryable || v.runs[i].attempt_count >= v.runs[i].max_attempts,
    ensures
        ({
            let (after, res) = finalize::fail_effect(
                v,
                wall,
                v.runs[i].id,
                token,
                error,
                retryable,
            );
            &&& res == Ok::<FailureOutcome, SchedulerError>(FailureOutcome::Failed)
            &&& after.jobs == v.jobs
            &&& after.runs == v.runs.update(
                i,
                SchedulerRun {
                    state: StoredRunState::Failed,
                    worker_id: None,
                    lease_token: None,
                    lease_expires_at: None,
                    started_at: None,
                    finished_at: Some(wall),
                    last_error: Some(error),
                    updated_at: wall,
                    ..v.runs[i]
                },
            )
            &&& after.attempts.len() == v.attempts.len()
            &&& forall|k: int|
                0 <= k < v.attempts.len() ==> #[trigger] after.attempts[k] == if v.attempts[k].run_id
                    == v.runs[i].id && v.attempts[k].outcome is None {
                    AttemptRow {
                        finished_at: Some(wall),
                        outcome: Some(StoredAttemptOutcome::Failed),
                        error: Some(error),
                        ..v.attempts[k]
                    }
                } else {
                    v.attempts[k]
                }
        }),
{
    consistency::lemma_distinct(v);
    consistency::lemma_position(v, i);
    assert(consistency::run_ok(v.runs[i]));
    lemma_live_attempts(v, i);
}

/// A retryable failure with an attempt left makes the run pending again, available
/// when the backoff that it asks for is over, with its attempts as they were counted.
/// The live attempt ends with the error.
pub proof fn law_the_holder_retries_the_run(
    v: TablesView,
    wall: Timestamp,
    i: int,
    token: LeaseToken,
    error: String,
)
    requires
        consistency::consistent(v),
        0 <= i < v.runs.len(),
        v.runs[i].state is Running,
        v.runs[i].lease_token == Some(token),
        v.runs[i].lease_expires_at->0.micros > wall.micros,
        v.runs[i].attempt_count < v.runs[i].max_attempts,
        v.runs[i].retry_backoff.months == 0,
        v.runs[i].retry_backoff.days == 0,
        i64::MIN <= wall.micros + v.runs[i].retry_backoff.microseconds <= i64::MAX,
    ensures
        ({
            let (after, res) = finalize::fail_effect(v, wall, v.runs[i].id, token, error, true);
            let from = Timestamp {
                micros: (wall.micros + v.runs[i].retry_backoff.microseconds) as i64,
            };
            &&& res == Ok::<FailureOutcome, SchedulerError>(
                FailureOutcome::Retried { available_at: from },
            )
            &&& after.jobs == v.jobs
            &&& after.runs == v.runs.update(
                i,
                SchedulerRun {
                    state: StoredRunState::Pending,
                    available_at: from,
                    worker_id: None,
                    lease_token: None,
                    lease_expires_at: None,
                    started_at: None,
                    finished_at: None,
                    last_error: None,
                    updated_at: wall,
                    ..v.runs[i]
                },
            )
            &&& after.attempts.len() == v.attempts.len()
            &&& forall|k: int|
                0 <= k < v.attempts.len() ==> #[trigger] after.attempts[k] == if v.attempts[k].run_id
                    == v.runs[i].id && v.attempts[k].outcome is None {
                    AttemptRow {
                        finished_at: Some(wall),
                        outcome: Some(StoredAttemptOutcome::Failed),
                        error: Some(error),
                        ..v.attempts[k]
                    }
                } else {
                    v.attempts[k]
                }
        }),
{
    consistency::lemma_distinct(v);
    consistency::lemma_position(v, i);
    assert(consistency::run_ok(v.runs[i]));
    lemma_live_attempts(v, i);
}

/// Whoever holds the lease of a run renews it: the lease of the row and of the live
/// attempt ends one span of the lease from now, and nothing else changes but the date
/// of the change.
pub proof fn law_the_holder_renews_the_lease(
    v: TablesView,
    wall: Timestamp,
    i: int,
    token: LeaseToken,
)
    requires
        consistency::consistent(v),
        0 <= i < v.runs.len(),
        v.runs[i].state is Running,
        v.runs[i].lease_token == Some(token),
        v.runs[i].lease_expires_at->0.micros > wall.micros,
        v.runs[i].lease_duration.months == 0,
        v.runs[i].lease_duration.days == 0,
        i64::MIN <= wall.micros + v.runs[i].lease_duration.microseconds <= i64::MAX,
    ensures
        ({
            let (after, res) = finalize::renew_effect(v, wall, v.runs[i].id, token);
            let until = Timestamp {
                micros: (wall.micros + v.runs[i].lease_duration.microseconds) as i64,
            };
            &&& res == Ok::<RenewalOutcome, SchedulerError>(
                RenewalOutcome::Renewed { lease_expires_at: until },
            )
            &&& after.jobs == v.jobs
            &&& after.runs == v.runs.update(
                i,
                SchedulerRun {
                    lease_expires_at: Some(until),
                    updated_at: wall,
                    ..v.runs[i]
                },
            )
            &&& after.attempts.len() == v.attempts.len()
            &&& forall|k: int|
                0 <= k < v.attempts.len() ==> #[trigger] after.attempts[k] == if v.attempts[k].run_id
                    == v.runs[i].id && v.attempts[k].outcome is None {
                    AttemptRow { lease_expires_at: until, ..v.attempts[k] }
                } else {
                    v.attempts[k]
                }
        }),
{
    consistency::lemma_distinct(v);
    consistency::lemma_position(v, i);
    assert(consistency::run_ok(v.runs[i]));
    lemma_live_attempts(v, i);
}

/// Whoever does not hold the lease changes nothing. The answer is that the run is over
/// where it has ended, and that the request is fenced otherwise, also where there is
/// no such run.
pub proof fn law_nobody_else_is_served(
    v: TablesView,
    wall: Timestamp,
    id: RunId,
    token: LeaseToken,
    outcome: Outcome,
    error: String,
    retryable: bool,
)
    requires
        consistency::consistent(v),
        forall|i: int|
            0 <= i < v.runs.len() && (#[trigger] v.runs[i]).id == id ==> !(v.runs[i].state
                is Running) || v.runs[i].lease_token != Some(token)
                || v.runs[i].lease_expires_at->0.micros <= wall.micros,
    ensures
        ({
            let over = exists|i: int|
                0 <= i < v.runs.len() && (#[trigger] v.runs[i]).id == id && (v.runs[i].state
                    is Completed || v.runs[i].state is Failed || v.runs[i].state is Cancelled);
            &&& finalize::finalize_effect(v, wall, id, token, outcome) == (
                v,
                Ok::<FinalizeOutcome, SchedulerError>(
                    if over {
                        FinalizeOutcome::AlreadyTerminal
                    } else {
                        FinalizeOutcome::Fenced
                    },
                ),
            )
            &&& finalize::fail_effect(v, wall, id, token, error, retryable) == (
                v,
                Ok::<FailureOutcome, SchedulerError>(
                    if over {
                        FailureOutcome::AlreadyTerminal
                    } else {
                        FailureOutcome::Fenced
                    },
                ),
            )
            &&& finalize::renew_effect(v, wall, id, token) == (
                v,
                Ok::<RenewalOutcome, SchedulerError>(RenewalOutcome::Fenced),
            )
        }),
{
    consistency::lemma_distinct(v);
    consistency::lemma_found(v, id);
    if v.has_run(id) {
        let p = v.run_position(id);
        assert(v.runs[p].id == id);
        assert forall|i: int| 0 <= i < v.runs.len() && (#[trigger] v.runs[i]).id == id implies i
            == p by {
            if i < p {
                assert(v.runs[i].id != v.runs[p].id);
            } else if p < i {
                assert(v.runs[p].id != v.runs[i].id);
            }
        }
    }
}

/// A retry whose backoff, or a renewal whose lease, ends beyond what can be represented
/// is refused, and changes nothing.
pub proof fn law_out_of_range_changes_nothing(
    v: TablesView,
    wall: Timestamp,
    i: int,
    token: LeaseToken,
    error: String,
)
    requires
        consistency::consistent(v),
        0 <= i < v.runs.len(),
        v.runs[i].state is Running,
        v.runs[i].lease_token == Some(token),
        v.runs[i].lease_expires_at->0.micros > wall.micros,
    ensures
        v.runs[i].retry_backoff.months == 0 && v.runs[i].retry_backoff.days == 0 && wall.micros
            + v.runs[i].retry_backoff.microseconds > i64::MAX && v.runs[i].attempt_count
            < v.runs[i].max_attempts ==> finalize::fail_effect(
            v,
            wall,
            v.runs[i].id,
            token,
            error,
            true,
        ) == (
            v,
            Err::<FailureOutcome, SchedulerError>(
                SchedulerError::Database(DatabaseError::OutOfRange),
            ),
        ),
        v.runs[i].lease_duration.months == 0 && v.runs[i].lease_duration.days == 0 && wall.micros
            + v.runs[i].lease_duration.microseconds > i64::MAX ==> finalize::renew_effect(
            v,
            wall,
            v.runs[i].id,
            token,
        ) == (
            v,
            Err::<RenewalOutcome, SchedulerError>(
                SchedulerError::Database(DatabaseError::OutOfRange),
            ),
        ),
{
    consistency::lemma_distinct(v);
    consistency::lemma_position(v, i);
    assert(consistency::run_ok(v.runs[i]));
}

/// Every run that a claim hands out can be completed, failed and renewed with the token
/// it was handed out with, at any time before the end of the lease it was handed out
/// with.
pub proof fn law_what_is_handed_out_can_be_ended(
    v: TablesView,
    clock: DbClock,
    worker: WorkerId,
    names: Seq<String>,
    limit: nat,
    tokens: Seq<LeaseToken>,
    after: TablesView,
    res: Result<Vec<ClaimedRun>, SchedulerError>,
    j: int,
    later: Timestamp,
    error: String,
)
    requires
        consistency::consistent(v),
        tokens.len() == claim::chosen(v, names, clock.now(), limit).len(),
        forall|a: int, b: int|
            0 <= a < b < tokens.len() ==> #[trigger] tokens[a] != #[trigger] tokens[b],
        forall|a: int, k: int|
            #![trigger tokens[a], v.attempts[k]]
            0 <= a < tokens.len() && 0 <= k < v.attempts.len() ==> v.attempts[k].lease_token
                != tokens[a],
        forall|i: int|
            0 <= i < v.runs.len() && v.runs[i].state is Pending ==> {
                let lease = (#[trigger] v.runs[i]).lease_duration;
                &&& lease.months == 0
                &&& lease.days == 0
                &&& lease.microseconds > 0
                &&& clock.wall().micros + lease.microseconds <= i64::MAX
            },
        claim::settles(v, clock, worker, names, limit, tokens, after, res),
        res is Ok,
        0 <= j < res->Ok_0@.len(),
        later.micros < res->Ok_0@[j].lease_expires_at.micros,
    ensures
        ({
            let id = res->Ok_0@[j].run_id;
            let token = res->Ok_0@[j].lease_token;
            let ended = finalize::finalize_effect(after, later, id, token, Outcome::Completed);
            let failed = finalize::fail_effect(after, later, id, token, error, false);
            &&& ended.1 == Ok::<FinalizeOutcome, SchedulerError>(FinalizeOutcome::Applied)
            &&& exists|i: int|
                0 <= i < ended.0.runs.len() && (#[trigger] ended.0.runs[i]).id == id
                    && ended.0.runs[i].state is Completed && ended.0.runs[i].finished_at == Some(
                    later,
                )
            &&& failed.1 == Ok::<FailureOutcome, SchedulerError>(FailureOutcome::Failed)
            &&& exists|i: int|
                0 <= i < failed.0.runs.len() && (#[trigger] failed.0.runs[i]).id == id
                    && failed.0.runs[i].state is Failed && failed.0.runs[i].last_error == Some(
                    error,
                )
            &&& later.micros + res->Ok_0@[j].lease_duration.micros() <= i64::MAX
                ==> finalize::renew_effect(after, later, id, token).1 == Ok::<
                RenewalOutcome,
                SchedulerError,
            >(
                RenewalOutcome::Renewed {
                    lease_expires_at: Timestamp {
                        micros: (later.micros + res->Ok_0@[j].lease_duration.micros()) as i64,
                    },
                },
            )
        }),
{
    let i = taking::law_what_is_handed_out_is_stored(
        v,
        clock,
        worker,
        names,
        limit,
        tokens,
        after,
        res,
        j,
    );
    let c = res->Ok_0@[j];
    taking::law_a_claim_goes_through(v, clock, worker, names, limit, tokens, after, res);
    granting::law_claim_keeps_consistency(v, clock, worker, names, limit, tokens, after, res);
    law_the_holder_ends_the_run(after, later, i, c.lease_token, Outcome::Completed);
    law_the_holder_fails_the_run(after, later, i, c.lease_token, error, false);
    if later.micros + c.lease_duration.micros() <= i64::MAX {
        law_the_holder_renews_the_lease(after, later, i, c.lease_token);
    }
    let ended = finalize::finalize_effect(
        after,
        later,
        c.run_id,
        c.lease_token,
        Outcome::Completed,
    ).0;
    let failed = finalize::fail_effect(after, later, c.run_id, c.lease_token, error, false).0;
    assert(ended.runs[i].id == c.run_id);
    assert(failed.runs[i].id == c.run_id);
}

/// The end of a handler is recorded as it is: one that ended well completes its run, one
/// that failed ends it with the text of its error, and one that asks for another
/// attempt makes it wait again where one is left.
pub proof fn law_the_end_of_a_handler_is_recorded(
    v: TablesView,
    wall: Timestamp,
    claimed: ClaimedRun,
    result: Result<(), JobError>,
    after: TablesView,
    end: HandlerEnd,
    i: int,
)
    requires
        consistency::consistent(v),
        worker::records(v, wall, claimed, result, after, end),
        0 <= i < v.runs.len(),
        v.runs[i].id == claimed.run_id,
        v.runs[i].state is Running,
        v.runs[i].lease_token == Some(claimed.lease_token),
        v.runs[i].lease_expires_at->0.micros > wall.micros,
        v.runs[i].retry_backoff.months == 0,
        v.runs[i].retry_backoff.days == 0,
        i64::MIN <= wall.micros + v.runs[i].retry_backoff.microseconds <= i64::MAX,
    ensures
        end is Recorded,
        after.runs.len() == v.runs.len(),
        after.runs[i].id == v.runs[i].id,
        after.runs[i].attempt_count == v.runs[i].attempt_count,
        result is Ok ==> after.runs[i].state is Completed && after.runs[i].finished_at == Some(
            wall,
        ),
        result matches Err(e) ==> {
            &&& e.is_retryable() && v.runs[i].attempt_count < v.runs[i].max_attempts
                ==> after.runs[i].state is Pending && after.runs[i].available_at.micros
                == wall.micros + v.runs[i].retry_backoff.microseconds
            &&& !e.is_retryable() || v.runs[i].attempt_count >= v.runs[i].max_attempts
                ==> after.runs[i].state is Failed && after.runs[i].finished_at == Some(wall)
                && after.runs[i].last_error is Some && after.runs[i].last_error->0@ == e.message()
        },
        forall|j: int| 0 <= j < v.runs.len() && j != i ==> #[trigger] after.runs[j] == v.runs[j],
{
    let token = claimed.lease_token;
    match result {
        Ok(()) => {
            law_the_holder_ends_the_run(v, wall, i, token, Outcome::Completed);
        },
        Err(e) => {
            let error = choose|error: String|
                {
                    let effect = #[trigger] finalize::fail_effect(
                        v,
                        wall,
                        claimed.run_id,
                        claimed.lease_token,
                        error,
                        e.is_retryable(),
                    );
                    error@ == e.message() && after == effect.0 && end == worker::failure_end(
                        effect.1,
                    )
                };
            if e.is_retryable() && v.runs[i].attempt_count < v.runs[i].max_attempts {
                law_the_holder_retries_the_run(v, wall, i, token, error);
            } else {
                law_the_holder_fails_the_run(v, wall, i, token, error, e.is_retryable());
            }
        },
    }
}

/// A task that waits or runs is cancelled: the row has its end and no lease, and the
/// live attempt of a running task ends with it. One that has ended, or that is not
/// there, changes nothing, and the answer says which.
pub proof fn law_cancelling_ends_what_has_not_ended(
    v: TablesView,
    wall: Timestamp,
    id: RunId,
    i: int,
)
    requires
        consistency::consistent(v),
    ensures
        (forall|j: int| 0 <= j < v.runs.len() ==> (#[trigger] v.runs[j]).id != id)
            ==> queue::cancel_effect(v, wall, id) == (v, CancelOutcome::NotFound),
        0 <= i < v.runs.len() && v.runs[i].id == id && (v.runs[i].state is Completed
            || v.runs[i].state is Failed || v.runs[i].state is Cancelled) ==> queue::cancel_effect(
            v,
            wall,
            id,
        ) == (v, CancelOutcome::AlreadyTerminal),
        0 <= i < v.runs.len() && v.runs[i].id == id && (v.runs[i].state is Pending
            || v.runs[i].state is Running) ==> {
            let (after, res) = queue::cancel_effect(v, wall, id);
            &&& res == CancelOutcome::Cancelled
            &&& after.jobs == v.jobs
            &&& after.runs == v.runs.update(
                i,
                SchedulerRun {
                    state: StoredRunState::Cancelled,
                    worker_id: None,
                    lease_token: None,
                    lease_expires_at: None,
                    started_at: None,
                    finished_at: Some(wall),
                    last_error: None,
                    updated_at: wall,
                    ..v.runs[i]
                },
            )
            &&& after.attempts.len() == v.attempts.len()
            &&& forall|k: int|
                0 <= k < v.attempts.len() ==> #[trigger] after.attempts[k] == if v.attempts[k].run_id
                    == id && v.attempts[k].outcome is None {
                    AttemptRow {
                        finished_at: Some(wall),
                        outcome: Some(StoredAttemptOutcome::Cancelled),
                        error: None,
                        ..v.attempts[k]
                    }
                } else {
                    v.attempts[k]
                }
        },
{
    consistency::lemma_found(v, id);
    consistency::lemma_distinct(v);
    if 0 <= i < v.runs.len() && v.runs[i].id == id {
        consistency::lemma_position(v, i);
        assert(consistency::run_ok(v.runs[i]));
        let after = queue::cancel_effect(v, wall, id).0;
        if v.runs[i].state is Running {
            lemma_live_attempts(v, i);
            let token = v.runs[i].lease_token->0;
            let k = choose|k: int|
                0 <= k < v.attempts.len() && (#[trigger] v.attempts[k]).run_id == v.runs[i].id
                    && v.attempts[k].outcome is None && v.attempts[k].lease_token == token;
            assert(tables::is_live(v.attempts[k], token));
            assert(queue::has_live_attempt(v, id, token));
        } else if v.runs[i].state is Pending {
            assert forall|k: int| 0 <= k < v.attempts.len() implies !((
            #[trigger] v.attempts[k]).run_id == id && v.attempts[k].outcome is None) by {
                assert(consistency::attempt_linked(v, k));
            }
            assert(after.attempts == v.attempts);
        }
    }
}

/// A run that failed for another attempt is chosen by every claim for its name from the
/// end of its backoff on, or that claim chooses as many runs as were asked for; and by
/// none before.
pub proof fn law_a_retried_run_is_chosen_after_its_backoff(
    v: TablesView,
    wall: Timestamp,
    i: int,
    token: LeaseToken,
    error: String,
    names: Seq<String>,
    n: int,
    later: Timestamp,
    limit: nat,
)
    requires
        consistency::consistent(v),
        0 <= i < v.runs.len(),
        v.runs[i].state is Running,
        v.runs[i].lease_token == Some(token),
        v.runs[i].lease_expires_at->0.micros > wall.micros,
        v.runs[i].attempt_count < v.runs[i].max_attempts,
        v.runs[i].retry_backoff.months == 0,
        v.runs[i].retry_backoff.days == 0,
        i64::MIN <= wall.micros + v.runs[i].retry_backoff.microseconds <= i64::MAX,
        0 <= n < names.len(),
        names[n]@ == v.runs[i].job_name@,
    ensures
        ({
            let after = finalize::fail_effect(v, wall, v.runs[i].id, token, error, true).0;
            let ids = claim::chosen(after, names, later, limit);
            &&& wall.micros + v.runs[i].retry_backoff.microseconds <= later.micros ==> ids.contains(
                v.runs[i].id,
            ) || ids.len() == limit
            &&& wall.micros + v.runs[i].retry_backoff.microseconds > later.micros ==> !ids.contains(
                v.runs[i].id,
            )
        }),
{
    law_the_holder_retries_the_run(v, wall, i, token, error);
    keeping::law_fail_keeps_consistency(v, wall, v.runs[i].id, token, error, true);
    let after = finalize::fail_effect(v, wall, v.runs[i].id, token, error, true).0;
    let ids = claim::chosen(after, names, later, limit);
    if wall.micros + v.runs[i].retry_backoff.microseconds <= later.micros {
        taking::law_every_available_run_is_chosen(after, names, later, limit, i, n);
    } else if ids.contains(v.runs[i].id) {
        let k = choose|k: int| 0 <= k < ids.len() && ids[k] == v.runs[i].id;
        taking::law_only_available_runs_are_chosen(after, names, later, limit, k);
        consistency::lemma_distinct(after);
        let (r, m) = choose|r: int, m: int|
            #![trigger after.runs[r], names[m]]
            {
                &&& 0 <= r < after.runs.len()
                &&& 0 <= m < names.len()
                &&& after.runs[r].id == ids[k]
                &&& after.runs[r].state is Pending
                &&& after.runs[r].available_at.micros <= later.micros
                &&& after.runs[r].job_name@ == names[m]@
            };
        if r < i {
            assert(after.runs[r].id != after.runs[i].id);
        } else if i < r {
            assert(after.runs[i].id != after.runs[r].id);
        }
    }
}

} // verus!
