//! Fencing: only the token of the current claim can end or renew a run, and a
//! token whose attempt has ended never can again.
use vstd::prelude::*;

use crate::consistency;
use crate::error::SchedulerError;
use crate::ids::{LeaseToken, RunId, WorkerId};
use crate::models::{
    ClaimedRun, FailureOutcome, FinalizeOutcome, Outcome, RenewalOutcome, SchedulerRun,
};
use crate::laws::{granting, keeping, recovery};
use crate::queue;
use crate::queue::CancelOutcome;
use crate::selection;
use crate::store::claim;
use crate::store::finalize;
use crate::store::reap;
use crate::tables;
use crate::tables::TablesView;
use crate::time;
use crate::time::{DbClock, Timestamp};

verus! {

/// A request whose token does not hold the lease changes nothing, and is told so:
/// the run has ended, or the request is fenced.
pub proof fn law_stale_requests_change_nothing(
    v: TablesView,
    wall: Timestamp,
    id: RunId,
    token: LeaseToken,
    outcome: Outcome,
    error: String,
    retryable: bool,
)
    requires
        !finalize::held(v, id, token, wall),
    ensures
        finalize::finalize_effect(v, wall, id, token, outcome) == (
            v,
            Ok::<FinalizeOutcome, SchedulerError>(
                if finalize::is_over(v, id) {
                    FinalizeOutcome::AlreadyTerminal
                } else {
                    FinalizeOutcome::Fenced
                },
            ),
        ),
        finalize::fail_effect(v, wall, id, token, error, retryable) == (
            v,
            Ok::<FailureOutcome, SchedulerError>(
                if finalize::is_over(v, id) {
                    FailureOutcome::AlreadyTerminal
                } else {
                    FailureOutcome::Fenced
                },
            ),
        ),
        finalize::renew_effect(v, wall, id, token) == (
            v,
            Ok::<RenewalOutcome, SchedulerError>(RenewalOutcome::Fenced),
        ),
{
}

/// Nothing holds the lease of a run that is not running, that runs under another
/// token, or whose lease has expired.
pub proof fn law_only_the_current_lease_holds(
    v: TablesView,
    wall: Timestamp,
    id: RunId,
    token: LeaseToken,
)
    requires
        !v.has_run(id) || !(v.run(id)->0.state is Running) || v.run(id)->0.lease_token != Some(
            token,
        ) || (v.run(id)->0.lease_expires_at is Some && v.run(id)->0.lease_expires_at->0.micros
            <= wall.micros),
    ensures
        !finalize::held(v, id, token, wall),
{
}

/// Whether no attempt under `token` is live.
pub open spec fn retired(v: TablesView, token: LeaseToken) -> bool {
    forall|k: int| 0 <= k < v.attempts.len() ==> !tables::is_live(#[trigger] v.attempts[k], token)
}

/// Whether there is an attempt under `token`, live or ended.
pub open spec fn used(v: TablesView, token: LeaseToken) -> bool {
    exists|k: int| 0 <= k < v.attempts.len() && (#[trigger] v.attempts[k]).lease_token == token
}

/// A token without a live attempt holds no lease, whatever the run and the time.
pub proof fn law_retired_tokens_are_fenced(
    v: TablesView,
    wall: Timestamp,
    id: RunId,
    token: LeaseToken,
)
    requires
        consistency::consistent(v),
        retired(v, token),
    ensures
        !finalize::held(v, id, token, wall),
{
    if finalize::held(v, id, token, wall) {
        consistency::lemma_found(v, id);
        let k = consistency::lemma_one_live_attempt(v, v.run_position(id));
        assert(tables::is_live(v.attempts[k], token));
    }
}

/// Ending a run retires its token.
pub proof fn law_finalize_retires_the_token(
    v: TablesView,
    wall: Timestamp,
    id: RunId,
    token: LeaseToken,
    outcome: Outcome,
)
    requires
        finalize::finalize_effect(v, wall, id, token, outcome).1 == Ok::<
            FinalizeOutcome,
            SchedulerError,
        >(FinalizeOutcome::Applied),
    ensures
        retired(finalize::finalize_effect(v, wall, id, token, outcome).0, token),
{
}

/// Failing a run, finally or for another attempt, retires its token.
pub proof fn law_fail_retires_the_token(
    v: TablesView,
    wall: Timestamp,
    id: RunId,
    token: LeaseToken,
    error: String,
    retryable: bool,
)
    requires
        finalize::held(v, id, token, wall),
        finalize::fail_effect(v, wall, id, token, error, retryable).1 is Ok,
    ensures
        retired(finalize::fail_effect(v, wall, id, token, error, retryable).0, token),
{
}

/// Cancelling a running task retires the token of its worker.
pub proof fn law_cancel_retires_the_token(v: TablesView, wall: Timestamp, id: RunId)
    requires
        v.has_run(id),
        v.run(id)->0.state is Running,
        v.run(id)->0.lease_token is Some,
    ensures
        retired(queue::cancel_effect(v, wall, id).0, v.run(id)->0.lease_token->0),
{
}

/// Recovering an expired run retires the token of its worker.
pub proof fn law_recovery_retires_the_token(
    v: TablesView,
    wall: Timestamp,
    limit: nat,
    after: TablesView,
    summary: reap::RecoverySummary,
    id: RunId,
)
    requires
        reap::recovery(v, wall, limit, after, summary),
        reap::recoverable(v, wall, limit).contains(id),
        v.run(id)->0.lease_token is Some,
    ensures
        retired(after, v.run(id)->0.lease_token->0),
{
    let ids = reap::recoverable(v, wall, limit);
    let token = v.run(id)->0.lease_token->0;
    let n = choose|n: int| 0 <= n < ids.len() && ids[n] == id;
    assert(v.run(ids[n])->0.lease_token == Some(token));
    assert(reap::covers(v, ids, token));
    assert forall|k: int| 0 <= k < after.attempts.len() implies !tables::is_live(
        #[trigger] after.attempts[k],
        token,
    ) by {
        if v.attempts[k].lease_token == token && v.attempts[k].outcome is None {
            assert(reap::interrupted(v, ids, v.attempts[k]));
        }
    }
}

/// A retired token stays retired under every operation of a worker and of an
/// operator: no attempt is ever opened again.
pub proof fn law_retired_tokens_stay_retired(
    v: TablesView,
    token: LeaseToken,
    wall: Timestamp,
    id: RunId,
    other: LeaseToken,
    outcome: Outcome,
    error: String,
    retryable: bool,
)
    requires
        retired(v, token),
    ensures
        retired(finalize::finalize_effect(v, wall, id, other, outcome).0, token),
        retired(finalize::fail_effect(v, wall, id, other, error, retryable).0, token),
        retired(finalize::renew_effect(v, wall, id, other).0, token),
        retired(queue::cancel_effect(v, wall, id).0, token),
{
    let a = finalize::finalize_effect(v, wall, id, other, outcome).0;
    let b = finalize::fail_effect(v, wall, id, other, error, retryable).0;
    let c = finalize::renew_effect(v, wall, id, other).0;
    let d = queue::cancel_effect(v, wall, id).0;
    assert forall|k: int| 0 <= k < v.attempts.len() implies !tables::is_live(
        #[trigger] a.attempts[k],
        token,
    ) && !tables::is_live(#[trigger] b.attempts[k], token) && !tables::is_live(
        #[trigger] c.attempts[k],
        token,
    ) && !tables::is_live(#[trigger] d.attempts[k], token) by {
        assert(!tables::is_live(v.attempts[k], token));
    }
}

/// A retired token stays retired when expired runs are recovered.
pub proof fn law_retired_tokens_survive_recovery(
    v: TablesView,
    token: LeaseToken,
    wall: Timestamp,
    limit: nat,
    after: TablesView,
    summary: reap::RecoverySummary,
)
    requires
        retired(v, token),
        reap::recovery(v, wall, limit, after, summary),
    ensures
        retired(after, token),
{
    assert forall|k: int| 0 <= k < after.attempts.len() implies !tables::is_live(
        #[trigger] after.attempts[k],
        token,
    ) by {
        assert(!tables::is_live(v.attempts[k], token));
    }
}

/// The token of an attempt that has ended stays retired when runs are claimed: no
/// claim takes it again.
pub proof fn law_retired_tokens_survive_claims(
    v: TablesView,
    token: LeaseToken,
    clock: DbClock,
    worker: WorkerId,
    names: Seq<String>,
    limit: nat,
    tokens: Seq<LeaseToken>,
    after: TablesView,
    res: Result<Vec<ClaimedRun>, SchedulerError>,
)
    requires
        consistency::consistent(v),
        retired(v, token),
        used(v, token),
        tokens.len() == claim::chosen(v, names, clock.now(), limit).len(),
        claim::settles(v, clock, worker, names, limit, tokens, after, res),
    ensures
        retired(after, token),
        used(after, token),
{
    let ids = claim::chosen(v, names, clock.now(), limit);
    let old_attempt = choose|k: int|
        0 <= k < v.attempts.len() && (#[trigger] v.attempts[k]).lease_token == token;
    if claim::unused(v, tokens) && claim::first_fault(v, ids, clock.wall()) is None {
        granting::lemma_chosen(v, names, clock.now(), limit);
        granting::lemma_no_fault(v, ids, clock.wall());
        granting::lemma_grants(v, worker, ids, tokens, clock.wall(), ids.len());
        assert(after.attempts[old_attempt] == v.attempts[old_attempt]);
        assert forall|k: int| 0 <= k < after.attempts.len() implies !tables::is_live(
            #[trigger] after.attempts[k],
            token,
        ) by {
            if k < v.attempts.len() {
                assert(after.attempts[k] == v.attempts[k]);
                assert(!tables::is_live(v.attempts[k], token));
            } else {
                let i = k - v.attempts.len();
                assert(after.attempts[v.attempts.len() + i] == claim::attempt_of(
                    claim::granted(v.run(ids[i])->0, worker, tokens[i], clock.wall()),
                ));
                assert(v.attempts[old_attempt].lease_token != tokens[i]);
            }
        }
    }
}

/// The worker of an expired attempt is fenced from the recovery on, also when its
/// run has been claimed again: its token ends, fails and renews nothing.
pub proof fn law_expired_worker_is_fenced_after_reclaim(
    v: TablesView,
    wall: Timestamp,
    limit: nat,
    recovered: TablesView,
    summary: reap::RecoverySummary,
    id: RunId,
    clock: DbClock,
    worker: WorkerId,
    names: Seq<String>,
    batch: nat,
    tokens: Seq<LeaseToken>,
    reclaimed: TablesView,
    res: Result<Vec<ClaimedRun>, SchedulerError>,
    later: Timestamp,
)
    requires
        consistency::consistent(v),
        reap::recovery(v, wall, limit, recovered, summary),
        reap::recoverable(v, wall, limit).contains(id),
        claim::draws(recovered, clock, worker, names, batch, tokens, reclaimed, res),
    ensures
        v.has_run(id),
        v.run(id)->0.lease_token is Some,
        !finalize::held(reclaimed, id, v.run(id)->0.lease_token->0, later),
{
    let token = v.run(id)->0.lease_token->0;
    let at = v.run_position(id);
    let ids = reap::recoverable(v, wall, limit);
    selection::lemma_selected(
        v.runs,
        |r: SchedulerRun| reap::expired(r, wall),
        |r: SchedulerRun| reap::expiry_rank(r),
        limit,
    );
    let n = choose|n: int| 0 <= n < ids.len() && ids[n] == id;
    assert(v.has_run(ids[n]));
    consistency::lemma_found(v, id);
    recovery::lemma_taken_recovers(v, wall, limit, at);
    assert(consistency::run_ok(v.runs[at]));
    keeping::law_recovery_keeps_consistency(v, wall, limit, recovered, summary);
    law_recovery_retires_the_token(v, wall, limit, recovered, summary, id);
    let k = consistency::lemma_one_live_attempt(v, at);
    assert(recovered.attempts[k].lease_token == token);
    law_retired_tokens_survive_claims(
        recovered,
        token,
        clock,
        worker,
        names,
        batch,
        tokens,
        reclaimed,
        res,
    );
    granting::law_claim_keeps_consistency(
        recovered,
        clock,
        worker,
        names,
        batch,
        tokens,
        reclaimed,
        res,
    );
    law_retired_tokens_are_fenced(reclaimed, later, id, token);
}

/// Completion and cancellation exclude each other: whichever comes first, the
/// other finds the run ended and changes nothing.
pub proof fn law_completion_and_cancellation_exclude_each_other(
    v: TablesView,
    wall: Timestamp,
    later: Timestamp,
    id: RunId,
    token: LeaseToken,
    outcome: Outcome,
)
    requires
        consistency::consistent(v),
        finalize::held(v, id, token, wall),
    ensures
        ({
            let ended = finalize::finalize_effect(v, wall, id, token, outcome);
            &&& ended.1 == Ok::<FinalizeOutcome, SchedulerError>(FinalizeOutcome::Applied)
            &&& queue::cancel_effect(ended.0, later, id) == (
                ended.0,
                CancelOutcome::AlreadyTerminal,
            )
        }),
        ({
            let cancelled = queue::cancel_effect(v, wall, id);
            &&& cancelled.1 == CancelOutcome::Cancelled
            &&& finalize::finalize_effect(cancelled.0, later, id, token, outcome) == (
                cancelled.0,
                Ok::<FinalizeOutcome, SchedulerError>(FinalizeOutcome::AlreadyTerminal),
            )
        }),
{
    consistency::lemma_found(v, id);
    consistency::lemma_distinct(v);
    let p = v.run_position(id);
    let k = consistency::lemma_one_live_attempt(v, p);
    assert(tables::is_live(v.attempts[k], token));
    let ended = finalize::finalize_effect(v, wall, id, token, outcome).0;
    let row = finalize::released(
        v.runs[p],
        finalize::run_state_for(outcome),
        Some(wall),
        finalize::error_for(outcome),
        wall,
    );
    lemma_replaced(v, row, ended);
    let cancelled = queue::cancel_effect(v, wall, id).0;
    lemma_replaced(v, queue::cancelled_row(v.runs[p], wall), cancelled);
}

/// A run put in place of that with its identifier is found there.
pub proof fn lemma_replaced(v: TablesView, row: SchedulerRun, u: TablesView)
    requires
        v.has_run(row.id),
        u.runs == v.with_run(row).runs,
    ensures
        u.run_position(row.id) == v.run_position(row.id),
        u.has_run(row.id),
        u.run(row.id) == Some(row),
        forall|id: RunId| id != row.id ==> #[trigger] u.run(id) == v.run(id),
{
    consistency::lemma_found(v, row.id);
    let p = v.run_position(row.id);
    let same = |r: SchedulerRun| r.id == row.id;
    assert forall|j: int| 0 <= j < p implies !same(#[trigger] u.runs[j]) by {
        tables::lemma_first_position(v.runs, same);
        assert(!same(v.runs[j]));
    }
    tables::lemma_is_first_position(u.runs, same, p);
    assert forall|id: RunId| id != row.id implies #[trigger] u.run(id) == v.run(id) by {
        let other = |r: SchedulerRun| r.id == id;
        tables::lemma_first_position(v.runs, other);
        let q = v.run_position(id);
        assert forall|j: int| 0 <= j < q implies !other(#[trigger] u.runs[j]) by {
            assert(!other(v.runs[j]));
        }
        tables::lemma_is_first_position(u.runs, other, q);
    }
}

/// Renewal extends the lease of the run and of its live attempt to the same
/// instant, one lease from now, and the token holds the lease until then.
pub proof fn law_renewal_extends_the_lease(
    v: TablesView,
    wall: Timestamp,
    later: Timestamp,
    id: RunId,
    token: LeaseToken,
)
    requires
        consistency::consistent(v),
        finalize::held(v, id, token, wall),
        time::instant_after(wall, v.run(id)->0.lease_duration) is Some,
    ensures
        ({
            let renewed = finalize::renew_effect(v, wall, id, token);
            let until = time::instant_after(wall, v.run(id)->0.lease_duration)->0;
            &&& renewed.1 == Ok::<RenewalOutcome, SchedulerError>(
                RenewalOutcome::Renewed { lease_expires_at: until },
            )
            &&& renewed.0.run(id)->0.lease_expires_at == Some(until)
            &&& finalize::held(renewed.0, id, token, later) <==> later.micros < until.micros
            &&& forall|k: int|
                0 <= k < renewed.0.attempts.len() && tables::is_live(
                    #[trigger] renewed.0.attempts[k],
                    token,
                ) ==> renewed.0.attempts[k].lease_expires_at == until
        }),
{
    consistency::lemma_found(v, id);
    let p = v.run_position(id);
    let k = consistency::lemma_one_live_attempt(v, p);
    let until = time::instant_after(wall, v.run(id)->0.lease_duration)->0;
    let renewed = finalize::renew_effect(v, wall, id, token).0;
    let row = SchedulerRun { lease_expires_at: Some(until), updated_at: wall, ..v.runs[p] };
    lemma_replaced(v, row, renewed);
}

/// In consistent tables a request that holds the lease is never refused: a run
/// ends as asked; a retryable failure with attempts left waits for its backoff;
/// any other failure ends the run.
pub proof fn law_the_holder_is_served(
    v: TablesView,
    wall: Timestamp,
    id: RunId,
    token: LeaseToken,
    outcome: Outcome,
    error: String,
    retryable: bool,
)
    requires
        consistency::consistent(v),
        finalize::held(v, id, token, wall),
    ensures
        finalize::finalize_effect(v, wall, id, token, outcome).1 == Ok::<
            FinalizeOutcome,
            SchedulerError,
        >(FinalizeOutcome::Applied),
        !(retryable && v.run(id)->0.attempt_count < v.run(id)->0.max_attempts)
            ==> finalize::fail_effect(v, wall, id, token, error, retryable).1 == Ok::<
            FailureOutcome,
            SchedulerError,
        >(FailureOutcome::Failed),
        retryable && v.run(id)->0.attempt_count < v.run(id)->0.max_attempts
            && time::instant_after(wall, v.run(id)->0.retry_backoff) is Some
            ==> finalize::fail_effect(v, wall, id, token, error, retryable).1 == Ok::<
            FailureOutcome,
            SchedulerError,
        >(
            FailureOutcome::Retried {
                available_at: time::instant_after(wall, v.run(id)->0.retry_backoff)->0,
            },
        ),
{
    consistency::lemma_found(v, id);
    let k = consistency::lemma_one_live_attempt(v, v.run_position(id));
}

/// An ended run never changes again, whatever worker or operator asks.
pub proof fn law_ended_runs_stay_as_they_are(
    v: TablesView,
    done: RunId,
    wall: Timestamp,
    id: RunId,
    token: LeaseToken,
    outcome: Outcome,
    error: String,
    retryable: bool,
)
    requires
        finalize::is_over(v, done),
    ensures
        finalize::finalize_effect(v, wall, id, token, outcome).0.run(done) == v.run(done),
        finalize::fail_effect(v, wall, id, token, error, retryable).0.run(done) == v.run(done),
        finalize::renew_effect(v, wall, id, token).0.run(done) == v.run(done),
        queue::cancel_effect(v, wall, id).0.run(done) == v.run(done),
{
    consistency::lemma_found(v, id);
    let a = finalize::finalize_effect(v, wall, id, token, outcome).0;
    let b = finalize::fail_effect(v, wall, id, token, error, retryable).0;
    let c = finalize::renew_effect(v, wall, id, token).0;
    let d = queue::cancel_effect(v, wall, id).0;
    if v.has_run(id) && id != done {
        let p = v.run_position(id);
        if a.runs != v.runs {
            lemma_replaced(v, a.runs[p], a);
        }
        if b.runs != v.runs {
            lemma_replaced(v, b.runs[p], b);
        }
        if c.runs != v.runs {
            lemma_replaced(v, c.runs[p], c);
        }
        if d.runs != v.runs {
            lemma_replaced(v, d.runs[p], d);
        }
    }
}

} // verus!
