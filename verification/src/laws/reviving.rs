//! Reviving work: no run is left under a lease that is over. What these laws say they
//! say of the columns of the rows.
use vstd::prelude::*;

use crate::consistency;
use crate::laws::keeping;
use crate::laws::recovery;
use crate::laws::taking;
use crate::models::{AttemptRow, SchedulerRun, StoredAttemptOutcome, StoredRunState};
use crate::ranking;
use crate::selection;
use crate::store::claim;
use crate::store::reap;
use crate::tables;
use crate::tables::TablesView;
use crate::time::Timestamp;

verus! {

/// Every running run whose lease is over is among those that a recovery takes, or the
/// recovery takes as many as were asked for.
pub proof fn law_every_expired_run_is_taken(v: TablesView, wall: Timestamp, limit: nat, i: int)
    requires
        consistency::consistent(v),
        0 <= i < v.runs.len(),
        v.runs[i].state is Running,
        v.runs[i].lease_expires_at->0.micros <= wall.micros,
    ensures
        reap::recoverable(v, wall, limit).contains(v.runs[i].id) || reap::recoverable(
            v,
            wall,
            limit,
        ).len() == limit,
{
    let p = |r: SchedulerRun| reap::expired(r, wall);
    let key = |r: SchedulerRun| reap::expiry_rank(r);
    let ids = reap::recoverable(v, wall, limit);
    assert(consistency::run_ok(v.runs[i]));
    assert(p(v.runs[i]));
    if ids.len() != limit && !ids.contains(v.runs[i].id) {
        let ranks = ranking::ranks_where(v.runs, p, key);
        let best = ranking::first_ranked(ranks, limit);
        ranking::lemma_first_ranked(ranks, limit);
        ranking::lemma_ranks_where(v.runs, p, key, key(v.runs[i]));
        ranking::lemma_all_taken(ranks, limit);
        assert(ranks.contains(key(v.runs[i])));
        let k = choose|k: int| 0 <= k < best.len() && best[k] == key(v.runs[i]);
        assert(ids[k] == v.runs[i].id);
    }
}

/// A running run whose lease is over waits again, available at once, where an attempt
/// is left, and has failed for good where none is; or the recovery has taken as many
/// runs as were asked for, and the run is as it was. Every other run is as it was.
pub proof fn law_expired_runs_are_revived_or_failed(
    v: TablesView,
    wall: Timestamp,
    limit: nat,
    after: TablesView,
    summary: reap::RecoverySummary,
    i: int,
)
    requires
        consistency::consistent(v),
        reap::recovery(v, wall, limit, after, summary),
        0 <= i < v.runs.len(),
    ensures
        after.jobs == v.jobs,
        after.runs.len() == v.runs.len(),
        summary.requeued + summary.failed <= limit,
        !(v.runs[i].state is Running) || v.runs[i].lease_expires_at->0.micros > wall.micros
            ==> after.runs[i] == v.runs[i],
        v.runs[i].state is Running && v.runs[i].lease_expires_at->0.micros <= wall.micros ==> {
            ||| after.runs[i] == v.runs[i] && summary.requeued + summary.failed == limit
            ||| v.runs[i].attempt_count < v.runs[i].max_attempts && after.runs[i] == (SchedulerRun {
                state: StoredRunState::Pending,
                available_at: wall,
                worker_id: None,
                lease_token: None,
                lease_expires_at: None,
                started_at: None,
                finished_at: None,
                last_error: None,
                updated_at: wall,
                ..v.runs[i]
            })
            ||| v.runs[i].attempt_count >= v.runs[i].max_attempts && after.runs[i].last_error
                is Some && after.runs[i].last_error->0@ == "lease expired; max attempts exhausted"@
                && after.runs[i] == (SchedulerRun {
                state: StoredRunState::Failed,
                worker_id: None,
                lease_token: None,
                lease_expires_at: None,
                started_at: None,
                finished_at: Some(wall),
                last_error: after.runs[i].last_error,
                updated_at: wall,
                ..v.runs[i]
            })
        },
{
    let ids = reap::recoverable(v, wall, limit);
    recovery::law_recovery_hands_on_or_fails(v, wall, limit, after, summary, i);
    recovery::law_recovery_accounts_for_every_run(v, wall, limit, after, summary);
    assert(consistency::run_ok(v.runs[i]));
    if ids.contains(v.runs[i].id) {
        recovery::lemma_taken_recovers(v, wall, limit, i);
    }
    if v.runs[i].state is Running && v.runs[i].lease_expires_at->0.micros <= wall.micros {
        law_every_expired_run_is_taken(v, wall, limit, i);
    }
}

/// An attempt ends as expired, with the error that says so, where it is the live one
/// of a run that the recovery took from its worker; every other attempt is as it was.
pub proof fn law_attempts_of_revived_runs_expire(
    v: TablesView,
    wall: Timestamp,
    limit: nat,
    after: TablesView,
    summary: reap::RecoverySummary,
    i: int,
    k: int,
)
    requires
        consistency::consistent(v),
        reap::recovery(v, wall, limit, after, summary),
        0 <= i < v.runs.len(),
        0 <= k < v.attempts.len(),
        v.attempts[k].run_id == v.runs[i].id,
    ensures
        after.attempts.len() == v.attempts.len(),
        v.attempts[k].outcome is None && !(after.runs[i].state is Running) ==> {
            &&& after.attempts[k].error is Some
            &&& after.attempts[k].error->0@ == "lease expired"@
            &&& after.attempts[k] == (AttemptRow {
                finished_at: Some(wall),
                outcome: Some(StoredAttemptOutcome::Expired),
                error: after.attempts[k].error,
                ..v.attempts[k]
            })
        },
        v.attempts[k].outcome is Some || after.runs[i].state is Running ==> after.attempts[k]
            == v.attempts[k],
{
    let ids = reap::recoverable(v, wall, limit);
    consistency::lemma_distinct(v);
    consistency::lemma_position(v, i);
    assert(consistency::attempt_linked(v, k));
    assert(consistency::run_ok(v.runs[i]));
    recovery::law_recovery_hands_on_or_fails(v, wall, limit, after, summary, i);
    if v.attempts[k].outcome is None {
        let token = v.runs[i].lease_token->0;
        let live = consistency::lemma_one_live_attempt(v, i);
        assert(tables::is_live(v.attempts[k], token));
        if ids.contains(v.runs[i].id) {
            recovery::lemma_taken_recovers(v, wall, limit, i);
            let n = choose|n: int| 0 <= n < ids.len() && ids[n] == v.runs[i].id;
            assert(v.run(ids[n])->0.lease_token == Some(token));
            assert(reap::covers(v, ids, token));
            assert(reap::interrupted(v, ids, v.attempts[k]));
        } else if reap::covers(v, ids, token) {
            let n = choose|n: int|
                0 <= n < ids.len() && v.run(#[trigger] ids[n])->0.lease_token == Some(token);
            lemma_recoverable_found(v, wall, limit, n);
            let other = v.run_position(ids[n]);
            let also = consistency::lemma_one_live_attempt(v, other);
            assert(tables::is_live(v.attempts[also], token));
            assert(also == k);
        }
    }
}

/// What a recovery takes is there, and running.
proof fn lemma_recoverable_found(v: TablesView, wall: Timestamp, limit: nat, n: int)
    requires
        consistency::consistent(v),
        0 <= n < reap::recoverable(v, wall, limit).len(),
    ensures
        ({
            let id = reap::recoverable(v, wall, limit)[n];
            &&& v.has_run(id)
            &&& 0 <= v.run_position(id) < v.runs.len()
            &&& v.runs[v.run_position(id)].id == id
            &&& v.runs[v.run_position(id)].state is Running
        }),
{
    let ids = reap::recoverable(v, wall, limit);
    selection::lemma_selected(
        v.runs,
        |r: SchedulerRun| reap::expired(r, wall),
        |r: SchedulerRun| reap::expiry_rank(r),
        limit,
    );
    assert(v.has_run(ids[n]));
    consistency::lemma_found(v, ids[n]);
    assert(ids.contains(ids[n]));
    recovery::lemma_taken_recovers(v, wall, limit, v.run_position(ids[n]));
}

/// Where a recovery had room for more, no run is left running under a lease that is
/// over. It made exactly those wait again that had an attempt left, and failed exactly
/// those that had none.
pub proof fn law_a_recovery_with_room_leaves_nothing_behind(
    v: TablesView,
    wall: Timestamp,
    limit: nat,
    after: TablesView,
    summary: reap::RecoverySummary,
)
    requires
        consistency::consistent(v),
        reap::recovery(v, wall, limit, after, summary),
        summary.requeued + summary.failed < limit || v.runs.len() <= limit,
    ensures
        forall|i: int|
            0 <= i < after.runs.len() ==> !((#[trigger] after.runs[i]).state is Running)
                || after.runs[i].lease_expires_at->0.micros > wall.micros,
        summary.requeued == tables::count_where(
            v.runs,
            |r: SchedulerRun|
                r.state is Running && r.lease_expires_at->0.micros <= wall.micros
                    && r.attempt_count < r.max_attempts,
        ),
        summary.failed == tables::count_where(
            v.runs,
            |r: SchedulerRun|
                r.state is Running && r.lease_expires_at->0.micros <= wall.micros
                    && r.attempt_count >= r.max_attempts,
        ),
{
    let ids = reap::recoverable(v, wall, limit);
    let p = |r: SchedulerRun| reap::expired(r, wall);
    let key = |r: SchedulerRun| reap::expiry_rank(r);
    recovery::law_recovery_accounts_for_every_run(v, wall, limit, after, summary);
    assert forall|i: int| 0 <= i < v.runs.len() implies reap::recovers(
        v,
        ids,
        (#[trigger] v.runs[i]).id,
    ) == (v.runs[i].state is Running && v.runs[i].lease_expires_at->0.micros <= wall.micros) by {
        assert(consistency::run_ok(v.runs[i]));
        if ids.contains(v.runs[i].id) {
            recovery::lemma_taken_recovers(v, wall, limit, i);
        } else if p(v.runs[i]) {
            let ranks = ranking::ranks_where(v.runs, p, key);
            ranking::lemma_ranks_where(v.runs, p, key, key(v.runs[i]));
            ranking::lemma_first_ranked(ranks, limit);
            ranking::lemma_all_taken(ranks, limit);
            assert(ranks.contains(key(v.runs[i])));
            let best = ranking::first_ranked(ranks, limit);
            let k = choose|k: int| 0 <= k < best.len() && best[k] == key(v.runs[i]);
            assert(ids[k] == v.runs[i].id);
        }
    }
    assert forall|i: int| 0 <= i < after.runs.len() implies !((#[trigger] after.runs[i]).state
        is Running) || after.runs[i].lease_expires_at->0.micros > wall.micros by {
        law_expired_runs_are_revived_or_failed(v, wall, limit, after, summary, i);
        assert(reap::recovers(v, ids, v.runs[i].id) == (v.runs[i].state is Running
            && v.runs[i].lease_expires_at->0.micros <= wall.micros));
        recovery::law_recovery_hands_on_or_fails(v, wall, limit, after, summary, i);
    }
    recovery::lemma_count_same(
        v.runs,
        |r: SchedulerRun| reap::recovers(v, ids, r.id) && reap::has_attempts_left(r),
        |r: SchedulerRun|
            r.state is Running && r.lease_expires_at->0.micros <= wall.micros && r.attempt_count
                < r.max_attempts,
    );
    recovery::lemma_count_same(
        v.runs,
        |r: SchedulerRun| reap::recovers(v, ids, r.id) && !reap::has_attempts_left(r),
        |r: SchedulerRun|
            r.state is Running && r.lease_expires_at->0.micros <= wall.micros && r.attempt_count
                >= r.max_attempts,
    );
}

/// Leases that have been over for longer are dealt with first: where a run is left
/// under a lease that is over, every run that the recovery took has a lease that was
/// over no later.
pub proof fn law_the_longest_expired_come_first(
    v: TablesView,
    wall: Timestamp,
    limit: nat,
    after: TablesView,
    summary: reap::RecoverySummary,
    left: int,
    taken: int,
)
    requires
        consistency::consistent(v),
        reap::recovery(v, wall, limit, after, summary),
        0 <= left < v.runs.len(),
        v.runs[left].state is Running,
        v.runs[left].lease_expires_at->0.micros <= wall.micros,
        after.runs[left] == v.runs[left],
        0 <= taken < v.runs.len(),
        after.runs[taken] != v.runs[taken],
    ensures
        v.runs[taken].lease_expires_at->0.micros <= v.runs[left].lease_expires_at->0.micros,
{
    let ids = reap::recoverable(v, wall, limit);
    assert(consistency::run_ok(v.runs[left]));
    recovery::law_recovery_hands_on_or_fails(v, wall, limit, after, summary, left);
    recovery::law_recovery_hands_on_or_fails(v, wall, limit, after, summary, taken);
    recovery::law_recovery_takes_the_longest_expired(v, wall, limit, left, taken);
}

/// A run that a recovery made wait again is chosen by the next claim for its name, or
/// that claim chooses as many runs as were asked for.
pub proof fn law_a_revived_run_is_chosen_next(
    v: TablesView,
    wall: Timestamp,
    limit: nat,
    after: TablesView,
    summary: reap::RecoverySummary,
    i: int,
    names: Seq<String>,
    n: int,
    later: Timestamp,
    most: nat,
)
    requires
        consistency::consistent(v),
        reap::recovery(v, wall, limit, after, summary),
        summary.requeued + summary.failed < limit || v.runs.len() <= limit,
        0 <= i < v.runs.len(),
        v.runs[i].state is Running,
        v.runs[i].lease_expires_at->0.micros <= wall.micros,
        v.runs[i].attempt_count < v.runs[i].max_attempts,
        0 <= n < names.len(),
        names[n]@ == v.runs[i].job_name@,
        wall.micros <= later.micros,
    ensures
        claim::chosen(after, names, later, most).contains(v.runs[i].id) || claim::chosen(
            after,
            names,
            later,
            most,
        ).len() == most,
{
    law_expired_runs_are_revived_or_failed(v, wall, limit, after, summary, i);
    law_a_recovery_with_room_leaves_nothing_behind(v, wall, limit, after, summary);
    keeping::law_recovery_keeps_consistency(v, wall, limit, after, summary);
    assert(!(after.runs[i].state is Running) || after.runs[i].lease_expires_at->0.micros
        > wall.micros);
    taking::law_every_available_run_is_chosen(after, names, later, most, i, n);
}

} // verus!
