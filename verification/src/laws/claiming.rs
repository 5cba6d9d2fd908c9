//! Claiming: which runs a worker gets, and that no run is claimed twice.
use vstd::prelude::*;

use crate::consistency;
use crate::error::SchedulerError;
use crate::ids::{LeaseToken, RunId, WorkerId};
use crate::laws::granting;
use crate::models::{ClaimedRun, SchedulerRun};
use crate::policy;
use crate::ranking;
use crate::selection;
use crate::store::claim;
use crate::tables;
use crate::tables::TablesView;
use crate::time;
use crate::time::{DbClock, Timestamp};

verus! {

/// A claim takes at most `limit` runs, no run twice, and only pending runs that
/// are available and of a registered name.
pub proof fn law_claims_take_only_claimable_runs(
    v: TablesView,
    names: Seq<String>,
    now: Timestamp,
    limit: nat,
)
    requires
        consistency::consistent(v),
    ensures
        claim::chosen(v, names, now, limit).len() <= limit,
        claim::chosen(v, names, now, limit).no_duplicates(),
        forall|i: int|
            0 <= i < claim::chosen(v, names, now, limit).len() ==> claim::claimable(
                v.run(#[trigger] claim::chosen(v, names, now, limit)[i])->0,
                names,
                now,
            ),
{
    granting::lemma_chosen(v, names, now, limit);
}

/// A claim prefers higher priority, then earlier availability, then the lower
/// identifier: a claimable run is left out only where the batch is full of runs
/// that come before it.
pub proof fn law_claims_prefer_by_priority(
    v: TablesView,
    names: Seq<String>,
    now: Timestamp,
    limit: nat,
    left: int,
    taken: int,
)
    requires
        consistency::consistent(v),
        0 <= left < v.runs.len(),
        0 <= taken < v.runs.len(),
        claim::claimable(v.runs[left], names, now),
        !claim::chosen(v, names, now, limit).contains(v.runs[left].id),
        claim::chosen(v, names, now, limit).contains(v.runs[taken].id),
    ensures
        claim::chosen(v, names, now, limit).len() == limit,
        v.runs[taken].priority >= v.runs[left].priority,
        v.runs[taken].priority == v.runs[left].priority ==> v.runs[taken].available_at.micros
            <= v.runs[left].available_at.micros,
        v.runs[taken].priority == v.runs[left].priority && v.runs[taken].available_at
            == v.runs[left].available_at ==> v.runs[taken].id.0 < v.runs[left].id.0,
{
    let p = |r: SchedulerRun| claim::claimable(r, names, now);
    let key = |r: SchedulerRun| claim::claim_rank(r);
    consistency::lemma_distinct(v);
    selection::lemma_selected_distinct(v.runs, p, key, limit);
    assert(p(v.runs[left]));
    assert(ranking::precedes(key(v.runs[taken]), key(v.runs[left])));
    if taken < left {
        assert(v.runs[taken].id != v.runs[left].id);
    } else if left < taken {
        assert(v.runs[left].id != v.runs[taken].id);
    }
}

/// Whether a claim of `ids` at `wall` finds nothing that stops it.
pub open spec fn goes_through(v: TablesView, ids: Seq<RunId>, wall: Timestamp) -> bool {
    claim::first_fault(v, ids, wall) is None
}

/// What a claim leaves: each chosen run is running for the worker under its own
/// token until one lease from now, with one more attempt counted and recorded;
/// every other run is as it was.
pub proof fn law_claims_grant_leases(
    v: TablesView,
    clock: DbClock,
    worker: WorkerId,
    names: Seq<String>,
    limit: nat,
    tokens: Seq<LeaseToken>,
    after: TablesView,
    res: Result<Vec<ClaimedRun>, SchedulerError>,
    id: RunId,
)
    requires
        consistency::consistent(v),
        tokens.len() == claim::chosen(v, names, clock.now(), limit).len(),
        claim::unused(v, tokens),
        claim::claims(v, clock, worker, names, limit, tokens, after, res),
        goes_through(v, claim::chosen(v, names, clock.now(), limit), clock.wall()),
        v.has_run(id),
    ensures
        claim::chosen(v, names, clock.now(), limit).contains(id) ==> exists|n: int|
            0 <= n < tokens.len() && claim::chosen(v, names, clock.now(), limit)[n] == id
                && after.run(id) == Some(
                claim::granted(v.run(id)->0, worker, #[trigger] tokens[n], clock.wall()),
            ) && after.attempts.contains(claim::attempt_of(after.run(id)->0)),
        !claim::chosen(v, names, clock.now(), limit).contains(id) ==> after.run(id) == v.run(id),
        after.attempts.len() == v.attempts.len() + claim::chosen(
            v,
            names,
            clock.now(),
            limit,
        ).len(),
{
    let wall = clock.wall();
    let ids = claim::chosen(v, names, clock.now(), limit);
    granting::lemma_chosen(v, names, clock.now(), limit);
    granting::lemma_no_fault(v, ids, wall);
    granting::lemma_grants(v, worker, ids, tokens, wall, ids.len());
    assert(ids.take(ids.len() as int) =~= ids);
    consistency::lemma_distinct(v);
    consistency::lemma_distinct(after);
    consistency::lemma_found(v, id);
    let p = v.run_position(id);
    if ids.contains(id) {
        let n = choose|n: int| 0 <= n < ids.len() && ids[n] == id;
        assert(after.runs[v.run_position(ids[n])] == claim::granted(
            v.run(ids[n])->0,
            worker,
            tokens[n],
            wall,
        ));
        consistency::lemma_position(after, p);
        assert(after.attempts[v.attempts.len() + n] == claim::attempt_of(
            claim::granted(v.run(ids[n])->0, worker, tokens[n], wall),
        ));
    } else {
        assert(after.runs[p] == v.runs[p]);
        consistency::lemma_position(after, p);
    }
}

/// A run that a claim took is taken by no claim after it, at any time and for any
/// names: two workers never get one run.
pub proof fn law_no_run_is_claimed_twice(
    v: TablesView,
    clock: DbClock,
    worker: WorkerId,
    names: Seq<String>,
    limit: nat,
    tokens: Seq<LeaseToken>,
    after: TablesView,
    res: Result<Vec<ClaimedRun>, SchedulerError>,
    other_names: Seq<String>,
    later: Timestamp,
    other_limit: nat,
    id: RunId,
)
    requires
        consistency::consistent(v),
        tokens.len() == claim::chosen(v, names, clock.now(), limit).len(),
        claim::unused(v, tokens),
        claim::claims(v, clock, worker, names, limit, tokens, after, res),
        goes_through(v, claim::chosen(v, names, clock.now(), limit), clock.wall()),
        claim::chosen(v, names, clock.now(), limit).contains(id),
    ensures
        !claim::chosen(after, other_names, later, other_limit).contains(id),
{
    let ids = claim::chosen(v, names, clock.now(), limit);
    granting::lemma_chosen(v, names, clock.now(), limit);
    let n = choose|n: int| 0 <= n < ids.len() && ids[n] == id;
    assert(v.has_run(ids[n]));
    law_claims_grant_leases(v, clock, worker, names, limit, tokens, after, res, id);
    granting::law_claim_keeps_consistency(v, clock, worker, names, limit, tokens, after, res);
    let again = claim::chosen(after, other_names, later, other_limit);
    granting::lemma_chosen(after, other_names, later, other_limit);
    if again.contains(id) {
        let m = choose|m: int| 0 <= m < again.len() && again[m] == id;
        assert(claim::claimable(after.run(again[m])->0, other_names, later));
    }
}

/// In consistent tables nothing stops a claim but an instant that cannot be
/// represented: the end of a lease, or the last possible attempt count.
pub proof fn law_claims_fail_only_out_of_range(
    v: TablesView,
    names: Seq<String>,
    now: Timestamp,
    limit: nat,
    wall: Timestamp,
)
    requires
        consistency::consistent(v),
        forall|i: int|
            0 <= i < claim::chosen(v, names, now, limit).len() ==> time::instant_after(
                wall,
                v.run(#[trigger] claim::chosen(v, names, now, limit)[i])->0.lease_duration,
            ) is Some,
    ensures
        goes_through(v, claim::chosen(v, names, now, limit), wall),
{
    let ids = claim::chosen(v, names, now, limit);
    granting::lemma_chosen(v, names, now, limit);
    assert forall|i: int| 0 <= i < ids.len() implies claim::grant_fault(
        v,
        #[trigger] ids[i],
        wall,
    ) is None by {
        consistency::lemma_found(v, ids[i]);
        let r = v.runs[v.run_position(ids[i])];
        assert(consistency::run_ok(r));
        if v.has_attempt(ids[i], r.attempt_count + 1) {
            let k = choose|k: int|
                0 <= k < v.attempts.len() && tables::is_attempt(
                    #[trigger] v.attempts[k],
                    ids[i],
                    r.attempt_count + 1,
                );
            assert(consistency::attempt_linked(v, k));
        }
    }
    lemma_no_faults(v, ids, wall);
}

/// Where none of `ids` has a fault, there is no first one.
proof fn lemma_no_faults(v: TablesView, ids: Seq<RunId>, wall: Timestamp)
    requires
        forall|i: int|
            0 <= i < ids.len() ==> claim::grant_fault(v, #[trigger] ids[i], wall) is None,
    ensures
        claim::first_fault(v, ids, wall) is None,
    decreases ids.len(),
{
    if ids.len() > 0 {
        let init = ids.drop_last();
        assert forall|i: int| 0 <= i < init.len() implies claim::grant_fault(
            v,
            #[trigger] init[i],
            wall,
        ) is None by {
            assert(claim::grant_fault(v, ids[i], wall) is None);
        }
        lemma_no_faults(v, init, wall);
        assert(claim::grant_fault(v, ids[ids.len() - 1], wall) is None);
    }
}

/// A claim that goes through hands out exactly the chosen runs, each with its
/// complete lease, as long as their stored leases are valid.
pub proof fn law_claims_hand_out_what_they_took(
    v: TablesView,
    clock: DbClock,
    worker: WorkerId,
    names: Seq<String>,
    limit: nat,
    tokens: Seq<LeaseToken>,
    after: TablesView,
    res: Result<Vec<ClaimedRun>, SchedulerError>,
)
    requires
        consistency::consistent(v),
        tokens.len() == claim::chosen(v, names, clock.now(), limit).len(),
        claim::unused(v, tokens),
        claim::claims(v, clock, worker, names, limit, tokens, after, res),
        goes_through(v, claim::chosen(v, names, clock.now(), limit), clock.wall()),
        forall|i: int|
            0 <= i < v.runs.len() ==> policy::stored_lease_rejection(
                (#[trigger] v.runs[i]).lease_duration,
            ) is None,
    ensures
        res is Ok,
        res->Ok_0@.len() == claim::chosen(v, names, clock.now(), limit).len(),
        forall|j: int|
            0 <= j < res->Ok_0@.len() ==> claim::chosen(v, names, clock.now(), limit).contains(
                (#[trigger] res->Ok_0@[j]).run_id,
            ) && res->Ok_0@[j] == claim::reported(after.run(res->Ok_0@[j].run_id)->0),
        forall|i: int, j: int|
            0 <= i < j < res->Ok_0@.len() ==> (#[trigger] res->Ok_0@[i]).scheduled_for.micros <= (
            #[trigger] res->Ok_0@[j]).scheduled_for.micros,
{
    let wall = clock.wall();
    let ids = claim::chosen(v, names, clock.now(), limit);
    granting::lemma_chosen(v, names, clock.now(), limit);
    granting::lemma_no_fault(v, ids, wall);
    granting::lemma_grants(v, worker, ids, tokens, wall, ids.len());
    consistency::lemma_distinct(v);
    consistency::lemma_distinct(after);
    let ranks = ids.map_values(|id: RunId| claim::report_rank(after.run(id)->0));
    let sorted = ranking::ranked(ranks);
    let rows = claim::report_rows(after, ids);
    ranking::lemma_all_ranked(ranks);
    ranking::lemma_first_ranked(ranks, ranks.len());
    assert forall|j: int| 0 <= j < rows.len() implies ids.contains((#[trigger] rows[j]).id)
        && after.run(rows[j].id) == Some(rows[j]) && claim::report_rank(rows[j]) == sorted[j]
        && claim::report_error(rows[j]) is None by {
        assert(ranks.contains(sorted[j]));
        let i = choose|i: int| 0 <= i < ranks.len() && ranks[i] == sorted[j];
        assert(v.has_run(ids[i]));
        consistency::lemma_found(v, ids[i]);
        let p = v.run_position(ids[i]);
        assert(after.runs[v.run_position(ids[i])] == claim::granted(
            v.run(ids[i])->0,
            worker,
            tokens[i],
            wall,
        ));
        consistency::lemma_position(after, p);
        assert(consistency::run_ok(after.runs[p]));
        assert(policy::stored_lease_rejection(v.runs[p].lease_duration) is None);
        assert(ids.contains(ids[i]));
    }
    let bad = |r: SchedulerRun| claim::report_error(r) is Some;
    assert forall|j: int| 0 <= j < rows.len() implies !bad(#[trigger] rows[j]) by {}
    tables::lemma_is_first_position(rows, bad, rows.len() as int);
    assert forall|i: int, j: int| 0 <= i < j < rows.len() implies (
    #[trigger] rows[i]).scheduled_for.micros <= (#[trigger] rows[j]).scheduled_for.micros by {
        assert(ranking::rank_order()(sorted[i], sorted[j]));
    }
}

/// Neither an ended run nor one that is under a lease is claimed: it stays as it
/// is.
pub proof fn law_only_pending_runs_are_claimed(
    v: TablesView,
    clock: DbClock,
    worker: WorkerId,
    names: Seq<String>,
    limit: nat,
    tokens: Seq<LeaseToken>,
    after: TablesView,
    res: Result<Vec<ClaimedRun>, SchedulerError>,
    id: RunId,
)
    requires
        consistency::consistent(v),
        tokens.len() == claim::chosen(v, names, clock.now(), limit).len(),
        claim::unused(v, tokens),
        claim::claims(v, clock, worker, names, limit, tokens, after, res),
        v.has_run(id),
        !(v.run(id)->0.state is Pending),
    ensures
        after.run(id) == v.run(id),
{
    granting::lemma_chosen(v, names, clock.now(), limit);
    let ids = claim::chosen(v, names, clock.now(), limit);
    if goes_through(v, ids, clock.wall()) {
        if ids.contains(id) {
            let i = choose|i: int| 0 <= i < ids.len() && ids[i] == id;
            assert(claim::claimable(v.run(ids[i])->0, names, clock.now()));
        }
        law_claims_grant_leases(v, clock, worker, names, limit, tokens, after, res, id);
    }
}

} // verus!
