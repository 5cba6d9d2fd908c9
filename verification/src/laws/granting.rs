//! Claiming keeps the tables consistent, and what it does to each run.
use vstd::prelude::*;

use crate::consistency;
use crate::ids::{LeaseToken, RunId, WorkerId};
use crate::models::{ClaimedRun, SchedulerRun};
use crate::error::SchedulerError;
use crate::selection;
use crate::store::claim;
use crate::tables;
use crate::tables::TablesView;
use crate::time;
use crate::time::{DbClock, Timestamp};

verus! {

/// Claiming one pending run under an unused token keeps the tables consistent.
proof fn lemma_grant(u: TablesView, p: int, worker: WorkerId, token: LeaseToken, wall: Timestamp)
    requires
        consistency::consistent(u),
        0 <= p < u.runs.len(),
        u.runs[p].state is Pending,
        time::instant_after(wall, u.runs[p].lease_duration) is Some,
        forall|k: int| 0 <= k < u.attempts.len() ==> (#[trigger] u.attempts[k]).lease_token != token,
    ensures
        consistency::consistent(
            (TablesView {
                runs: u.runs.update(p, claim::granted(u.runs[p], worker, token, wall)),
                attempts: u.attempts.push(
                    claim::attempt_of(claim::granted(u.runs[p], worker, token, wall)),
                ),
                ..u
            }),
        ),
{
    let row = claim::granted(u.runs[p], worker, token, wall);
    let made = claim::attempt_of(row);
    let w = TablesView {
        runs: u.runs.update(p, row),
        attempts: u.attempts.push(made),
        ..u
    };
    consistency::lemma_distinct(u);
    assert(consistency::run_ok(u.runs[p]));
    assert(row.attempt_count == u.runs[p].attempt_count + 1);
    assert forall|i: int, j: int| 0 <= i < j < w.runs.len() implies consistency::runs_apart(
        #[trigger] w.runs[i],
        #[trigger] w.runs[j],
    ) by {
        assert(consistency::runs_apart(u.runs[i], u.runs[j]));
    }
    assert(selection::distinct_runs(w.runs)) by {
        assert forall|i: int, j: int| 0 <= i < j < w.runs.len() implies (#[trigger] w.runs[i]).id
            != (#[trigger] w.runs[j]).id by {
            assert(consistency::runs_apart(u.runs[i], u.runs[j]));
        }
    }
    assert forall|i: int| 0 <= i < w.runs.len() implies consistency::run_ok(
        #[trigger] w.runs[i],
    ) by {
        assert(consistency::run_ok(u.runs[i]));
    }
    assert forall|i: int, j: int| 0 <= i < j < w.attempts.len() implies consistency::attempts_apart(
        #[trigger] w.attempts[i],
        #[trigger] w.attempts[j],
    ) by {
        if j < u.attempts.len() {
            assert(consistency::attempts_apart(u.attempts[i], u.attempts[j]));
        } else {
            assert(u.attempts[i].lease_token != token);
            assert(consistency::attempt_linked(u, i));
            consistency::lemma_found(u, u.attempts[i].run_id);
            if u.attempts[i].run_id == row.id {
                consistency::lemma_position(u, p);
            }
        }
    }
    assert forall|k: int| 0 <= k < w.attempts.len() implies consistency::attempt_ok(
        #[trigger] w.attempts[k],
    ) by {
        if k < u.attempts.len() {
            assert(consistency::attempt_ok(u.attempts[k]));
        }
    }
    assert forall|k: int| 0 <= k < w.attempts.len() implies #[trigger] consistency::attempt_linked(
        w,
        k,
    ) by {
        if k < u.attempts.len() {
            assert(consistency::attempt_linked(u, k));
            let id = u.attempts[k].run_id;
            consistency::lemma_found(u, id);
            let i = u.run_position(id);
            consistency::lemma_position(w, i);
        } else {
            consistency::lemma_position(w, p);
        }
    }
    assert forall|i: int| 0 <= i < w.runs.len() implies #[trigger] consistency::run_linked(
        w,
        i,
    ) by {
        if i == p {
            assert(consistency::carries(w, u.attempts.len() as int, row.id, token));
        } else if w.runs[i].state is Running {
            assert(consistency::run_linked(u, i));
            let k = choose|k: int|
                #[trigger] consistency::carries(u, k, u.runs[i].id, u.runs[i].lease_token->0);
            assert(consistency::carries(w, k, w.runs[i].id, w.runs[i].lease_token->0));
        }
    }
}

/// What claiming the first `n` of `ids` leaves: consistent tables, the runs of
/// `ids` claimed in turn, all others as they were, and one more attempt for each
/// claim.
pub proof fn lemma_grants(
    v: TablesView,
    worker: WorkerId,
    ids: Seq<RunId>,
    tokens: Seq<LeaseToken>,
    wall: Timestamp,
    n: nat,
)
    requires
        consistency::consistent(v),
        n <= ids.len(),
        tokens.len() == ids.len(),
        ids.no_duplicates(),
        claim::unused(v, tokens),
        forall|i: int|
            0 <= i < ids.len() ==> v.has_run(#[trigger] ids[i]) && v.run(ids[i])->0.state
                is Pending && time::instant_after(wall, v.run(ids[i])->0.lease_duration) is Some,
    ensures
        ({
            let u = claim::grants(v, worker, ids, tokens, wall, n);
            &&& consistency::consistent(u)
            &&& u.jobs == v.jobs
            &&& u.runs.len() == v.runs.len()
            &&& u.attempts.len() == v.attempts.len() + n
            &&& forall|j: int|
                0 <= j < v.runs.len() && !ids.take(n as int).contains(v.runs[j].id)
                    ==> #[trigger] u.runs[j] == v.runs[j]
            &&& forall|i: int|
                0 <= i < n ==> u.runs[v.run_position(#[trigger] ids[i])] == claim::granted(
                    v.run(ids[i])->0,
                    worker,
                    tokens[i],
                    wall,
                )
            &&& forall|k: int|
                0 <= k < v.attempts.len() ==> #[trigger] u.attempts[k] == v.attempts[k]
            &&& forall|i: int|
                0 <= i < n ==> #[trigger] u.attempts[v.attempts.len() + i] == claim::attempt_of(
                    claim::granted(v.run(ids[i])->0, worker, tokens[i], wall),
                )
        }),
    decreases n,
{
    if n > 0 {
        let m = (n - 1) as nat;
        lemma_grants(v, worker, ids, tokens, wall, m);
        let u = claim::grants(v, worker, ids, tokens, wall, m);
        let w = claim::grants(v, worker, ids, tokens, wall, n);
        let id = ids[m as int];
        let p = v.run_position(id);
        consistency::lemma_distinct(v);
        consistency::lemma_found(v, id);
        assert(v.has_run(ids[m as int]));
        assert(!ids.take(m as int).contains(id)) by {
            if ids.take(m as int).contains(id) {
                let i = choose|i: int| 0 <= i < m && ids.take(m as int)[i] == id;
                assert(ids[i] == ids[m as int]);
            }
        }
        assert(u.runs[p] == v.runs[p]);
        assert forall|k: int| 0 <= k < u.attempts.len() implies (
        #[trigger] u.attempts[k]).lease_token != tokens[m as int] by {
            if k < v.attempts.len() {
                assert(u.attempts[k] == v.attempts[k]);
                assert(v.attempts[k].lease_token != tokens[m as int]);
            } else {
                let i = k - v.attempts.len();
                assert(u.attempts[v.attempts.len() + i] == claim::attempt_of(
                    claim::granted(v.run(ids[i])->0, worker, tokens[i], wall),
                ));
                assert(tokens[i] != tokens[m as int]);
            }
        }
        lemma_grant(u, p, worker, tokens[m as int], wall);
        assert forall|j: int| 0 <= j < v.runs.len() && !ids.take(n as int).contains(
            v.runs[j].id,
        ) implies #[trigger] w.runs[j] == v.runs[j] by {
            assert(ids.take(n as int)[m as int] == id);
            if ids.take(m as int).contains(v.runs[j].id) {
                let i = choose|i: int|
                    0 <= i < m && ids.take(m as int)[i] == v.runs[j].id;
                assert(ids.take(n as int)[i] == v.runs[j].id);
            }
            assert(u.runs[j] == v.runs[j]);
        }
        assert forall|i: int| 0 <= i < n implies w.runs[v.run_position(#[trigger] ids[i])]
            == claim::granted(v.run(ids[i])->0, worker, tokens[i], wall) by {
            assert(v.has_run(ids[i]));
            consistency::lemma_found(v, ids[i]);
            if i < m {
                assert(ids[i] != ids[m as int]);
                assert(u.runs[v.run_position(ids[i])] == claim::granted(
                    v.run(ids[i])->0,
                    worker,
                    tokens[i],
                    wall,
                ));
            }
        }
        assert forall|i: int| 0 <= i < n implies #[trigger] w.attempts[v.attempts.len() + i]
            == claim::attempt_of(
            claim::granted(v.run(ids[i])->0, worker, tokens[i], wall),
        ) by {
            if i < m {
                assert(u.attempts[v.attempts.len() + i] == claim::attempt_of(
                    claim::granted(v.run(ids[i])->0, worker, tokens[i], wall),
                ));
            }
        }
        assert forall|k: int| 0 <= k < v.attempts.len() implies #[trigger] w.attempts[k]
            == v.attempts[k] by {
            assert(u.attempts[k] == v.attempts[k]);
        }
    }
}

/// What a claim chooses: distinct pending runs, available and of the given names.
pub proof fn lemma_chosen(v: TablesView, names: Seq<String>, now: Timestamp, limit: nat)
    requires
        consistency::consistent(v),
    ensures
        claim::chosen(v, names, now, limit).no_duplicates(),
        claim::chosen(v, names, now, limit).len() <= limit,
        forall|i: int|
            0 <= i < claim::chosen(v, names, now, limit).len() ==> v.has_run(
                #[trigger] claim::chosen(v, names, now, limit)[i],
            ) && claim::claimable(
                v.run(claim::chosen(v, names, now, limit)[i])->0,
                names,
                now,
            ),
{
    let ids = claim::chosen(v, names, now, limit);
    let p = |r: SchedulerRun| claim::claimable(r, names, now);
    let key = |r: SchedulerRun| claim::claim_rank(r);
    consistency::lemma_distinct(v);
    selection::lemma_selected(v.runs, p, key, limit);
    selection::lemma_selected_distinct(v.runs, p, key, limit);
    assert forall|i: int| 0 <= i < ids.len() implies v.has_run(#[trigger] ids[i])
        && claim::claimable(v.run(ids[i])->0, names, now) by {
        consistency::lemma_found(v, ids[i]);
        let j = v.run_position(ids[i]);
        assert(ids.contains(v.runs[j].id));
        assert(p(v.runs[j]));
    }
}

/// Where no run has a fault, none of them has.
pub proof fn lemma_no_fault(v: TablesView, ids: Seq<RunId>, wall: Timestamp)
    requires
        claim::first_fault(v, ids, wall) is None,
    ensures
        forall|i: int|
            0 <= i < ids.len() ==> claim::grant_fault(v, #[trigger] ids[i], wall) is None,
    decreases ids.len(),
{
    if ids.len() > 0 {
        let init = ids.drop_last();
        lemma_no_fault(v, init, wall);
        assert forall|i: int| 0 <= i < ids.len() implies claim::grant_fault(
            v,
            #[trigger] ids[i],
            wall,
        ) is None by {
            if i < init.len() {
                assert(claim::grant_fault(v, init[i], wall) is None);
            }
        }
    }
}

/// Claiming keeps the tables consistent, whatever tokens were drawn.
pub proof fn law_claim_keeps_consistency(
    v: TablesView,
    clock: DbClock,
    worker: WorkerId,
    names: Seq<String>,
    limit: nat,
    tokens: Seq<LeaseToken>,
    after: TablesView,
    res: Result<Vec<ClaimedRun>, SchedulerError>,
)
    requires
        consistency::consistent(v),
        tokens.len() == claim::chosen(v, names, clock.now(), limit).len(),
        claim::settles(v, clock, worker, names, limit, tokens, after, res),
    ensures
        consistency::consistent(after),
{
    let ids = claim::chosen(v, names, clock.now(), limit);
    if claim::unused(v, tokens) && claim::first_fault(v, ids, clock.wall()) is None {
        lemma_chosen(v, names, clock.now(), limit);
        lemma_no_fault(v, ids, clock.wall());
        lemma_grants(v, worker, ids, tokens, clock.wall(), ids.len());
    }
}

} // verus!
