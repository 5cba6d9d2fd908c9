//! Immutable snapshots: no transition changes what a run is or how it is to be
//! executed.
use vstd::prelude::*;

use crate::consistency;
use crate::error::SchedulerError;
use crate::ids::{LeaseToken, RunId, WorkerId};
use crate::laws::granting;
use crate::models::{ClaimedRun, Outcome};
use crate::queue;
use crate::store::claim;
use crate::store::finalize;
use crate::store::reap;
use crate::tables::TablesView;
use crate::time::{DbClock, Timestamp};

verus! {

/// Completion, failure, renewal and cancellation leave the identity, arguments,
/// slot, priority, attempts, lease and backoff of every run as they were.
pub proof fn law_transitions_keep_the_snapshot(
    v: TablesView,
    wall: Timestamp,
    id: RunId,
    token: LeaseToken,
    outcome: Outcome,
    error: String,
    retryable: bool,
)
    ensures
        consistency::same_runs(v, finalize::finalize_effect(v, wall, id, token, outcome).0),
        consistency::same_runs(v, finalize::fail_effect(v, wall, id, token, error, retryable).0),
        consistency::same_runs(v, finalize::renew_effect(v, wall, id, token).0),
        consistency::same_runs(v, queue::cancel_effect(v, wall, id).0),
{
    consistency::lemma_found(v, id);
}

/// Recovery leaves the snapshot of every run as it was.
pub proof fn law_recovery_keeps_the_snapshot(
    v: TablesView,
    wall: Timestamp,
    limit: nat,
    after: TablesView,
    summary: reap::RecoverySummary,
)
    requires
        reap::recovery(v, wall, limit, after, summary),
    ensures
        consistency::same_runs(v, after),
{
}

/// A claim leaves the snapshot of every run as it was: the identifier of a run is
/// the same at every attempt.
pub proof fn law_claims_keep_the_snapshot(
    v: TablesView,
    clock: DbClock,
    worker: WorkerId,
    names: Seq<String>,
    limit: nat,
    tokens: Seq<LeaseToken>,
    after: TablesView,
    res: Result<Vec<ClaimedRun>, SchedulerError>,
)
    requires
        consistency::consistent(v),
        tokens.len() == claim::chosen(v, names, clock.now(), limit).len(),
        claim::settles(v, clock, worker, names, limit, tokens, after, res),
    ensures
        consistency::same_runs(v, after),
{
    let ids = claim::chosen(v, names, clock.now(), limit);
    if claim::unused(v, tokens) && claim::first_fault(v, ids, clock.wall()) is None {
        granting::lemma_chosen(v, names, clock.now(), limit);
        granting::lemma_no_fault(v, ids, clock.wall());
        granting::lemma_grants(v, worker, ids, tokens, clock.wall(), ids.len());
        consistency::lemma_distinct(v);
        assert(ids.take(ids.len() as int) =~= ids);
        assert forall|j: int| 0 <= j < v.runs.len() implies consistency::same_run(
            v.runs[j],
            #[trigger] after.runs[j],
        ) by {
            if ids.contains(v.runs[j].id) {
                let i = choose|i: int| 0 <= i < ids.len() && ids[i] == v.runs[j].id;
                consistency::lemma_position(v, j);
                assert(after.runs[v.run_position(ids[i])] == claim::granted(
                    v.run(ids[i])->0,
                    worker,
                    tokens[i],
                    clock.wall(),
                ));
            } else {
                assert(after.runs[j] == v.runs[j]);
            }
        }
    }
}

} // verus!
