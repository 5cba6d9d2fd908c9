//! Dispatch: a worker starts everything it claims, within its capacity, and gives
//! up what it has lost.
use vstd::prelude::*;

use crate::consistency;
use crate::error::SchedulerError;
use crate::ids::{LeaseToken, WorkerId};
use crate::laws::claiming;
use crate::laws::granting;
use crate::models::ClaimedRun;
use crate::policy;
use crate::runtime::dispatch;
use crate::runtime::registry;
use crate::runtime::worker;
use crate::store::claim;
use crate::tables;
use crate::tables::TablesView;
use crate::time::DbClock;

verus! {

/// No more runs are started than there are permits.
pub proof fn law_capacity_is_never_exceeded<H>(
    claimed: Seq<ClaimedRun>,
    permits: nat,
    handlers: Map<Seq<char>, H>,
)
    ensures
        0 <= worker::started_count(claimed, permits, handlers) <= permits,
        worker::started_count(claimed, permits, handlers) <= claimed.len(),
{
    tables::lemma_first_position(
        claimed,
        |c: ClaimedRun| !handlers.dom().contains(c.job_name@),
    );
}

/// A worker that claims as many runs as it has permits, for the names it has
/// handlers for, starts all it gets: it never claims work it cannot run.
pub proof fn law_everything_claimed_is_started<H>(
    v: TablesView,
    clock: DbClock,
    worker_id: WorkerId,
    names: Seq<String>,
    permits: nat,
    tokens: Seq<LeaseToken>,
    after: TablesView,
    res: Result<Vec<ClaimedRun>, SchedulerError>,
    handlers: Map<Seq<char>, H>,
)
    requires
        consistency::consistent(v),
        tokens.len() == claim::chosen(v, names, clock.now(), permits).len(),
        claim::unused(v, tokens),
        claim::claims(v, clock, worker_id, names, permits, tokens, after, res),
        claiming::goes_through(
            v,
            claim::chosen(v, names, clock.now(), permits),
            clock.wall(),
        ),
        forall|i: int|
            0 <= i < v.runs.len() ==> policy::stored_lease_rejection(
                (#[trigger] v.runs[i]).lease_duration,
            ) is None,
        registry::lists_names(names, handlers),
    ensures
        res is Ok,
        worker::started_count(res->Ok_0@, permits, handlers) == res->Ok_0@.len(),
{
    let ids = claim::chosen(v, names, clock.now(), permits);
    claiming::law_claims_hand_out_what_they_took(
        v,
        clock,
        worker_id,
        names,
        permits,
        tokens,
        after,
        res,
    );
    granting::lemma_chosen(v, names, clock.now(), permits);
    let claimed = res->Ok_0@;
    let unknown = |c: ClaimedRun| !handlers.dom().contains(c.job_name@);
    assert forall|j: int| 0 <= j < claimed.len() implies !unknown(#[trigger] claimed[j]) by {
        let id = claimed[j].run_id;
        let n = choose|n: int| 0 <= n < ids.len() && ids[n] == id;
        assert(v.has_run(ids[n]));
        assert(claim::claimable(v.run(ids[n])->0, names, clock.now()));
        claiming::law_claims_grant_leases(
            v,
            clock,
            worker_id,
            names,
            permits,
            tokens,
            after,
            res,
            id,
        );
        assert(claimed[j].job_name == v.run(id)->0.job_name);
        let i = choose|i: int|
            0 <= i < names.len() && (#[trigger] names[i])@ == v.run(id)->0.job_name@;
        assert(handlers.dom().contains(names[i]@));
    }
    tables::lemma_is_first_position(claimed, unknown, claimed.len() as int);
}

/// A cycle in which something failed claims nothing.
pub proof fn law_a_failed_cycle_claims_nothing(
    phase: worker::WorkerPhase,
    error: SchedulerError,
)
    ensures
        !(worker::transition(phase, worker::WorkerEvent::Finished(Err(error))).1 is Claim),
{
}

/// Whether a worker in `phase` has been asked to shut down.
pub open spec fn is_shutting_down(phase: worker::WorkerPhase) -> bool {
    phase is Draining || phase is Aborting || phase is Stopped
}

/// Once shutdown was asked for, a worker makes, recovers and claims nothing more,
/// whatever happens.
pub proof fn law_nothing_is_claimed_after_shutdown(
    phase: worker::WorkerPhase,
    event: worker::WorkerEvent,
)
    requires
        is_shutting_down(phase),
    ensures
        ({
            let (next, action) = worker::transition(phase, event);
            &&& is_shutting_down(next)
            &&& !(action is Claim) && !(action is Materialize) && !(action is Recover)
        }),
{
}

/// A worker that shuts down drains its handlers until the time is up, and then aborts
/// those that are left: handlers are aborted when, and only when, the time is up while
/// some are draining. It stops once none is left, and not before.
pub proof fn law_shutdown_drains_then_aborts(
    phase: worker::WorkerPhase,
    event: worker::WorkerEvent,
)
    ensures
        ({
            let (next, action) = worker::transition(phase, event);
            &&& action is Drain <==> phase is Waiting && event is ShutdownRequested
            &&& action is Drain ==> next is Draining
            &&& action is Abort <==> phase is Draining && event is TimeUp
            &&& action is Abort ==> next is Aborting
            &&& action is Stop <==> (phase is Draining || phase is Aborting) && event is Drained
            &&& action is Stop ==> next is Stopped
            &&& phase is Draining && !(event is TimeUp) && !(event is Drained) ==> next is Draining
            &&& phase is Aborting && !(event is Drained) ==> next is Aborting
            &&& phase is Stopped ==> next is Stopped && action is Wait
        }),
{
}

/// A handler that lost its lease, or whose end was recorded, is never recorded
/// again, whatever happens.
pub proof fn law_an_end_is_recorded_at_most_once(
    state: dispatch::DispatchLoop,
    event: dispatch::DispatchEvent,
)
    requires
        state.phase is Lost || state.phase is Ended,
    ensures
        dispatch::dispatch_step(state, event) == (state, dispatch::DispatchAction::Wait),
{
}

/// A handler is cancelled only where its renewal was fenced, or where the time its
/// lease was known to last is over.
pub proof fn law_only_a_lost_lease_cancels(
    state: dispatch::DispatchLoop,
    event: dispatch::DispatchEvent,
)
    ensures
        dispatch::dispatch_step(state, event).1 is Cancel <==> state.phase is Renewing
            && event is RenewalReturned && (event->reply is Fenced || event->host_now.micros
            >= dispatch::deadline_after(state.lease_expires_at, event->reply).micros),
{
}

/// A heartbeat comes before the lease it renews is over, and leaves a pause. That
/// is so for every lease of three nanoseconds or more, and so for all that can be
/// stored, which count whole microseconds.
pub proof fn law_heartbeats_come_in_time(lease: nat)
    requires
        lease >= 3,
    ensures
        0 < dispatch::heartbeat_nanos(lease) < lease,
{
}

} // verus!
