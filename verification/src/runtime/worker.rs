//! The decisions of a worker: what a cycle does next, how many runs it claims and
//! which of them it starts, and how the end of a handler is recorded.
use vstd::prelude::*;

use crate::error::{JobError, SchedulerError};
use crate::ids::{LeaseToken, RunId, WorkerId};
use crate::metrics;
use crate::metrics::CounterUpdate;
use crate::models::{ClaimedRun, FailureOutcome, FinalizeOutcome, Outcome};
use crate::runtime::health;
use crate::runtime::health::{HealthStatus, WorkerHealth, stopped, update_health};
use crate::runtime::registry::Registry;
use crate::store::claim;
use crate::store::finalize;
use crate::store::materialize;
use crate::store::reap;
use crate::store::reap::RecoverySummary;
use crate::tables;
use crate::tables::{Tables, TablesView};
use crate::time::{DbClock, Timestamp};

verus! {

/// Most runs that one recovery of a worker takes.
pub const RECOVERY_LIMIT: usize = 1_000;

/// What a worker is doing.
#[derive(Debug, Clone, Copy, PartialEq, Eq, Structural)]
pub enum WorkerPhase {
    Waiting,
    Materializing,
    Recovering,
    Claiming,
    Draining,
    Aborting,
    Stopped,
}

/// What happens to a worker.
#[derive(Debug)]
pub enum WorkerEvent {
    ShutdownRequested,
    PollDue,
    RecoveryDue,
    HandlerJoined,
    /// What the worker was doing is done.
    Finished(Result<(), SchedulerError>),
    /// The time that handlers have to end after a shutdown is over.
    TimeUp,
    /// No handler is left.
    Drained,
}

/// What a worker does next.
#[derive(Debug, Clone, Copy, PartialEq, Eq, Structural)]
pub enum WorkerAction {
    /// Wait for the next event.
    Wait,
    /// Turn due jobs into runs.
    Materialize,
    /// Recover runs whose lease has expired.
    Recover,
    /// Claim runs and start their handlers.
    Claim,
    /// Publish the health of the cycle that is over, and wait for the next event.
    Report,
    /// Claim nothing more, and let the handlers end until the time is up.
    Drain,
    /// Abort the handlers that are left. Their leases are left to recovery.
    Abort,
    /// Publish that the worker has stopped.
    Stop,
}

/// What `event` makes of a worker in `phase`, and what it does next. An event that
/// does not belong to the phase changes nothing.
pub open spec fn transition(phase: WorkerPhase, event: WorkerEvent) -> (
    WorkerPhase,
    WorkerAction,
) {
    match (phase, event) {
        (WorkerPhase::Waiting, WorkerEvent::ShutdownRequested) => (
            WorkerPhase::Draining,
            WorkerAction::Drain,
        ),
        (WorkerPhase::Waiting, WorkerEvent::PollDue) => (
            WorkerPhase::Materializing,
            WorkerAction::Materialize,
        ),
        (WorkerPhase::Waiting, WorkerEvent::RecoveryDue) => (
            WorkerPhase::Recovering,
            WorkerAction::Recover,
        ),
        (WorkerPhase::Waiting, WorkerEvent::HandlerJoined) => (
            WorkerPhase::Claiming,
            WorkerAction::Claim,
        ),
        (WorkerPhase::Materializing, WorkerEvent::Finished(Ok(()))) => (
            WorkerPhase::Claiming,
            WorkerAction::Claim,
        ),
        (WorkerPhase::Recovering, WorkerEvent::Finished(Ok(()))) => (
            WorkerPhase::Claiming,
            WorkerAction::Claim,
        ),
        (WorkerPhase::Materializing, WorkerEvent::Finished(Err(_))) => (
            WorkerPhase::Waiting,
            WorkerAction::Report,
        ),
        (WorkerPhase::Recovering, WorkerEvent::Finished(Err(_))) => (
            WorkerPhase::Waiting,
            WorkerAction::Report,
        ),
        (WorkerPhase::Claiming, WorkerEvent::Finished(_)) => (
            WorkerPhase::Waiting,
            WorkerAction::Report,
        ),
        (WorkerPhase::Draining, WorkerEvent::TimeUp) => (
            WorkerPhase::Aborting,
            WorkerAction::Abort,
        ),
        (WorkerPhase::Draining, WorkerEvent::Drained) => (
            WorkerPhase::Stopped,
            WorkerAction::Stop,
        ),
        (WorkerPhase::Aborting, WorkerEvent::Drained) => (
            WorkerPhase::Stopped,
            WorkerAction::Stop,
        ),
        _ => (phase, WorkerAction::Wait),
    }
}

/// The state of a worker between events.
#[derive(Debug)]
pub struct WorkerLoop {
    pub phase: WorkerPhase,
    /// Failed cycles in a row.
    pub failures: u64,
    /// What was last published.
    pub health: WorkerHealth,
}

impl WorkerLoop {
    pub fn new() -> (res: Self)
        ensures
            res.phase == WorkerPhase::Waiting,
            res.failures == 0,
            res.health == (WorkerHealth {
                status: HealthStatus::Starting,
                consecutive_failures: 0,
                last_error: None,
            }),
    {
        WorkerLoop { phase: WorkerPhase::Waiting, failures: 0, health: WorkerHealth::default() }
    }

    /// Takes `event`, and tells what to do next. A cycle in which something failed
    /// claims nothing and degrades the health; a good one restores it.
    pub fn on_event(&mut self, event: WorkerEvent) -> (res: WorkerAction)
        ensures
            (final(self).phase, res) == transition(old(self).phase, event),
            match res {
                WorkerAction::Report => match event->Finished_0 {
                    Ok(()) => {
                        &&& final(self).failures == 0
                        &&& final(self).health == (WorkerHealth {
                            status: HealthStatus::Healthy,
                            consecutive_failures: 0,
                            last_error: None,
                        })
                    },
                    Err(e) => {
                        &&& final(self).failures == health::one_more(old(self).failures)
                        &&& final(self).health.status == HealthStatus::Degraded
                        &&& final(self).health.consecutive_failures == final(self).failures
                        &&& final(self).health.last_error is Some
                        &&& final(self).health.last_error->0@ == e.message()
                    },
                },
                WorkerAction::Stop => {
                    &&& final(self).failures == old(self).failures
                    &&& final(self).health == (WorkerHealth {
                        status: HealthStatus::Stopped,
                        consecutive_failures: old(self).failures,
                        last_error: None,
                    })
                },
                _ => {
                    &&& final(self).failures == old(self).failures
                    &&& final(self).health == old(self).health
                },
            },
    {
        match event {
            WorkerEvent::Finished(result) => match self.phase {
                WorkerPhase::Materializing | WorkerPhase::Recovering => match result {
                    Ok(()) => {
                        self.phase = WorkerPhase::Claiming;
                        WorkerAction::Claim
                    },
                    Err(e) => {
                        self.phase = WorkerPhase::Waiting;
                        self.health = update_health(&mut self.failures, Some(&e));
                        WorkerAction::Report
                    },
                },
                WorkerPhase::Claiming => {
                    self.phase = WorkerPhase::Waiting;
                    self.health = match result {
                        Ok(()) => update_health(&mut self.failures, None),
                        Err(e) => update_health(&mut self.failures, Some(&e)),
                    };
                    WorkerAction::Report
                },
                _ => WorkerAction::Wait,
            },
            WorkerEvent::TimeUp => match self.phase {
                WorkerPhase::Draining => {
                    self.phase = WorkerPhase::Aborting;
                    WorkerAction::Abort
                },
                _ => WorkerAction::Wait,
            },
            WorkerEvent::Drained => match self.phase {
                WorkerPhase::Draining | WorkerPhase::Aborting => {
                    self.phase = WorkerPhase::Stopped;
                    self.health = stopped(self.failures);
                    WorkerAction::Stop
                },
                _ => WorkerAction::Wait,
            },
            WorkerEvent::ShutdownRequested => match self.phase {
                WorkerPhase::Waiting => {
                    self.phase = WorkerPhase::Draining;
                    WorkerAction::Drain
                },
                _ => WorkerAction::Wait,
            },
            WorkerEvent::PollDue => match self.phase {
                WorkerPhase::Waiting => {
                    self.phase = WorkerPhase::Materializing;
                    WorkerAction::Materialize
                },
                _ => WorkerAction::Wait,
            },
            WorkerEvent::RecoveryDue => match self.phase {
                WorkerPhase::Waiting => {
                    self.phase = WorkerPhase::Recovering;
                    WorkerAction::Recover
                },
                _ => WorkerAction::Wait,
            },
            WorkerEvent::HandlerJoined => match self.phase {
                WorkerPhase::Waiting => {
                    self.phase = WorkerPhase::Claiming;
                    WorkerAction::Claim
                },
                _ => WorkerAction::Wait,
            },
        }
    }
}

/// The increase of counter `name` by `count`, where there is anything to count.
pub open spec fn update_for(name: &'static str, count: usize) -> Option<CounterUpdate> {
    if count > 0 {
        Some(metrics::counted(name, count as int))
    } else {
        None
    }
}

fn count_up(name: &'static str, count: usize) -> (res: Option<CounterUpdate>)
    ensures
        res == update_for(name, count),
{
    if count > 0 {
        Some(metrics::incr_by(name, count as u64))
    } else {
        None
    }
}

/// Which counter goes up after a materialization that gave `count`.
pub fn materialized(count: Result<usize, SchedulerError>) -> (res: Result<
    Option<CounterUpdate>,
    SchedulerError,
>)
    ensures
        res == match count {
            Ok(count) => Ok::<Option<CounterUpdate>, SchedulerError>(
                update_for(metrics::RUNS_MATERIALIZED, count),
            ),
            Err(e) => Err(e),
        },
{
    match count {
        Ok(count) => Ok(count_up(metrics::RUNS_MATERIALIZED, count)),
        Err(e) => Err(e),
    }
}

/// Turns due jobs into runs, and tells which counter goes up.
pub fn materialize(tables: &mut Tables, clock: &DbClock) -> (res: Result<
    Option<CounterUpdate>,
    SchedulerError,
>)
    requires
        materialize::can_advance(old(tables).jobs@, clock.now()),
    ensures
        exists|run_ids: Seq<RunId>| #[trigger]
            materialize::are_drawn(run_ids) && {
                let effect = materialize::batch_effect(old(tables)@, clock.now(), run_ids);
                &&& final(tables)@ == effect.0
                &&& res == match effect.1 {
                    Ok(count) => Ok::<Option<CounterUpdate>, SchedulerError>(
                        update_for(metrics::RUNS_MATERIALIZED, count),
                    ),
                    Err(e) => Err(e),
                }
            },
{
    materialized(materialize::materialize_due_jobs(tables, clock))
}

/// The counters that go up after a recovery.
#[derive(Debug, Clone, Copy, PartialEq, Eq)]
pub struct RecoveryUpdates {
    /// For the runs that are pending again.
    pub requeued: Option<CounterUpdate>,
    /// For the runs that failed.
    pub reaped: Option<CounterUpdate>,
}

/// Recovers runs whose lease has expired, and tells which counters go up.
pub fn recover_leases(tables: &mut Tables, clock: &DbClock) -> (res: Result<
    RecoveryUpdates,
    SchedulerError,
>)
    ensures
        res is Ok,
        exists|summary: RecoverySummary|
            {
                &&& #[trigger] reap::recovery(
                    old(tables)@,
                    clock.wall(),
                    RECOVERY_LIMIT as nat,
                    final(tables)@,
                    summary,
                )
                &&& res->Ok_0.requeued == update_for(metrics::RUNS_REQUEUED, summary.requeued)
                &&& res->Ok_0.reaped == update_for(metrics::RUNS_REAPED, summary.failed)
            },
{
    match reap::recover_expired(tables, clock, RECOVERY_LIMIT) {
        Ok(summary) => Ok(
            RecoveryUpdates {
                requeued: count_up(metrics::RUNS_REQUEUED, summary.requeued),
                reaped: count_up(metrics::RUNS_REAPED, summary.failed),
            },
        ),
        Err(e) => Err(e),
    }
}

/// How many of `claimed` are started: those before the first that cannot be.
pub open spec fn started_count<H>(
    claimed: Seq<ClaimedRun>,
    permits: nat,
    handlers: Map<Seq<char>, H>,
) -> int {
    let with_handler = tables::first_position(
        claimed,
        |c: ClaimedRun| !handlers.dom().contains(c.job_name@),
    );
    if with_handler <= permits {
        with_handler
    } else {
        permits as int
    }
}

/// What a worker does with the runs it has claimed.
#[derive(Debug)]
pub struct DispatchPlan {
    /// The runs whose handlers start, in order, one permit each.
    pub started: Vec<ClaimedRun>,
    /// The counter that goes up for each of them.
    pub update: CounterUpdate,
    /// Why the runs behind them are not started, if there are any.
    pub error: Option<SchedulerError>,
}

/// Whether `plan` is what a worker with `permits` and `handlers` does with
/// `claimed`.
pub open spec fn plans<H>(
    claimed: Seq<ClaimedRun>,
    permits: nat,
    handlers: Map<Seq<char>, H>,
    plan: DispatchPlan,
) -> bool {
    let n = started_count(claimed, permits, handlers);
    &&& plan.started@ == claimed.take(n)
    &&& n <= permits
    &&& plan.update == metrics::counted(metrics::RUNS_CLAIMED, 1)
    &&& plan.error == if n == claimed.len() {
        None::<SchedulerError>
    } else if n == permits {
        Some(SchedulerError::Invariant("claimed more tasks than worker capacity"))
    } else {
        Some(SchedulerError::Invariant("claimed task has no registered handler"))
    }
}

/// Decides which of the runs just claimed are started. Each takes one of the
/// `permits` and the handler registered for its name. The first run that lacks one
/// of them ends the dispatch.
pub fn plan_dispatch<H>(
    claimed: Vec<ClaimedRun>,
    permits: usize,
    registry: &Registry<H>,
) -> (res: DispatchPlan)
    ensures
        plans(claimed@, permits as nat, registry@, res),
{
    let ghost all = claimed@;
    let ghost unknown = |c: ClaimedRun| !registry@.dom().contains(c.job_name@);
    let update = metrics::incr(metrics::RUNS_CLAIMED);
    let mut started: Vec<ClaimedRun> = claimed;
    let mut i: usize = 0;
    while i < started.len()
        invariant
            i <= started@.len(),
            i <= permits,
            started@ == all,
            all == claimed@,
            unknown == (|c: ClaimedRun| !registry@.dom().contains(c.job_name@)),
            update == metrics::counted(metrics::RUNS_CLAIMED, 1),
            forall|j: int| 0 <= j < i ==> !unknown(#[trigger] all[j]),
        decreases started@.len() - i,
    {
        if i == permits {
            proof {
                tables::lemma_first_position(all, unknown);
            }
            started.truncate(i);
            return DispatchPlan {
                started,
                update,
                error: Some(SchedulerError::Invariant("claimed more tasks than worker capacity")),
            };
        }
        if registry.get(&started[i].job_name).is_none() {
            proof {
                tables::lemma_is_first_position(all, unknown, i as int);
            }
            started.truncate(i);
            return DispatchPlan {
                started,
                update,
                error: Some(SchedulerError::Invariant("claimed task has no registered handler")),
            };
        }
        i = i + 1;
    }
    proof {
        tables::lemma_is_first_position(all, unknown, i as int);
        assert(all.take(i as int) =~= all);
    }
    DispatchPlan { started, update, error: None }
}

/// Claims as many runs as there are permits, for the names that have handlers, and
/// decides which of them are started. Without a free permit nothing is claimed.
pub fn claim_and_dispatch<H>(
    tables: &mut Tables,
    clock: &DbClock,
    registry: &Registry<H>,
    names: &[String],
    worker_id: &WorkerId,
    permits: usize,
) -> (res: Result<Option<DispatchPlan>, SchedulerError>)
    ensures
        permits == 0 ==> final(tables)@ == old(tables)@ && res == Ok::<
            Option<DispatchPlan>,
            SchedulerError,
        >(None),
        permits > i64::MAX ==> final(tables)@ == old(tables)@ && res is Err && res->Err_0
            is Config && res->Err_0->Config_0@ == "claim batch is too large"@,
        0 < permits <= i64::MAX ==> exists|
            tokens: Seq<LeaseToken>,
            batch: Result<Vec<ClaimedRun>, SchedulerError>,
        |
            {
                &&& #[trigger] claim::draws(
                    old(tables)@,
                    *clock,
                    *worker_id,
                    names@,
                    permits as nat,
                    tokens,
                    final(tables)@,
                    batch,
                )
                &&& match batch {
                    Ok(claimed) => {
                        &&& res is Ok
                        &&& res->Ok_0 is Some
                        &&& plans(claimed@, permits as nat, registry@, res->Ok_0->0)
                    },
                    Err(e) => res == Err::<Option<DispatchPlan>, SchedulerError>(e),
                }
            },
{
    if permits == 0 {
        return Ok(None);
    }
    match claim::claim_batch(tables, clock, worker_id, names, permits) {
        Ok(claimed) => Ok(Some(plan_dispatch(claimed, permits, registry))),
        Err(e) => Err(e),
    }
}

/// What became of the end of a handler.
#[derive(Debug)]
pub enum HandlerEnd {
    /// It was recorded; this counter goes up.
    Recorded(CounterUpdate),
    /// The run had ended, or is under another lease.
    Fenced,
    /// It could not be recorded.
    Lost(SchedulerError),
}

/// What recording the completion of a run amounts to.
pub open spec fn completion_end(res: Result<FinalizeOutcome, SchedulerError>) -> HandlerEnd {
    match res {
        Ok(FinalizeOutcome::Applied) => HandlerEnd::Recorded(
            metrics::counted(metrics::RUNS_COMPLETED, 1),
        ),
        Ok(_) => HandlerEnd::Fenced,
        Err(e) => HandlerEnd::Lost(e),
    }
}

/// What recording the failure of a run amounts to.
pub open spec fn failure_end(res: Result<FailureOutcome, SchedulerError>) -> HandlerEnd {
    match res {
        Ok(FailureOutcome::Retried { .. }) => HandlerEnd::Recorded(
            metrics::counted(metrics::RUNS_REQUEUED, 1),
        ),
        Ok(FailureOutcome::Failed) => HandlerEnd::Recorded(
            metrics::counted(metrics::RUNS_FAILED, 1),
        ),
        Ok(_) => HandlerEnd::Fenced,
        Err(e) => HandlerEnd::Lost(e),
    }
}

/// Whether recording `result` of the handler of `claimed` takes `v` to `after` and
/// amounts to `end`.
pub open spec fn records(
    v: TablesView,
    wall: Timestamp,
    claimed: ClaimedRun,
    result: Result<(), JobError>,
    after: TablesView,
    end: HandlerEnd,
) -> bool {
    match result {
        Ok(()) => {
            let effect = finalize::finalize_effect(
                v,
                wall,
                claimed.run_id,
                claimed.lease_token,
                Outcome::Completed,
            );
            after == effect.0 && end == completion_end(effect.1)
        },
        Err(e) => exists|error: String|
            {
                let effect = #[trigger] finalize::fail_effect(
                    v,
                    wall,
                    claimed.run_id,
                    claimed.lease_token,
                    error,
                    e.is_retryable(),
                );
                error@ == e.message() && after == effect.0 && end == failure_end(effect.1)
            },
    }
}

/// Records the end of the handler of `claimed`: completion, or failure with the
/// text of its error.
pub fn finalize_handler(
    tables: &mut Tables,
    clock: &DbClock,
    claimed: &ClaimedRun,
    result: Result<(), JobError>,
) -> (res: HandlerEnd)
    ensures
        records(old(tables)@, clock.wall(), *claimed, result, final(tables)@, res),
{
    match result {
        Ok(()) => {
            let outcome = finalize::finalize_run(
                tables,
                clock,
                claimed.run_id,
                claimed.lease_token,
                Outcome::Completed,
            );
            match outcome {
                Ok(FinalizeOutcome::Applied) => HandlerEnd::Recorded(
                    metrics::incr(metrics::RUNS_COMPLETED),
                ),
                Ok(FinalizeOutcome::Fenced) | Ok(FinalizeOutcome::AlreadyTerminal) =>
                    HandlerEnd::Fenced,
                Err(e) => HandlerEnd::Lost(e),
            }
        },
        Err(error) => {
            let retryable = error.is_retryable();
            let text = error.to_string();
            let outcome = finalize::fail_run(
                tables,
                clock,
                claimed.run_id,
                claimed.lease_token,
                text,
                retryable,
            );
            match outcome {
                Ok(FailureOutcome::Retried { .. }) => HandlerEnd::Recorded(
                    metrics::incr(metrics::RUNS_REQUEUED),
                ),
                Ok(FailureOutcome::Failed) => HandlerEnd::Recorded(
                    metrics::incr(metrics::RUNS_FAILED),
                ),
                Ok(FailureOutcome::Fenced) | Ok(FailureOutcome::AlreadyTerminal) =>
                    HandlerEnd::Fenced,
                Err(e) => HandlerEnd::Lost(e),
            }
        },
    }
}

} // verus!
