//! The life of one handler: heartbeats that renew its lease, and the loss of it.
use vstd::prelude::*;

use crate::error::SchedulerError;
use crate::models::{ClaimedRun, RenewalOutcome};
use crate::time::{Duration, Timestamp};

verus! {

/// How long a heartbeat waits under a lease of `lease` nanoseconds: a third of it,
/// but not without pause.
pub open spec fn heartbeat_nanos(lease: nat) -> nat {
    if lease / 3 == 0 {
        1_000
    } else {
        lease / 3
    }
}

/// How often a lease is renewed: three times in its length, but not without
/// pause.
pub fn heartbeat_interval(lease: Duration) -> (res: Duration)
    ensures
        res.nanos == heartbeat_nanos(lease.nanos as nat),
        res.nanos > 0,
{
    let third: Duration = Duration { nanos: lease.nanos / 3 };
    if third.is_zero() {
        Duration::from_micros(1)
    } else {
        third
    }
}

/// What came back when a heartbeat tried to renew a lease.
#[derive(Debug, Clone, PartialEq, Eq)]
pub enum RenewalReply {
    Renewed { lease_expires_at: Timestamp },
    Fenced,
    /// The renewal failed, or no connection was to be had.
    Unavailable(SchedulerError),
}

/// What a heartbeat decides about its run.
#[derive(Debug, Clone, Copy, PartialEq, Eq, Structural)]
pub enum Heartbeat {
    /// The handler goes on; its lease is known to last until then.
    Continue { lease_expires_at: Timestamp },
    /// The lease is lost: the handler is cancelled, and ends nothing.
    LeaseLost,
}

/// What became of asking the store for a renewal.
pub fn renewal_reply(outcome: Result<RenewalOutcome, SchedulerError>) -> (res: RenewalReply)
    ensures
        res == match outcome {
            Ok(RenewalOutcome::Renewed { lease_expires_at }) => RenewalReply::Renewed {
                lease_expires_at,
            },
            Ok(RenewalOutcome::Fenced) => RenewalReply::Fenced,
            Err(e) => RenewalReply::Unavailable(e),
        },
{
    match outcome {
        Ok(RenewalOutcome::Renewed { lease_expires_at }) => RenewalReply::Renewed {
            lease_expires_at,
        },
        Ok(RenewalOutcome::Fenced) => RenewalReply::Fenced,
        Err(e) => RenewalReply::Unavailable(e),
    }
}

/// The deadline that holds after `reply`.
pub open spec fn deadline_after(known: Timestamp, reply: RenewalReply) -> Timestamp {
    match reply {
        RenewalReply::Renewed { lease_expires_at } => lease_expires_at,
        _ => known,
    }
}

/// Decides about a run whose lease was known to last until `known`, when a
/// heartbeat at `host_now` brought `reply`. The lease is lost where the renewal was
/// fenced, or where the deadline has passed without one.
pub fn on_heartbeat(known: Timestamp, reply: &RenewalReply, host_now: Timestamp) -> (res: Heartbeat)
    ensures
        res == if *reply is Fenced || host_now.micros >= deadline_after(known, *reply).micros {
            Heartbeat::LeaseLost
        } else {
            Heartbeat::Continue { lease_expires_at: deadline_after(known, *reply) }
        },
{
    let lease_expires_at: Timestamp = match reply {
        RenewalReply::Renewed { lease_expires_at } => *lease_expires_at,
        RenewalReply::Fenced => return Heartbeat::LeaseLost,
        RenewalReply::Unavailable(_) => known,
    };
    if host_now.micros >= lease_expires_at.micros {
        Heartbeat::LeaseLost
    } else {
        Heartbeat::Continue { lease_expires_at }
    }
}

/// How the handler of a run stands.
#[derive(Debug, Clone, Copy, PartialEq, Eq, Structural)]
pub enum DispatchPhase {
    /// The handler runs.
    Running,
    /// The handler runs, and a renewal of its lease is on the way.
    Renewing,
    /// The handler has ended, and its end is recorded.
    Ended,
    /// The lease is lost, and the handler is cancelled.
    Lost,
}

/// What happens to the handler of a run.
#[derive(Debug, Clone, PartialEq, Eq)]
pub enum DispatchEvent {
    HandlerFinished,
    HeartbeatDue,
    /// The renewal came back when the clock of the host showed `host_now`.
    RenewalReturned { reply: RenewalReply, host_now: Timestamp },
}

/// What a worker does about the handler of a run.
#[derive(Debug, Clone, Copy, PartialEq, Eq, Structural)]
pub enum DispatchAction {
    /// Wait for the handler or the next heartbeat.
    Wait,
    /// Ask the store to renew the lease.
    Renew,
    /// Record how the handler ended.
    Record,
    /// Cancel the handler and leave the run to recovery.
    Cancel,
}

/// What is known of a running handler.
#[derive(Debug, Clone, Copy, PartialEq, Eq, Structural)]
pub struct DispatchLoop {
    pub phase: DispatchPhase,
    /// Until when the lease is known to last.
    pub lease_expires_at: Timestamp,
    /// How often it is renewed.
    pub heartbeat: Duration,
}

/// What `event` makes of a handler that stands as `state`, and what the worker
/// does about it. An event that does not belong to the phase changes nothing.
pub open spec fn dispatch_step(state: DispatchLoop, event: DispatchEvent) -> (
    DispatchLoop,
    DispatchAction,
) {
    match (state.phase, event) {
        (DispatchPhase::Running, DispatchEvent::HandlerFinished) => (
            DispatchLoop { phase: DispatchPhase::Ended, ..state },
            DispatchAction::Record,
        ),
        (DispatchPhase::Running, DispatchEvent::HeartbeatDue) => (
            DispatchLoop { phase: DispatchPhase::Renewing, ..state },
            DispatchAction::Renew,
        ),
        (DispatchPhase::Renewing, DispatchEvent::RenewalReturned { reply, host_now }) => if reply
            is Fenced || host_now.micros >= deadline_after(state.lease_expires_at, reply).micros {
            (
                DispatchLoop { phase: DispatchPhase::Lost, ..state },
                DispatchAction::Cancel,
            )
        } else {
            (
                DispatchLoop {
                    phase: DispatchPhase::Running,
                    lease_expires_at: deadline_after(state.lease_expires_at, reply),
                    ..state
                },
                DispatchAction::Wait,
            )
        },
        _ => (state, DispatchAction::Wait),
    }
}

impl DispatchLoop {
    /// A handler that has just started on `claimed`.
    pub fn start(claimed: &ClaimedRun) -> (res: Self)
        ensures
            res.phase == DispatchPhase::Running,
            res.lease_expires_at == claimed.lease_expires_at,
            res.heartbeat.nanos == heartbeat_nanos((claimed.lease_duration.micros() * 1_000) as nat),
            res.heartbeat.nanos > 0,
    {
        DispatchLoop {
            phase: DispatchPhase::Running,
            lease_expires_at: claimed.lease_expires_at,
            heartbeat: heartbeat_interval(claimed.lease_duration.as_duration()),
        }
    }

    /// Takes `event`, and tells what to do about the handler.
    pub fn on_event(&mut self, event: DispatchEvent) -> (res: DispatchAction)
        ensures
            (*final(self), res) == dispatch_step(*old(self), event),
    {
        match event {
            DispatchEvent::HandlerFinished => match self.phase {
                DispatchPhase::Running => {
                    self.phase = DispatchPhase::Ended;
                    DispatchAction::Record
                },
                _ => DispatchAction::Wait,
            },
            DispatchEvent::HeartbeatDue => match self.phase {
                DispatchPhase::Running => {
                    self.phase = DispatchPhase::Renewing;
                    DispatchAction::Renew
                },
                _ => DispatchAction::Wait,
            },
            DispatchEvent::RenewalReturned { reply, host_now } => match self.phase {
                DispatchPhase::Renewing => match on_heartbeat(
                    self.lease_expires_at,
                    &reply,
                    host_now,
                ) {
                    Heartbeat::Continue { lease_expires_at } => {
                        self.phase = DispatchPhase::Running;
                        self.lease_expires_at = lease_expires_at;
                        DispatchAction::Wait
                    },
                    Heartbeat::LeaseLost => {
                        self.phase = DispatchPhase::Lost;
                        DispatchAction::Cancel
                    },
                },
                _ => DispatchAction::Wait,
            },
        }
    }
}

} // verus!
