//! Counters. A step of the scheduler says which counter goes up and by how much;
//! the embedding program hands that on to its metrics backend.
use vstd::prelude::*;

verus! {

pub const RUNS_MATERIALIZED: &'static str = "pg_task_scheduler.runs.materialized";

pub const RUNS_CLAIMED: &'static str = "pg_task_scheduler.runs.claimed";

pub const RUNS_COMPLETED: &'static str = "pg_task_scheduler.runs.completed";

pub const RUNS_FAILED: &'static str = "pg_task_scheduler.runs.failed";

pub const RUNS_REQUEUED: &'static str = "pg_task_scheduler.runs.requeued";

pub const RUNS_REAPED: &'static str = "pg_task_scheduler.runs.reaped";

/// One increase of one counter.
#[derive(Debug, Clone, Copy, PartialEq, Eq)]
pub struct CounterUpdate {
    pub name: &'static str,
    pub amount: usize,
}

/// The increase of counter `name` by `n`, as far as the machine can count.
pub open spec fn counted(name: &'static str, n: int) -> CounterUpdate {
    CounterUpdate {
        name,
        amount: if n <= usize::MAX {
            n as usize
        } else {
            usize::MAX
        },
    }
}

/// Increases counter `name` by one.
pub fn incr(name: &'static str) -> (res: CounterUpdate)
    ensures
        res == counted(name, 1),
{
    CounterUpdate { name, amount: 1 }
}

/// Increases counter `name` by `n`, or by as much as the machine can count.
pub fn incr_by(name: &'static str, n: u64) -> (res: CounterUpdate)
    ensures
        res == counted(name, n as int),
{
    let most: u64 = usize::MAX as u64;
    if n <= most {
        CounterUpdate { name, amount: n as usize }
    } else {
        CounterUpdate { name, amount: usize::MAX }
    }
}

} // verus!
