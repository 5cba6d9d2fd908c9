//! Health of a worker.
use vstd::prelude::*;

use crate::error::SchedulerError;

verus! {

#[derive(Debug, Clone, Copy, PartialEq, Eq, Structural)]
pub enum HealthStatus {
    Starting,
    Healthy,
    Degraded,
    Stopped,
}

/// How a worker is doing.
#[derive(Debug, Clone, PartialEq, Eq)]
pub struct WorkerHealth {
    pub status: HealthStatus,
    pub consecutive_failures: u64,
    pub last_error: Option<String>,
}

impl Default for WorkerHealth {
    fn default() -> (res: Self)
        ensures
            res == (WorkerHealth {
                status: HealthStatus::Starting,
                consecutive_failures: 0,
                last_error: None,
            }),
    {
        WorkerHealth { status: HealthStatus::Starting, consecutive_failures: 0, last_error: None }
    }
}

/// One failed cycle more, as far as the counter goes.
pub open spec fn one_more(failures: u64) -> u64 {
    if failures == u64::MAX {
        u64::MAX
    } else {
        (failures + 1) as u64
    }
}

/// The health after a cycle that ended with `error`, or without one. A failed
/// cycle degrades the worker and is counted; a good one starts the count over.
pub fn update_health(failures: &mut u64, error: Option<&SchedulerError>) -> (res: WorkerHealth)
    ensures
        match error {
            Some(e) => {
                &&& *final(failures) == one_more(*old(failures))
                &&& res.status == HealthStatus::Degraded
                &&& res.consecutive_failures == *final(failures)
                &&& res.last_error is Some
                &&& res.last_error->0@ == e.message()
            },
            None => {
                &&& *final(failures) == 0
                &&& res == (WorkerHealth {
                    status: HealthStatus::Healthy,
                    consecutive_failures: 0,
                    last_error: None,
                })
            },
        },
{
    match error {
        Some(error) => {
            if *failures < u64::MAX {
                *failures = *failures + 1;
            }
            WorkerHealth {
                status: HealthStatus::Degraded,
                consecutive_failures: *failures,
                last_error: Some(error.to_string()),
            }
        },
        None => {
            *failures = 0;
            WorkerHealth {
                status: HealthStatus::Healthy,
                consecutive_failures: 0,
                last_error: None,
            }
        },
    }
}

/// The health of a worker that has stopped after `failures` failed cycles in a
/// row.
pub fn stopped(failures: u64) -> (res: WorkerHealth)
    ensures
        res == (WorkerHealth {
            status: HealthStatus::Stopped,
            consecutive_failures: failures,
            last_error: None,
        }),
{
    WorkerHealth { status: HealthStatus::Stopped, consecutive_failures: failures, last_error: None }
}

} // verus!
