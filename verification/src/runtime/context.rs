//! What a handler learns about the run it executes.
use vstd::prelude::*;

use crate::ids::{JobId, JobName, LeaseToken, RunId};
use crate::models::ClaimedRun;
use crate::time::Timestamp;

verus! {

/// The run that a handler executes. `run_id` and `scheduled_for` are the same at
/// every attempt of the run.
#[derive(Debug, Clone, PartialEq, Eq)]
pub struct JobContext {
    pub run_id: RunId,
    pub job_id: Option<JobId>,
    pub job_name: JobName,
    pub scheduled_for: Timestamp,
    pub attempt: u32,
    pub lease_token: LeaseToken,
    pub lease_expires_at: Timestamp,
}

impl JobContext {
    /// What the handler of `claimed` learns.
    pub fn of(claimed: &ClaimedRun) -> (res: Self)
        ensures
            res == (JobContext {
                run_id: claimed.run_id,
                job_id: claimed.job_id,
                job_name: claimed.job_name,
                scheduled_for: claimed.scheduled_for,
                attempt: claimed.attempt,
                lease_token: claimed.lease_token,
                lease_expires_at: claimed.lease_expires_at,
            }),
    {
        JobContext {
            run_id: claimed.run_id,
            job_id: claimed.job_id,
            job_name: claimed.job_name.clone(),
            scheduled_for: claimed.scheduled_for,
            attempt: claimed.attempt,
            lease_token: claimed.lease_token,
            lease_expires_at: claimed.lease_expires_at,
        }
    }
}

} // verus!
