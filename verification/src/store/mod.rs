//! The life of a run: claim, renewal, end, recovery, and the materialization of
//! recurring jobs into runs.
pub mod claim;
pub mod finalize;
pub mod inspect;
pub mod materialize;
pub mod reap;

pub use claim::{claim_batch, claim_one};
pub use finalize::{fail_run, finalize_run, renew_lease};
pub use inspect::{run_state, task_attempts};
pub use materialize::materialize_due_jobs;
pub use reap::{RecoverySummary, reap_expired, recover_expired};
