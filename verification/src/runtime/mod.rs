//! What a worker decides: which handlers it has, how it is configured, when it
//! claims, renews and ends runs, and how healthy it is.
pub mod builder;
pub mod context;
pub mod dispatch;
pub mod health;
pub mod registry;
pub mod worker;

pub use builder::{Scheduler, SchedulerBuilder};
pub use context::JobContext;
pub use health::{HealthStatus, WorkerHealth};
pub use registry::Registry;
