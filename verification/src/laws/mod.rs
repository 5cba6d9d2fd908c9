//! Laws of the queue: what holds of its operations together.
pub mod asking;
pub mod batch;
pub mod claiming;
pub mod deciding;
pub mod dispatch;
pub mod due;
pub mod fencing;
pub mod granting;
pub mod holding;
pub mod keeping;
pub mod producing;
pub mod reading;
pub mod recovery;
pub mod recurring;
pub mod reviving;
pub mod schedule;
pub mod snapshot;
pub mod storing;
pub mod taking;
