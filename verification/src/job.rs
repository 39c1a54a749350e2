//! What the router needs to know of a job handler besides how to run it.
use crate::time::StdDuration;
use vstd::prelude::*;

verus! {

/// Seconds a job may run on after shutdown is requested, unless its handler says otherwise.
pub const DEFAULT_SHUTDOWN_TIMEOUT_SECS: u64 = 1;

/// A job handler's settings: its job type, how often its jobs are retried, and how long they may
/// run on after shutdown is requested. Running a job is left to the caller's own trait.
pub trait JobHandler {
    /// How many times a failed job is retried before it moves to the dead queue; none unless
    /// the handler says otherwise.
    fn max_retries(&self) -> (r: u32)
        default_ensures
            r == 0,
    {
        0
    }

    /// How long a job may run on after shutdown is requested before it is stopped; one second
    /// unless the handler says otherwise.
    fn shutdown_timeout(&self) -> (r: StdDuration)
        default_ensures
            r.total() == DEFAULT_SHUTDOWN_TIMEOUT_SECS * 1_000_000_000,
    {
        StdDuration::from_secs(DEFAULT_SHUTDOWN_TIMEOUT_SECS)
    }

    /// The job type, which tells the handler's jobs apart from others in the queue.
    fn name() -> &'static str
        where Self: Sized;
}

} // verus!
