//! The errors of the queue, of jobs and of the router.
use crate::ids::Xid;
use crate::time::{Span, StdDuration};
use vstd::prelude::*;

verus! {

/// Errors of queue operations.
#[derive(Debug)]
pub enum QueueError {
    /// A job's payload could not be encoded; the message says why.
    EncodeError { message: String },
    /// A job's payload could not be decoded; the message says why.
    DecodeError { message: String },
    /// A polling interval below zero.
    InvalidInterval(Span),
    /// No job that the operation could act on has this id.
    JobNotFound(Xid),
    /// Any other failure of the queue's storage; the message says what failed.
    Other(String),
}

/// Errors of a job run by the router.
#[derive(Debug)]
pub enum JobError {
    /// The job's payload could not be decoded; the message says why.
    DecodeError { message: String },
    /// The job did not finish within its shutdown timeout after shutdown was requested.
    ShutdownTimeout(StdDuration),
    /// The job itself failed; the message says how.
    Other(String),
}

/// Errors of the router.
#[derive(Debug)]
pub enum RunnerError {
    /// No handler is registered for this job type.
    UnknownJobType(String),
    /// The queue failed while the job's outcome was recorded.
    QueueError(QueueError),
}

} // verus!
