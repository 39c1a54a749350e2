//! The job runner's decisions: how long each worker waits between polls, and what the runner
//! does when a worker slot frees up or shutdown is requested.
use crate::error::QueueError;
use crate::time::{span_in_range, Span, StdDuration};
use vstd::prelude::*;

verus! {

/// Milliseconds of jitter that may be added to a worker's polling interval.
pub const JITTER_INTERVAL_MS: [i64; 10] = [0, 1, 1, 2, 3, 5, 8, 13, 21, 34];

/// The jitter values, as a sequence.
pub open spec fn jitter_choices() -> Seq<i64> {
    seq![0, 1, 1, 2, 3, 5, 8, 13, 21, 34]
}

/// `rand::seq::SliceRandom::choose` with the thread's random generator, on a slice of
/// integers. Claimed, as its documentation says: `None` only for an empty slice, and otherwise
/// one of the slice's elements; which one is left to chance.
#[verifier::external_body]
fn choose_one(options: &[i64]) -> (r: Option<i64>)
    ensures
        r is None <==> options@.len() == 0,
        r matches Some(x) ==> options@.contains(x),
{
    rand::seq::SliceRandom::choose(options, &mut rand::thread_rng()).copied()
}

/// The jitter for a drawn value: `ms` milliseconds where a value was drawn, and 5 milliseconds
/// where none was.
pub fn jitter_of(choice: Option<i64>) -> (r: Span)
    requires
        choice matches Some(ms) ==> ms != i64::MIN,
    ensures
        choice matches Some(ms) ==> r.total() == ms * 1_000_000,
        choice is None ==> r.total() == 5_000_000,
{
    match choice {
        Some(ms) => Span::milliseconds(ms),
        None => Span::milliseconds(5),
    }
}

/// A random jitter: one of `JITTER_INTERVAL_MS` milliseconds, drawn by chance.
pub fn get_random_jitter() -> (r: Span)
    ensures
        exists|i: int| 0 <= i < 10 && r.total() == jitter_choices()[i] * 1_000_000,
{
    let options = JITTER_INTERVAL_MS;
    proof {
        assert(options@ =~= jitter_choices());
    }
    let choice = choose_one(&options);
    proof {
        if let Some(ms) = choice {
            let i = choose|i: int| 0 <= i < options@.len() && options@[i] == ms;
            assert(jitter_choices()[i] == ms);
        }
    }
    jitter_of(choice)
}

/// The polling interval of a new worker: `interval` plus the drawn `jitter`.
pub fn worker_poll_interval(interval: Span, jitter: Span) -> (r: Span)
    requires
        span_in_range(interval.total() + jitter.total()),
    ensures
        r.total() == interval.total() + jitter.total(),
{
    match interval.checked_add(&jitter) {
        Some(r) => r,
        None => interval,
    }
}

/// Options of the runner.
#[non_exhaustive]
#[derive(Clone, Copy, Debug)]
pub struct RunnerOptions {
    /// How long to wait for all workers to shut down gracefully once shutdown is requested;
    /// 15 seconds by default.
    pub worker_shutdown_timeout: StdDuration,
}

impl Default for RunnerOptions {
    fn default() -> (r: RunnerOptions)
        ensures
            r.worker_shutdown_timeout.total() == 15 * 1_000_000_000,
    {
        RunnerOptions { worker_shutdown_timeout: StdDuration::from_secs(15) }
    }
}

impl RunnerOptions {
    /// Options with the given graceful shutdown timeout.
    pub fn with_worker_shutdown_timeout(worker_shutdown_timeout: StdDuration) -> (r: RunnerOptions)
        ensures
            r.worker_shutdown_timeout == worker_shutdown_timeout,
    {
        RunnerOptions { worker_shutdown_timeout }
    }
}

/// What happened while the runner waited.
#[derive(Clone, Copy, Debug, PartialEq, Eq, Structural)]
pub enum RunnerEvent {
    /// A worker slot became free.
    PermitAcquired,
    /// The slots can no longer be handed out.
    PermitsClosed,
    /// Shutdown was requested.
    ShutdownRequested,
}

/// What the runner does next.
#[derive(Debug)]
pub enum RunnerStep {
    /// Start a worker that polls with this interval.
    SpawnWorker(Span),
    /// Cancel all workers and wait this long for them to finish, then return.
    Shutdown(StdDuration),
    /// Stop with this error.
    Fail(QueueError),
}

/// The runner's decision on `event`, for workers polling every `interval` plus the drawn
/// `jitter`.
pub fn runner_step(event: RunnerEvent, interval: Span, jitter: Span, options: &RunnerOptions) -> (r:
    RunnerStep)
    requires
        event == RunnerEvent::PermitAcquired ==> span_in_range(interval.total() + jitter.total()),
    ensures
        event == RunnerEvent::PermitAcquired ==> (r matches RunnerStep::SpawnWorker(w) && w.total()
            == interval.total() + jitter.total()),
        event == RunnerEvent::PermitsClosed ==> (r matches RunnerStep::Fail(e) && e is Other),
        event == RunnerEvent::ShutdownRequested ==> (r matches RunnerStep::Shutdown(d) && d
            == options.worker_shutdown_timeout),
{
    match event {
        RunnerEvent::PermitAcquired => RunnerStep::SpawnWorker(worker_poll_interval(interval, jitter)),
        RunnerEvent::PermitsClosed => RunnerStep::Fail(
            QueueError::Other("Semaphore closed while running".to_owned()),
        ),
        RunnerEvent::ShutdownRequested => RunnerStep::Shutdown(options.worker_shutdown_timeout),
    }
}

} // verus!
