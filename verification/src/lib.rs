//! A backend-agnostic delayed job queue: the queue's table, the job router, the runner's
//! decisions and the in-memory schedule store, with their contracts proved by Verus.
pub mod error;
pub mod ids;
pub mod job;
pub mod laws;
pub mod router;
pub mod runner;
pub mod schedule;
pub mod table;
pub mod time;

pub use error::{JobError, QueueError, RunnerError};
pub use ids::Xid;
pub use job::JobHandler;
pub use router::{handle_job_result, handle_next_job, JobAction, ListenerAction, RunnerRouter};
pub use runner::{get_random_jitter, jitter_of, runner_step, worker_poll_interval, RunnerEvent, RunnerOptions, RunnerStep, JITTER_INTERVAL_MS};
pub use schedule::{InMemoryScheduleStore, Schedule};
pub use table::{next_step, poll_interval, DeadJob, JobRow, JobTable, PollStep, QueuedJob};
pub use time::{Span, StdDuration, Timestamp};
