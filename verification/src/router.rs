//! The job router: which handler runs which job type, and what becomes of a job after it ran.
use crate::error::{JobError, QueueError, RunnerError};
use crate::time::StdDuration;
use vstd::prelude::*;

verus! {

/// Whether two registered job types share a name.
pub open spec fn names_unique<H>(entries: Seq<(Seq<char>, H)>) -> bool {
    forall|i: int, j: int|
        0 <= i < entries.len() && 0 <= j < entries.len() && i != j ==> #[trigger] entries[i].0
            != #[trigger] entries[j].0
}

/// The index of the handler registered for `name`, where there is one.
pub open spec fn find_name<H>(entries: Seq<(Seq<char>, H)>, name: Seq<char>) -> Option<int> {
    if exists|i: int| 0 <= i < entries.len() && #[trigger] entries[i].0 == name {
        Some(choose|i: int| 0 <= i < entries.len() && #[trigger] entries[i].0 == name)
    } else {
        None
    }
}

/// The handler registered for `name`, where there is one.
pub open spec fn handler_of<H>(entries: Seq<(Seq<char>, H)>, name: Seq<char>) -> Option<H> {
    match find_name(entries, name) {
        Some(i) => Some(entries[i].1),
        None => None,
    }
}

/// The registrations after registering `handler` for `name`: a handler already there for that
/// name is replaced in place; otherwise the new one comes last.
pub open spec fn registered<H>(entries: Seq<(Seq<char>, H)>, name: Seq<char>, handler: H) -> Seq<
    (Seq<char>, H),
> {
    match find_name(entries, name) {
        Some(i) => entries.update(i, (name, handler)),
        None => entries.push((name, handler)),
    }
}

/// A job router: matches job types to the handlers that run them, in the order they were
/// first registered. The handler type is left to the caller.
pub struct RunnerRouter<H> {
    jobs: Vec<(String, H)>,
}

impl<H> View for RunnerRouter<H> {
    type V = Seq<(Seq<char>, H)>;

    closed spec fn view(&self) -> Seq<(Seq<char>, H)> {
        self.jobs@.map_values(|p: (String, H)| (p.0@, p.1))
    }
}

impl<H> RunnerRouter<H> {
    #[verifier::type_invariant]
    spec fn well_formed(self) -> bool {
        names_unique(self@)
    }

    /// A router with no handlers.
    pub fn new() -> (r: RunnerRouter<H>)
        ensures
            r@.len() == 0,
    {
        let r = RunnerRouter { jobs: Vec::new() };
        proof {
            assert(r@ =~= Seq::<(Seq<char>, H)>::empty());
        }
        r
    }

    /// No two registrations share a name.
    pub fn lemma_names_unique(&self)
        ensures
            names_unique(self@),
    {
        proof {
            use_type_invariant(self);
        }
    }

    /// The index of the registration for `name`.
    fn position(&self, name: &str) -> (r: Option<usize>)
        ensures
            r matches Some(i) ==> i < self@.len() && find_name(self@, name@) == Some(i as int),
            r is None ==> find_name(self@, name@) is None,
    {
        proof {
            use_type_invariant(self);
        }
        let wanted = name.to_owned();
        let mut i: usize = 0;
        while i < self.jobs.len()
            invariant
                0 <= i <= self.jobs.len(),
                wanted@ == name@,
                names_unique(self@),
                forall|k: int| 0 <= k < i ==> self@[k].0 != name@,
            decreases self.jobs.len() - i,
        {
            if self.jobs[i].0 == wanted {
                proof {
                    assert(self@[i as int].0 == name@);
                    let c = choose|k: int| 0 <= k < self@.len() && #[trigger] self@[k].0 == name@;
                    assert(self@[c].0 == name@);
                }
                return Some(i);
            }
            i = i + 1;
        }
        None
    }

    /// Registers `handler` for jobs of type `name`; a handler already registered by that name is
    /// replaced.
    pub fn add_job_handler(&mut self, name: &str, handler: H)
        ensures
            final(self)@ == registered(old(self)@, name@, handler),
    {
        proof {
            use_type_invariant(&*self);
        }
        let ghost before = self@;
        let pos = self.position(name);
        let mut jobs: Vec<(String, H)> = Vec::new();
        proof {
            assert(jobs@.map_values(|p: (String, H)| (p.0@, p.1)) =~= Seq::<(Seq<char>, H)>::empty());
        }
        std::mem::swap(&mut jobs, &mut self.jobs);
        let ghost taken = jobs@;
        match pos {
            Some(i) => {
                jobs.remove(i);
                jobs.insert(i, (name.to_owned(), handler));
                proof {
                    assert(jobs@.map_values(|p: (String, H)| (p.0@, p.1)) =~= before.update(
                        i as int,
                        (name@, handler),
                    ));
                    assert(names_unique(before.update(i as int, (name@, handler))));
                }
            },
            None => {
                jobs.push((name.to_owned(), handler));
                proof {
                    assert(jobs@.map_values(|p: (String, H)| (p.0@, p.1)) =~= before.push(
                        (name@, handler),
                    ));
                    assert(!(exists|k: int| 0 <= k < before.len() && #[trigger] before[k].0 == name@));
                    assert(names_unique(before.push((name@, handler))));
                }
            },
        }
        self.jobs = jobs;
    }

    /// The registered job types, in the order they were first registered.
    pub fn types(&self) -> (r: Vec<String>)
        ensures
            r@.len() == self@.len(),
            forall|i: int| 0 <= i < r@.len() ==> #[trigger] r@[i]@ == self@[i].0,
    {
        let mut r: Vec<String> = Vec::new();
        let mut i: usize = 0;
        while i < self.jobs.len()
            invariant
                0 <= i <= self.jobs.len(),
                r@.len() == i,
                forall|k: int| 0 <= k < i ==> #[trigger] r@[k]@ == self@[k].0,
            decreases self.jobs.len() - i,
        {
            r.push(self.jobs[i].0.clone());
            proof {
                assert(self@[i as int].0 == self.jobs@[i as int].0@);
            }
            i = i + 1;
        }
        r
    }

    /// The handler for jobs of type `job_type`, or `UnknownJobType` where none is registered.
    pub fn lookup(&self, job_type: &str) -> (r: Result<&H, RunnerError>)
        ensures
            r is Ok <==> handler_of(self@, job_type@) is Some,
            r matches Ok(h) ==> handler_of(self@, job_type@) == Some(*h),
            r matches Err(e) ==> e matches RunnerError::UnknownJobType(name) && name@ == job_type@,
    {
        match self.position(job_type) {
            Some(i) => {
                proof {
                    assert(self@[i as int].1 == self.jobs@[i as int].1);
                }
                Ok(&self.jobs[i].1)
            },
            None => Err(RunnerError::UnknownJobType(job_type.to_owned())),
        }
    }
}

/// What becomes of a job after its handler ran.
#[derive(Clone, Copy, Debug, PartialEq, Eq, Structural)]
pub enum JobAction {
    /// The job succeeded: remove it from the queue.
    Complete,
    /// The job failed and may run again: return it to the queue.
    Fail,
    /// The job failed and used up its retries: move it to the dead queue.
    DeadQueue,
}

/// The action for a job's result: success completes it; a failure returns it to the queue
/// while it was retried fewer than `max_retries` times, and moves it to the dead queue after.
pub open spec fn action_for(succeeded: bool, retries: u32, max_retries: u32) -> JobAction {
    if succeeded {
        JobAction::Complete
    } else if retries >= max_retries {
        JobAction::DeadQueue
    } else {
        JobAction::Fail
    }
}

/// Decides what becomes of a job whose handler returned `job_result`, given how many times the
/// job was retried before and how many retries its handler allows.
pub fn handle_job_result(job_result: &Result<(), JobError>, retries: u32, max_retries: u32) -> (r:
    JobAction)
    ensures
        r == action_for(job_result is Ok, retries, max_retries),
        job_result is Ok ==> r == JobAction::Complete,
        job_result is Err && retries < max_retries ==> r == JobAction::Fail,
        job_result is Err && retries >= max_retries ==> r == JobAction::DeadQueue,
{
    match job_result {
        Ok(_) => JobAction::Complete,
        Err(_) => {
            if retries >= max_retries {
                JobAction::DeadQueue
            } else {
                JobAction::Fail
            }
        },
    }
}

/// How long a worker pauses after the queue failed, in seconds.
pub const QUEUE_ERROR_PAUSE_SECS: u64 = 5;

/// What a worker does after it polled the queue and, where that gave a job, processed it.
#[derive(Debug)]
pub enum ListenerAction {
    /// Go on polling.
    Continue,
    /// Report that no handler is registered for this job type, then go on polling.
    ReportUnknownJobType(String),
    /// Report the queue's failure and pause for this long before polling again.
    Suspend(StdDuration),
}

/// Decides what a worker does next: `Err` where polling failed, else what processing gave.
pub fn handle_next_job(outcome: Result<Result<(), RunnerError>, QueueError>) -> (r: ListenerAction)
    ensures
        outcome matches Ok(Ok(_)) ==> r is Continue,
        outcome matches Ok(Err(RunnerError::UnknownJobType(name))) ==> (r matches ListenerAction::ReportUnknownJobType(n)
            && n@ == name@),
        (outcome matches Ok(Err(RunnerError::QueueError(_))) || outcome is Err) ==> (r matches ListenerAction::Suspend(d)
            && d.total() == QUEUE_ERROR_PAUSE_SECS * 1_000_000_000),
{
    match outcome {
        Ok(Ok(_)) => ListenerAction::Continue,
        Ok(Err(RunnerError::UnknownJobType(name))) => ListenerAction::ReportUnknownJobType(name),
        Ok(Err(RunnerError::QueueError(_))) => ListenerAction::Suspend(
            StdDuration::from_secs(QUEUE_ERROR_PAUSE_SECS),
        ),
        Err(_) => ListenerAction::Suspend(StdDuration::from_secs(QUEUE_ERROR_PAUSE_SECS)),
    }
}

} // verus!
