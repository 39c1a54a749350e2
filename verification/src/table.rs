//! The queue's table: jobs waiting or running, and the dead queue. Each operation is one of the
//! queue's statements on that table.
use crate::error::QueueError;
use crate::ids::{new_xid, Xid};
use crate::time::{
    chrono_add_span, instant_of, nanos_since_epoch, not_after, Span, StdDuration, Timestamp,
    NANOS_PER_SEC,
};
use vstd::prelude::*;

verus! {

/// A job as the queue hands it out.
#[derive(Debug)]
pub struct JobRow {
    pub jid: Xid,
    pub job_type: String,
    pub payload: Vec<u8>,
    /// How many times the job was checked out before this time.
    pub retries: u32,
    pub scheduled_at: Timestamp,
    pub enqueued_at: Timestamp,
}

impl JobRow {
    /// The row of a checked-out job from its columns: the id in text form, the type, the
    /// payload, the retry column (which counts this checkout too) and the two instants. Fails
    /// where the id is no id or the retry column does not fit a `u32`.
    pub fn from_columns(
        jid: &str,
        job_type: String,
        payload: Vec<u8>,
        retries: i64,
        scheduled_at: Timestamp,
        enqueued_at: Timestamp,
    ) -> (r: Result<JobRow, QueueError>)
        requires
            retries != 0,
        ensures
            r is Ok <==> (crate::ids::xid_parse(jid@) is Some && 0 < retries <= u32::MAX),
            r matches Ok(row) ==> {
                &&& crate::ids::xid_parse(jid@) == Some(row.jid.raw@)
                &&& row.job_type@ == job_type@
                &&& row.payload@ == payload@
                &&& row.retries == retries - 1
                &&& row.scheduled_at == scheduled_at
                &&& row.enqueued_at == enqueued_at
            },
            r matches Err(e) ==> e is Other,
    {
        let id = match Xid::parse(jid) {
            Some(id) => id,
            None => {
                return Err(QueueError::Other("job id column holds no job id".to_owned()));
            },
        };
        match retries_from_column(retries) {
            Some(retries) => Ok(JobRow { jid: id, job_type, payload, retries, scheduled_at, enqueued_at }),
            None => Err(QueueError::Other("retry count out of range".to_owned())),
        }
    }

}

/// A job in the table.
#[derive(Debug)]
pub struct QueuedJob {
    pub jid: Xid,
    pub job_type: String,
    pub payload: Vec<u8>,
    /// How many times the job was checked out.
    pub retries: i64,
    pub scheduled_at: Timestamp,
    /// Whether the job is checked out and not yet failed back.
    pub started: bool,
    pub enqueued_at: Timestamp,
    /// Jobs of higher priority are checked out first.
    pub priority: i8,
}

/// A job in the table, as values.
pub struct JobEntry {
    pub jid: Xid,
    pub job_type: Seq<char>,
    pub payload: Seq<u8>,
    pub retries: i64,
    pub scheduled_at: Timestamp,
    pub started: bool,
    pub enqueued_at: Timestamp,
    pub priority: i8,
}

impl View for QueuedJob {
    type V = JobEntry;

    open spec fn view(&self) -> JobEntry {
        JobEntry {
            jid: self.jid,
            job_type: self.job_type@,
            payload: self.payload@,
            retries: self.retries,
            scheduled_at: self.scheduled_at,
            started: self.started,
            enqueued_at: self.enqueued_at,
            priority: self.priority,
        }
    }
}

/// A job in the dead queue.
#[derive(Debug)]
pub struct DeadJob {
    pub jid: Xid,
    pub job_type: String,
    pub payload: Vec<u8>,
    pub retries: u32,
    pub scheduled_at: Timestamp,
    pub enqueued_at: Timestamp,
}

/// A job in the dead queue, as values.
pub struct DeadEntry {
    pub jid: Xid,
    pub job_type: Seq<char>,
    pub payload: Seq<u8>,
    pub retries: u32,
    pub scheduled_at: Timestamp,
    pub enqueued_at: Timestamp,
}

impl View for DeadJob {
    type V = DeadEntry;

    open spec fn view(&self) -> DeadEntry {
        DeadEntry {
            jid: self.jid,
            job_type: self.job_type@,
            payload: self.payload@,
            retries: self.retries,
            scheduled_at: self.scheduled_at,
            enqueued_at: self.enqueued_at,
        }
    }
}

/// The table as values: the queued jobs in insertion order, and the dead queue.
pub struct TableView {
    pub jobs: Seq<JobEntry>,
    pub dead: Seq<DeadEntry>,
}

/// The entries of a list of jobs.
pub open spec fn job_entries(v: Seq<QueuedJob>) -> Seq<JobEntry> {
    v.map_values(|j: QueuedJob| j@)
}

/// The entries of a list of dead jobs.
pub open spec fn dead_entries(v: Seq<DeadJob>) -> Seq<DeadEntry> {
    v.map_values(|j: DeadJob| j@)
}

/// No two queued jobs share an id, and every retry count is at least zero.
pub open spec fn jobs_well_formed(jobs: Seq<JobEntry>) -> bool {
    &&& forall|i: int, j: int|
        0 <= i < jobs.len() && 0 <= j < jobs.len() && i != j ==> #[trigger] jobs[i].jid
            != #[trigger] jobs[j].jid
    &&& forall|i: int| 0 <= i < jobs.len() ==> #[trigger] jobs[i].retries >= 0
}

/// No two dead jobs share an id.
pub open spec fn dead_well_formed(dead: Seq<DeadEntry>) -> bool {
    forall|i: int, j: int|
        0 <= i < dead.len() && 0 <= j < dead.len() && i != j ==> #[trigger] dead[i].jid
            != #[trigger] dead[j].jid
}

/// The index of the queued job with id `jid`, where there is one.
pub open spec fn locate(jobs: Seq<JobEntry>, jid: Xid) -> Option<int> {
    if exists|i: int| 0 <= i < jobs.len() && #[trigger] jobs[i].jid == jid {
        Some(choose|i: int| 0 <= i < jobs.len() && #[trigger] jobs[i].jid == jid)
    } else {
        None
    }
}

/// Whether a dead job has id `jid`.
pub open spec fn is_dead(dead: Seq<DeadEntry>, jid: Xid) -> bool {
    exists|i: int| 0 <= i < dead.len() && #[trigger] dead[i].jid == jid
}

/// Whether a job may be checked out at instant `now` by a worker for `job_types`.
pub open spec fn is_eligible(e: JobEntry, job_types: Seq<Seq<char>>, now: Timestamp) -> bool {
    !e.started && not_after(e.scheduled_at, now) && job_types.contains(e.job_type)
}

/// Whether some job may be checked out.
pub open spec fn has_eligible(jobs: Seq<JobEntry>, job_types: Seq<Seq<char>>, now: Timestamp) -> bool {
    exists|i: int| 0 <= i < jobs.len() && is_eligible(#[trigger] jobs[i], job_types, now)
}

/// Whether job `i` is the one to check out next: it is eligible, no eligible job has higher
/// priority, and every eligible job before it has lower priority.
pub open spec fn is_next(
    jobs: Seq<JobEntry>,
    job_types: Seq<Seq<char>>,
    now: Timestamp,
    i: int,
) -> bool {
    &&& 0 <= i < jobs.len()
    &&& is_eligible(jobs[i], job_types, now)
    &&& forall|j: int|
        0 <= j < jobs.len() && is_eligible(#[trigger] jobs[j], job_types, now) ==> jobs[j].priority
            <= jobs[i].priority
    &&& forall|j: int|
        0 <= j < i && is_eligible(#[trigger] jobs[j], job_types, now) ==> jobs[j].priority
            < jobs[i].priority
}

/// A job once checked out: started, and its retry column one higher.
pub open spec fn checked_out(e: JobEntry) -> JobEntry {
    JobEntry { started: true, retries: (e.retries + 1) as i64, ..e }
}

/// A job once failed back to the queue.
pub open spec fn failed_back(e: JobEntry) -> JobEntry {
    JobEntry { started: false, ..e }
}

/// A job newly scheduled.
pub open spec fn new_entry(
    jid: Xid,
    job_type: Seq<char>,
    payload: Seq<u8>,
    scheduled_at: Timestamp,
    priority: i8,
    enqueued_at: Timestamp,
) -> JobEntry {
    JobEntry {
        jid,
        job_type,
        payload,
        retries: 0,
        scheduled_at,
        started: false,
        enqueued_at,
        priority,
    }
}

/// The dead-queue entry for a checked-out row.
pub open spec fn dead_entry_of(row: &JobRow) -> DeadEntry {
    DeadEntry {
        jid: row.jid,
        job_type: row.job_type@,
        payload: row.payload@,
        retries: row.retries,
        scheduled_at: row.scheduled_at,
        enqueued_at: row.enqueued_at,
    }
}

/// The names of a list of job types.
pub open spec fn type_names(job_types: Seq<String>) -> Seq<Seq<char>> {
    job_types.map_values(|t: String| t@)
}

/// Whether `row` carries job `e` as it was before being checked out.
pub open spec fn row_of(row: JobRow, e: JobEntry) -> bool {
    &&& row.jid == e.jid
    &&& row.job_type@ == e.job_type
    &&& row.payload@ == e.payload
    &&& row.retries == e.retries
    &&& row.scheduled_at == e.scheduled_at
    &&& row.enqueued_at == e.enqueued_at
}

/// What checking out job `i` of `before` gives: `after` and the result. A retry column at
/// `i64::MAX` cannot be raised, and the job is refused unchanged; a raised column that no longer
/// fits a `u32` leaves the job checked out but yields no row.
pub open spec fn poll_outcome(
    before: TableView,
    after: TableView,
    i: int,
    r: Result<Option<JobRow>, QueueError>,
) -> bool {
    let e = before.jobs[i];
    if e.retries == i64::MAX {
        &&& r matches Err(err) && err is Other
        &&& after.jobs == before.jobs
        &&& after.dead == before.dead
    } else {
        &&& after.jobs == before.jobs.update(i, checked_out(e))
        &&& after.dead == before.dead
        &&& if e.retries < u32::MAX {
            r matches Ok(Some(row)) && row_of(row, e)
        } else {
            r matches Err(err) && err is Other
        }
    }
}

/// Whether `names` holds `name`.
pub fn names_contain(names: &[String], name: &String) -> (r: bool)
    ensures
        r == type_names(names@).contains(name@),
{
    let mut i: usize = 0;
    while i < names.len()
        invariant
            0 <= i <= names.len(),
            forall|k: int| 0 <= k < i ==> names@[k]@ != name@,
        decreases names.len() - i,
    {
        if names[i] == *name {
            proof {
                assert(type_names(names@)[i as int] == name@);
            }
            return true;
        }
        i = i + 1;
    }
    proof {
        if type_names(names@).contains(name@) {
            let k = choose|k: int| 0 <= k < type_names(names@).len() && type_names(names@)[k] == name@;
            assert(names@[k]@ == name@);
        }
    }
    false
}

/// The retry count of a checked-out row from its retry column, which counts this checkout too;
/// `None` where the column does not fit a `u32`.
pub fn retries_from_column(column: i64) -> (r: Option<u32>)
    requires
        column != 0,
    ensures
        r is Some <==> 0 < column <= u32::MAX,
        r matches Some(n) ==> n == column - 1,
{
    if column < 0 || column > u32::MAX as i64 {
        None
    } else {
        Some((column - 1) as u32)
    }
}

/// The pause between two polls of a worker waiting for a job, from the polling interval;
/// `InvalidInterval` where the interval is not more than zero.
pub fn poll_interval(interval: Span) -> (r: Result<StdDuration, QueueError>)
    ensures
        r is Ok <==> interval.total() > 0,
        r matches Ok(d) ==> d.total() == interval.total(),
        r matches Err(e) ==> e == QueueError::InvalidInterval(interval),
{
    if interval.as_nanos() <= 0 {
        return Err(QueueError::InvalidInterval(interval));
    }
    match interval.to_std() {
        Some(d) => Ok(d),
        None => Err(QueueError::InvalidInterval(interval)),
    }
}

/// What a worker waiting for a job does after one poll.
#[derive(Debug)]
pub enum PollStep<T> {
    /// Stop waiting: the poll gave this job.
    Done(T),
    /// Poll again after the interval.
    Wait,
    /// Stop waiting with this error.
    Fail(QueueError),
}

/// Decides what a worker waiting for a job does after a poll that gave `polled`.
pub fn next_step<T>(polled: Result<Option<T>, QueueError>) -> (r: PollStep<T>)
    ensures
        polled matches Ok(Some(job)) ==> (r matches PollStep::Done(j) && j == job),
        polled matches Ok(None) ==> r is Wait,
        polled matches Err(e) ==> (r matches PollStep::Fail(f) && f == e),
{
    match polled {
        Ok(Some(job)) => PollStep::Done(job),
        Ok(None) => PollStep::Wait,
        Err(e) => PollStep::Fail(e),
    }
}

/// The queue's table: the jobs waiting or checked out, in the order they were scheduled, and
/// the dead queue.
pub struct JobTable {
    jobs: Vec<QueuedJob>,
    dead: Vec<DeadJob>,
}

impl View for JobTable {
    type V = TableView;

    closed spec fn view(&self) -> TableView {
        TableView { jobs: job_entries(self.jobs@), dead: dead_entries(self.dead@) }
    }
}

impl JobTable {
    #[verifier::type_invariant]
    spec fn well_formed(self) -> bool {
        &&& jobs_well_formed(job_entries(self.jobs@))
        &&& dead_well_formed(dead_entries(self.dead@))
    }

    /// An empty table.
    pub fn new() -> (r: JobTable)
        ensures
            r@.jobs.len() == 0,
            r@.dead.len() == 0,
    {
        let r = JobTable { jobs: Vec::new(), dead: Vec::new() };
        proof {
            assert(job_entries(r.jobs@) =~= Seq::empty());
            assert(dead_entries(r.dead@) =~= Seq::empty());
        }
        r
    }

    /// No two queued jobs and no two dead jobs share an id, and no retry count is below zero.
    /// For proofs about a table: calling this makes its invariant known.
    pub fn lemma_well_formed(&self)
        ensures
            jobs_well_formed(self@.jobs),
            dead_well_formed(self@.dead),
    {
        proof {
            use_type_invariant(self);
        }
    }

    /// The queued jobs, in the order they were scheduled.
    pub fn jobs(&self) -> (r: &[QueuedJob])
        ensures
            job_entries(r@) == self@.jobs,
    {
        self.jobs.as_slice()
    }

    /// The dead jobs, in the order they died.
    pub fn dead_jobs(&self) -> (r: &[DeadJob])
        ensures
            dead_entries(r@) == self@.dead,
    {
        self.dead.as_slice()
    }

    /// The index of the queued job with id `jid`.
    fn position(&self, jid: &Xid) -> (r: Option<usize>)
        ensures
            r matches Some(i) ==> i < self@.jobs.len() && locate(self@.jobs, *jid) == Some(i as int),
            r is None ==> locate(self@.jobs, *jid) is None,
    {
        proof {
            use_type_invariant(self);
        }
        let ghost jobs = self@.jobs;
        let mut i: usize = 0;
        while i < self.jobs.len()
            invariant
                0 <= i <= self.jobs.len(),
                jobs == job_entries(self.jobs@),
                jobs_well_formed(jobs),
                forall|k: int| 0 <= k < i ==> jobs[k].jid != *jid,
            decreases self.jobs.len() - i,
        {
            if self.jobs[i].jid.same(jid) {
                proof {
                    assert(jobs[i as int].jid == *jid);
                    let c = choose|k: int| 0 <= k < jobs.len() && #[trigger] jobs[k].jid == *jid;
                    assert(jobs[c].jid == *jid);
                    assert(c == i as int);
                }
                return Some(i);
            }
            i = i + 1;
        }
        proof {
            assert(!(exists|k: int| 0 <= k < jobs.len() && #[trigger] jobs[k].jid == *jid));
        }
        None
    }

    /// Moves the queued jobs out of the table, leaving it with none.
    fn take_jobs(&mut self) -> (r: Vec<QueuedJob>)
        ensures
            r@ == old(self).jobs@,
            final(self).jobs@.len() == 0,
            final(self).dead@ == old(self).dead@,
            jobs_well_formed(job_entries(r@)),
            dead_well_formed(dead_entries(final(self).dead@)),
    {
        proof {
            use_type_invariant(&*self);
        }
        let mut jobs: Vec<QueuedJob> = Vec::new();
        proof {
            assert(job_entries(jobs@) =~= Seq::empty());
        }
        std::mem::swap(&mut jobs, &mut self.jobs);
        jobs
    }

    /// Schedules a job with id `jid`, of type `job_type`, with `payload`, to run from
    /// `scheduled_at` on, with `priority`, at instant `enqueued_at`. Fails, changing nothing,
    /// exactly where a queued job has that id already.
    pub fn schedule_with_id(
        &mut self,
        jid: Xid,
        job_type: &str,
        payload: Vec<u8>,
        scheduled_at: Timestamp,
        priority: i8,
        enqueued_at: Timestamp,
    ) -> (r: Result<Xid, QueueError>)
        ensures
            r is Err <==> locate(old(self)@.jobs, jid) is Some,
            r matches Ok(id) ==> {
                &&& id == jid
                &&& final(self)@.jobs == old(self)@.jobs.push(
                    new_entry(jid, job_type@, payload@, scheduled_at, priority, enqueued_at),
                )
                &&& final(self)@.dead == old(self)@.dead
            },
            r matches Err(e) ==> e is Other && final(self)@ == old(self)@,
    {
        if self.position(&jid).is_some() {
            return Err(QueueError::Other("job id already queued".to_owned()));
        }
        let ghost before = self@.jobs;
        let mut jobs = self.take_jobs();
        let job = QueuedJob {
            jid,
            job_type: job_type.to_owned(),
            payload,
            retries: 0,
            scheduled_at,
            started: false,
            enqueued_at,
            priority,
        };
        jobs.push(job);
        proof {
            let e = new_entry(jid, job_type@, payload@, scheduled_at, priority, enqueued_at);
            assert(job_entries(jobs@) =~= before.push(e));
            assert(!(exists|k: int| 0 <= k < before.len() && #[trigger] before[k].jid == jid));
            assert(jobs_well_formed(before.push(e)));
        }
        self.jobs = jobs;
        Ok(jid)
    }

    /// Schedules a job of type `job_type` with `payload` to run from `scheduled_at` on, with
    /// `priority`, at instant `enqueued_at`, under a fresh id, which it returns. Fails, changing
    /// nothing, only where the fresh id is already queued; so it never fails on an empty table.
    pub fn schedule_at(
        &mut self,
        job_type: &str,
        payload: Vec<u8>,
        scheduled_at: Timestamp,
        priority: i8,
        enqueued_at: Timestamp,
    ) -> (r: Result<Xid, QueueError>)
        ensures
            r matches Ok(jid) ==> {
                &&& locate(old(self)@.jobs, jid) is None
                &&& final(self)@.jobs == old(self)@.jobs.push(
                    new_entry(jid, job_type@, payload@, scheduled_at, priority, enqueued_at),
                )
                &&& final(self)@.dead == old(self)@.dead
            },
            r is Err ==> old(self)@.jobs.len() > 0,
            r matches Err(e) ==> e is Other && final(self)@ == old(self)@,
    {
        let jid = new_xid();
        self.schedule_with_id(jid, job_type, payload, scheduled_at, priority, enqueued_at)
    }

    /// Schedules a job as `schedule_at` does, to run `delay` after `now`, where that instant can
    /// be represented.
    pub fn schedule_in(
        &mut self,
        job_type: &str,
        payload: Vec<u8>,
        now: Timestamp,
        delay: Span,
        priority: i8,
    ) -> (r: Result<Xid, QueueError>)
        requires
            chrono_add_span(now.secs, now.nanos, delay.total()) is Some,
        ensures
            r matches Ok(jid) ==> {
                &&& locate(old(self)@.jobs, jid) is None
                &&& final(self)@.jobs == old(self)@.jobs.push(
                    new_entry(
                        jid,
                        job_type@,
                        payload@,
                        instant_of(chrono_add_span(now.secs, now.nanos, delay.total()))->0,
                        priority,
                        now,
                    ),
                )
                &&& final(self)@.dead == old(self)@.dead
            },
            now.nanos < NANOS_PER_SEC ==> {
                let when = instant_of(chrono_add_span(now.secs, now.nanos, delay.total()))->0;
                &&& nanos_since_epoch(when) == nanos_since_epoch(now) + delay.total()
                &&& when.nanos < NANOS_PER_SEC
            },
            r is Err ==> old(self)@.jobs.len() > 0,
            r matches Err(e) ==> e is Other && final(self)@ == old(self)@,
    {
        let when = match now.checked_add(&delay) {
            Some(when) => when,
            None => {
                return Err(QueueError::Other("scheduled time out of range".to_owned()));
            },
        };
        self.schedule_at(job_type, payload, when, priority, now)
    }

    /// `schedule_in` where the scheduled instant can be represented; `None`, changing nothing,
    /// where it cannot.
    pub fn try_schedule_in(
        &mut self,
        job_type: &str,
        payload: Vec<u8>,
        now: Timestamp,
        delay: Span,
        priority: i8,
    ) -> (r: Option<Result<Xid, QueueError>>)
        ensures
            r is None <==> chrono_add_span(now.secs, now.nanos, delay.total()) is None,
            r is None ==> final(self)@ == old(self)@,
            r matches Some(Ok(jid)) ==> {
                &&& locate(old(self)@.jobs, jid) is None
                &&& final(self)@.jobs == old(self)@.jobs.push(
                    new_entry(
                        jid,
                        job_type@,
                        payload@,
                        instant_of(chrono_add_span(now.secs, now.nanos, delay.total()))->0,
                        priority,
                        now,
                    ),
                )
                &&& final(self)@.dead == old(self)@.dead
            },
            r is Some && now.nanos < NANOS_PER_SEC ==> {
                let when = instant_of(chrono_add_span(now.secs, now.nanos, delay.total()))->0;
                &&& nanos_since_epoch(when) == nanos_since_epoch(now) + delay.total()
                &&& when.nanos < NANOS_PER_SEC
            },
            r matches Some(Err(_)) ==> old(self)@.jobs.len() > 0,
            r matches Some(Err(e)) ==> e is Other && final(self)@ == old(self)@,
    {
        if now.checked_add(&delay).is_none() {
            return None;
        }
        Some(self.schedule_in(job_type, payload, now, delay, priority))
    }

    /// Checks out the next job that a worker for `job_types` may run at instant `now`: of the
    /// jobs not started, scheduled no later than `now` and of one of those types, the first of
    /// highest priority. It is marked started and its retry column raised by one; its row
    /// reports the checkouts before this one. `Ok(None)` where no job qualifies.
    pub fn poll_next_with_instant(&mut self, job_types: &[String], now: Timestamp) -> (r: Result<
        Option<JobRow>,
        QueueError,
    >)
        ensures
            has_eligible(old(self)@.jobs, type_names(job_types@), now) <==> !(r matches Ok(None)),
            r matches Ok(None) ==> final(self)@.jobs == old(self)@.jobs && final(self)@.dead
                == old(self)@.dead,
            has_eligible(old(self)@.jobs, type_names(job_types@), now) ==> exists|i: int|
                #[trigger] is_next(old(self)@.jobs, type_names(job_types@), now, i) && poll_outcome(
                    old(self)@,
                    final(self)@,
                    i,
                    r,
                ),
    {
        proof {
            use_type_invariant(&*self);
        }
        let ghost names = type_names(job_types@);
        let ghost before = self@;
        let mut best: Option<usize> = None;
        let mut i: usize = 0;
        while i < self.jobs.len()
            invariant
                0 <= i <= self.jobs.len(),
                before == self@,
                names == type_names(job_types@),
                match best {
                    Some(b) => {
                        &&& b < i
                        &&& is_eligible(before.jobs[b as int], names, now)
                        &&& forall|j: int|
                            0 <= j < i && is_eligible(#[trigger] before.jobs[j], names, now)
                                ==> before.jobs[j].priority <= before.jobs[b as int].priority
                        &&& forall|j: int|
                            0 <= j < b && is_eligible(#[trigger] before.jobs[j], names, now)
                                ==> before.jobs[j].priority < before.jobs[b as int].priority
                    },
                    None => forall|j: int|
                        0 <= j < i ==> !is_eligible(#[trigger] before.jobs[j], names, now),
                },
            decreases self.jobs.len() - i,
        {
            let job = &self.jobs[i];
            let eligible = !job.started && job.scheduled_at.not_after(&now) && names_contain(
                job_types,
                &job.job_type,
            );
            proof {
                assert(before.jobs[i as int] == job@);
            }
            if eligible {
                match best {
                    Some(b) => {
                        if job.priority > self.jobs[b].priority {
                            best = Some(i);
                        }
                    },
                    None => {
                        best = Some(i);
                    },
                }
            }
            i = i + 1;
        }
        let b = match best {
            None => {
                return Ok(None);
            },
            Some(b) => b,
        };
        proof {
            assert(is_next(before.jobs, names, now, b as int));
        }
        if self.jobs[b].retries == i64::MAX {
            return Err(QueueError::Other("retry count cannot be raised".to_owned()));
        }
        let mut jobs = self.take_jobs();
        let ghost taken = jobs@;
        let old_job = jobs.remove(b);
        proof {
            assert(job_entries(taken)[b as int] == old_job@);
            assert(job_entries(taken)[b as int].retries >= 0);
        }
        let column = old_job.retries + 1;
        let retries = retries_from_column(column);
        let job_type = old_job.job_type.clone();
        let payload = old_job.payload.clone();
        let row_jid = old_job.jid;
        let scheduled_at = old_job.scheduled_at;
        let enqueued_at = old_job.enqueued_at;
        let updated = QueuedJob { started: true, retries: column, ..old_job };
        jobs.insert(b, updated);
        proof {
            let e = before.jobs[b as int];
            assert(job_entries(jobs@) =~= before.jobs.update(b as int, checked_out(e)));
            assert(payload@ =~= e.payload);
            assert(jobs_well_formed(before.jobs.update(b as int, checked_out(e))));
        }
        self.jobs = jobs;
        match retries {
            Some(retries) => Ok(
                Some(JobRow { jid: row_jid, job_type, payload, retries, scheduled_at, enqueued_at }),
            ),
            None => Err(QueueError::Other("retry count out of range".to_owned())),
        }
    }

    /// Removes the queued job with id `jid`, if any: the job completed.
    pub fn complete(&mut self, jid: &Xid)
        ensures
            final(self)@.jobs == match locate(old(self)@.jobs, *jid) {
                Some(i) => old(self)@.jobs.remove(i),
                None => old(self)@.jobs,
            },
            final(self)@.dead == old(self)@.dead,
    {
        match self.position(jid) {
            None => {},
            Some(i) => {
                let ghost before = self@.jobs;
                let mut jobs = self.take_jobs();
                jobs.remove(i);
                proof {
                    assert(job_entries(jobs@) =~= before.remove(i as int));
                    assert(jobs_well_formed(before.remove(i as int)));
                }
                self.jobs = jobs;
            },
        }
    }

    /// Returns the queued job with id `jid`, if any, to the jobs not started: the job failed.
    pub fn fail(&mut self, jid: &Xid)
        ensures
            final(self)@.jobs == match locate(old(self)@.jobs, *jid) {
                Some(i) => old(self)@.jobs.update(i, failed_back(old(self)@.jobs[i])),
                None => old(self)@.jobs,
            },
            final(self)@.dead == old(self)@.dead,
    {
        match self.position(jid) {
            None => {},
            Some(i) => {
                let ghost before = self@.jobs;
                let mut jobs = self.take_jobs();
                let old_job = jobs.remove(i);
                let updated = QueuedJob { started: false, ..old_job };
                jobs.insert(i, updated);
                proof {
                    assert(job_entries(jobs@) =~= before.update(
                        i as int,
                        failed_back(before[i as int]),
                    ));
                    assert(jobs_well_formed(before.update(i as int, failed_back(before[i as int]))));
                }
                self.jobs = jobs;
            },
        }
    }

    /// Whether a dead job has id `jid`.
    fn is_dead(&self, jid: &Xid) -> (r: bool)
        ensures
            r == is_dead(self@.dead, *jid),
    {
        let ghost dead = self@.dead;
        let mut i: usize = 0;
        while i < self.dead.len()
            invariant
                0 <= i <= self.dead.len(),
                dead == dead_entries(self.dead@),
                forall|k: int| 0 <= k < i ==> dead[k].jid != *jid,
            decreases self.dead.len() - i,
        {
            if self.dead[i].jid.same(jid) {
                proof {
                    assert(dead[i as int].jid == *jid);
                }
                return true;
            }
            i = i + 1;
        }
        false
    }

    /// Moves the checked-out job of `row` to the dead queue: removes the queued job with its id
    /// and records the row there. Fails, changing nothing, where a dead job has that id already.
    pub fn dead_queue(&mut self, row: &JobRow) -> (r: Result<(), QueueError>)
        ensures
            r is Ok <==> !is_dead(old(self)@.dead, row.jid),
            r matches Ok(_) ==> {
                &&& final(self)@.jobs == match locate(old(self)@.jobs, row.jid) {
                    Some(i) => old(self)@.jobs.remove(i),
                    None => old(self)@.jobs,
                }
                &&& final(self)@.dead == old(self)@.dead.push(dead_entry_of(row))
            },
            r matches Err(e) ==> e is Other && final(self)@.jobs == old(self)@.jobs && final(self)@.dead == old(self)@.dead,
    {
        proof {
            use_type_invariant(&*self);
        }
        if self.is_dead(&row.jid) {
            return Err(QueueError::Other("job id already in the dead queue".to_owned()));
        }
        self.complete(&row.jid);
        let ghost before = self@.dead;
        let entry = DeadJob {
            jid: row.jid,
            job_type: row.job_type.clone(),
            payload: row.payload.clone(),
            retries: row.retries,
            scheduled_at: row.scheduled_at,
            enqueued_at: row.enqueued_at,
        };
        proof {
            use_type_invariant(&*self);
            assert(entry@ == dead_entry_of(row)) by {
                assert(entry.payload@ =~= row.payload@);
            }
        }
        let mut dead: Vec<DeadJob> = Vec::new();
        proof {
            assert(dead_entries(dead@) =~= Seq::empty());
        }
        std::mem::swap(&mut dead, &mut self.dead);
        dead.push(entry);
        proof {
            assert(dead_entries(dead@) =~= before.push(dead_entry_of(row)));
            assert(dead_well_formed(before.push(dead_entry_of(row))));
        }
        self.dead = dead;
        Ok(())
    }

    /// Removes the queued job with id `jid` where it has not started. Fails with `JobNotFound`,
    /// changing nothing, where no such job waits.
    pub fn cancel_job(&mut self, jid: &Xid) -> (r: Result<(), QueueError>)
        ensures
            r is Ok <==> (locate(old(self)@.jobs, *jid) matches Some(i) && !old(self)@.jobs[i].started),
            r matches Ok(_) ==> final(self)@.jobs == old(self)@.jobs.remove(
                locate(old(self)@.jobs, *jid)->0,
            ),
            r matches Err(e) ==> e == QueueError::JobNotFound(*jid) && final(self)@.jobs == old(self)@.jobs,
            final(self)@.dead == old(self)@.dead,
    {
        match self.position(jid) {
            Some(i) => {
                proof {
                    assert(self@.jobs[i as int] == self.jobs@[i as int]@);
                }
                if self.jobs[i].started {
                    return Err(QueueError::JobNotFound(*jid));
                }
                self.complete(jid);
                Ok(())
            },
            None => Err(QueueError::JobNotFound(*jid)),
        }
    }

    /// Removes the queued job with id `jid` where it has not started and has type `job_type`,
    /// and returns its payload. Fails with `JobNotFound`, changing nothing, where no such job
    /// waits.
    pub fn unschedule_job(&mut self, jid: &Xid, job_type: &str) -> (r: Result<Vec<u8>, QueueError>)
        ensures
            r is Ok <==> (locate(old(self)@.jobs, *jid) matches Some(i) && !old(self)@.jobs[i].started
                && old(self)@.jobs[i].job_type == job_type@),
            r matches Ok(payload) ==> {
                let i = locate(old(self)@.jobs, *jid)->0;
                &&& payload@ == old(self)@.jobs[i].payload
                &&& final(self)@.jobs == old(self)@.jobs.remove(i)
            },
            r matches Err(e) ==> e == QueueError::JobNotFound(*jid) && final(self)@.jobs == old(self)@.jobs,
            final(self)@.dead == old(self)@.dead,
    {
        match self.position(jid) {
            Some(i) => {
                let wanted = job_type.to_owned();
                proof {
                    assert(self@.jobs[i as int] == self.jobs@[i as int]@);
                }
                if self.jobs[i].started || !(self.jobs[i].job_type == wanted) {
                    return Err(QueueError::JobNotFound(*jid));
                }
                let ghost before = self@.jobs;
                let mut jobs = self.take_jobs();
                let ghost taken = jobs@;
                let removed = jobs.remove(i);
                proof {
                    assert(job_entries(taken)[i as int] == removed@);
                    assert(job_entries(jobs@) =~= before.remove(i as int));
                    assert(jobs_well_formed(before.remove(i as int)));
                }
                self.jobs = jobs;
                Ok(removed.payload)
            },
            None => Err(QueueError::JobNotFound(*jid)),
        }
    }

}

} // verus!
