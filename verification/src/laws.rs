//! Properties that span several operations of the queue's table, the router and the schedule
//! store.
use crate::router::{action_for, find_name, handler_of, names_unique, registered, JobAction};
use crate::schedule::{add_by_next_run, lemma_insert_at_keeps_sorted, insert_by_next_run, sorted_by_next_run, ScheduleView};
use crate::error::QueueError;
use crate::table::{
    checked_out, failed_back, has_eligible, is_eligible, is_next, jobs_well_formed, locate,
    dead_entry_of, new_entry, poll_outcome, JobEntry, JobRow, TableView, DeadEntry,
};
use crate::ids::Xid;
use crate::time::{before, nanos_since_epoch, not_after, Timestamp, NANOS_PER_SEC};
use vstd::prelude::*;

verus! {

/// At most one job is the next to be checked out.
pub proof fn lemma_next_is_unique(
    jobs: Seq<JobEntry>,
    job_types: Seq<Seq<char>>,
    now: Timestamp,
    i: int,
    j: int,
)
    requires
        is_next(jobs, job_types, now, i),
        is_next(jobs, job_types, now, j),
    ensures
        i == j,
{
    if i < j {
        assert(is_eligible(jobs[i], job_types, now));
    } else if j < i {
        assert(is_eligible(jobs[j], job_types, now));
    }
}

/// A job whose handler succeeded is completed, whatever its retries; retries decide only
/// failures: a failed job is returned to the queue while it was retried fewer than
/// `max_retries` times, and moved to the dead queue after.
pub proof fn lemma_job_action(retries: u32, max_retries: u32)
    ensures
        action_for(true, retries, max_retries) == JobAction::Complete,
        retries < max_retries ==> action_for(false, retries, max_retries) == JobAction::Fail,
        retries >= max_retries ==> action_for(false, retries, max_retries) == JobAction::DeadQueue,
{
}

/// Checking a job out marks it started and raises its retry count by one; its id, type,
/// payload, priority and instants stay as they were. (A retry count at `i64::MAX` is never
/// raised: the checkout is refused.)
pub proof fn lemma_checkout_changes_only_start_and_retries(e: JobEntry)
    requires
        e.retries < i64::MAX,
    ensures
        checked_out(e).started,
        checked_out(e).retries == e.retries + 1,
        checked_out(e).jid == e.jid,
        checked_out(e).job_type == e.job_type,
        checked_out(e).payload == e.payload,
        checked_out(e).priority == e.priority,
        checked_out(e).scheduled_at == e.scheduled_at,
        checked_out(e).enqueued_at == e.enqueued_at,
{
}

/// A successful checkout of job `i` leaves every other job as it was, and job `i` with its
/// priority, instants, id, type and payload unchanged, started, and with one more retry.
pub proof fn lemma_poll_keeps_job_fields(
    before: TableView,
    after: TableView,
    i: int,
    r: Result<Option<JobRow>, QueueError>,
)
    requires
        0 <= i < before.jobs.len(),
        poll_outcome(before, after, i, r),
        r is Ok,
    ensures
        after.jobs.len() == before.jobs.len(),
        after.dead == before.dead,
        forall|j: int| 0 <= j < before.jobs.len() && j != i ==> #[trigger] after.jobs[j] == before.jobs[j],
        after.jobs[i].started,
        after.jobs[i].retries == before.jobs[i].retries + 1,
        after.jobs[i].priority == before.jobs[i].priority,
        after.jobs[i].scheduled_at == before.jobs[i].scheduled_at,
        after.jobs[i].enqueued_at == before.jobs[i].enqueued_at,
        after.jobs[i].jid == before.jobs[i].jid,
        after.jobs[i].job_type == before.jobs[i].job_type,
        after.jobs[i].payload == before.jobs[i].payload,
{
}

/// Failing a job back clears its started flag and nothing else: its retries, priority,
/// instants, id, type and payload stay as they were.
pub proof fn lemma_fail_changes_only_start(e: JobEntry)
    ensures
        !failed_back(e).started,
        failed_back(e).retries == e.retries,
        failed_back(e).jid == e.jid,
        failed_back(e).job_type == e.job_type,
        failed_back(e).payload == e.payload,
        failed_back(e).priority == e.priority,
        failed_back(e).scheduled_at == e.scheduled_at,
        failed_back(e).enqueued_at == e.enqueued_at,
{
}

/// The dead-queue entry of a checked-out row holds the row's id, type, payload, retries and
/// instants.
pub proof fn lemma_dead_entry_keeps_row(row: JobRow)
    ensures
        dead_entry_of(&row).jid == row.jid,
        dead_entry_of(&row).job_type == row.job_type@,
        dead_entry_of(&row).payload == row.payload@,
        dead_entry_of(&row).retries == row.retries,
        dead_entry_of(&row).scheduled_at == row.scheduled_at,
        dead_entry_of(&row).enqueued_at == row.enqueued_at,
{
}

/// A newly scheduled job holds exactly what was passed in, any priority included, has not
/// started and has no retries.
pub proof fn lemma_new_entry_holds_arguments(
    jid: Xid,
    job_type: Seq<char>,
    payload: Seq<u8>,
    scheduled_at: Timestamp,
    priority: i8,
    enqueued_at: Timestamp,
)
    ensures
        ({
            let e = new_entry(jid, job_type, payload, scheduled_at, priority, enqueued_at);
            &&& e.jid == jid
            &&& e.job_type == job_type
            &&& e.payload == payload
            &&& e.scheduled_at == scheduled_at
            &&& e.priority == priority
            &&& e.enqueued_at == enqueued_at
            &&& !e.started
            &&& e.retries == 0
        }),
{
}

/// The index of a queued job is the index holding its id.
pub proof fn lemma_locate_index(jobs: Seq<JobEntry>, i: int)
    requires
        jobs_well_formed(jobs),
        0 <= i < jobs.len(),
    ensures
        locate(jobs, jobs[i].jid) == Some(i),
{
    let c = choose|k: int| 0 <= k < jobs.len() && #[trigger] jobs[k].jid == jobs[i].jid;
    assert(jobs[c].jid == jobs[i].jid);
}

/// A checked-out job is not handed out again, to any worker at any instant, until it is failed
/// back: no job with its id is eligible.
pub proof fn lemma_checked_out_job_not_handed_out(
    jobs: Seq<JobEntry>,
    job_types: Seq<Seq<char>>,
    now: Timestamp,
    i: int,
    other_types: Seq<Seq<char>>,
    later: Timestamp,
)
    requires
        jobs_well_formed(jobs),
        is_next(jobs, job_types, now, i),
    ensures
        forall|j: int|
            0 <= j < jobs.len() && #[trigger] jobs.update(i, checked_out(jobs[i]))[j].jid
                == jobs[i].jid ==> !is_eligible(
                jobs.update(i, checked_out(jobs[i]))[j],
                other_types,
                later,
            ),
{
    let after = jobs.update(i, checked_out(jobs[i]));
    assert forall|j: int|
        0 <= j < jobs.len() && #[trigger] after[j].jid == jobs[i].jid implies !is_eligible(
        after[j],
        other_types,
        later,
    ) by {
        if j != i {
            assert(jobs[j].jid == after[j].jid);
        }
    }
}

/// A job that fails after being checked out is the next to be checked out again by the same
/// poll, with one more retry and the same payload.
pub proof fn lemma_failed_job_comes_back(
    jobs: Seq<JobEntry>,
    job_types: Seq<Seq<char>>,
    now: Timestamp,
    i: int,
)
    requires
        jobs_well_formed(jobs),
        is_next(jobs, job_types, now, i),
        jobs[i].retries < i64::MAX,
    ensures
        ({
            let after = jobs.update(i, checked_out(jobs[i]));
            let back = after.update(i, failed_back(after[i]));
            &&& locate(after, jobs[i].jid) == Some(i)
            &&& is_next(back, job_types, now, i)
            &&& back[i].retries == jobs[i].retries + 1
            &&& back[i].payload == jobs[i].payload
            &&& back[i].job_type == jobs[i].job_type
        }),
{
    let after = jobs.update(i, checked_out(jobs[i]));
    let back = after.update(i, failed_back(after[i]));
    assert(jobs_well_formed(after));
    lemma_locate_index(after, i);
    assert forall|j: int| 0 <= j < jobs.len() implies is_eligible(#[trigger] back[j], job_types, now)
        == is_eligible(jobs[j], job_types, now) by {
        if j != i {
            assert(back[j] == jobs[j]);
        }
    }
    assert forall|j: int|
        0 <= j < back.len() && is_eligible(#[trigger] back[j], job_types, now) implies back[j].priority
        <= back[i].priority by {
        assert(is_eligible(jobs[j], job_types, now));
        if j != i {
            assert(back[j] == jobs[j]);
        }
    }
    assert forall|j: int|
        0 <= j < i && is_eligible(#[trigger] back[j], job_types, now) implies back[j].priority
        < back[i].priority by {
        assert(is_eligible(jobs[j], job_types, now));
        assert(back[j] == jobs[j]);
    }
}

/// A removed job is gone for good: no queued job has its id, and the rest stay well formed.
/// So a second cancel or unschedule of it finds nothing, and no poll hands it out.
pub proof fn lemma_removed_job_is_gone(jobs: Seq<JobEntry>, jid: Xid)
    requires
        jobs_well_formed(jobs),
        locate(jobs, jid) is Some,
    ensures
        locate(jobs.remove(locate(jobs, jid)->0), jid) is None,
        jobs_well_formed(jobs.remove(locate(jobs, jid)->0)),
{
    let i = locate(jobs, jid)->0;
    let rest = jobs.remove(i);
    assert(jobs[i].jid == jid);
    if exists|k: int| 0 <= k < rest.len() && #[trigger] rest[k].jid == jid {
        let k = choose|k: int| 0 <= k < rest.len() && #[trigger] rest[k].jid == jid;
        if k < i {
            assert(jobs[k].jid == jid);
        } else {
            assert(jobs[k + 1].jid == jid);
        }
    }
}

/// What a newly scheduled job is found as: the last job, not started, of its type and with its
/// payload. So unscheduling it before it starts gives back exactly the payload scheduled.
pub proof fn lemma_scheduled_job_is_found(
    jobs: Seq<JobEntry>,
    jid: Xid,
    job_type: Seq<char>,
    payload: Seq<u8>,
    scheduled_at: Timestamp,
    priority: i8,
    enqueued_at: Timestamp,
)
    requires
        jobs_well_formed(jobs),
        locate(jobs, jid) is None,
    ensures
        ({
            let after = jobs.push(
                new_entry(jid, job_type, payload, scheduled_at, priority, enqueued_at),
            );
            &&& jobs_well_formed(after)
            &&& locate(after, jid) == Some(jobs.len() as int)
            &&& !after[jobs.len() as int].started
            &&& after[jobs.len() as int].job_type == job_type
            &&& after[jobs.len() as int].payload == payload
        }),
{
    let e = new_entry(jid, job_type, payload, scheduled_at, priority, enqueued_at);
    let after = jobs.push(e);
    assert(jobs_well_formed(after));
    lemma_locate_index(after, jobs.len() as int);
}

/// A job scheduled for a later instant is not handed out before it.
pub proof fn lemma_future_job_waits(e: JobEntry, job_types: Seq<Seq<char>>, now: Timestamp)
    requires
        before(now, e.scheduled_at),
    ensures
        !is_eligible(e, job_types, now),
{
}

/// The table after `n` rounds of checking out job `i` and failing it back.
pub open spec fn failed_rounds(jobs: Seq<JobEntry>, i: int, n: nat) -> Seq<JobEntry>
    decreases n,
{
    if n == 0 {
        jobs
    } else {
        let prev = failed_rounds(jobs, i, (n - 1) as nat);
        prev.update(i, failed_back(checked_out(prev[i])))
    }
}

/// A job whose handler always fails is handed out `max_retries + 1` times: on each of the first
/// `max_retries` checkouts it is reported with the retries before it and returned to the queue,
/// and on the last one it is moved to the dead queue.
pub proof fn lemma_failing_job_retries_then_dies(
    jobs: Seq<JobEntry>,
    job_types: Seq<Seq<char>>,
    now: Timestamp,
    i: int,
    max_retries: u32,
    n: nat,
)
    requires
        jobs_well_formed(jobs),
        is_next(jobs, job_types, now, i),
        jobs[i].retries == 0,
        n <= max_retries,
    ensures
        jobs_well_formed(failed_rounds(jobs, i, n)),
        is_next(failed_rounds(jobs, i, n), job_types, now, i),
        failed_rounds(jobs, i, n)[i].retries == n,
        action_for(false, n as u32, max_retries) == if n < max_retries {
            JobAction::Fail
        } else {
            JobAction::DeadQueue
        },
    decreases n,
{
    if n > 0 {
        lemma_failing_job_retries_then_dies(jobs, job_types, now, i, max_retries, (n - 1) as nat);
        let prev = failed_rounds(jobs, i, (n - 1) as nat);
        lemma_failed_job_comes_back(prev, job_types, now, i);
        let after = prev.update(i, checked_out(prev[i]));
        assert(after.update(i, failed_back(after[i])) =~= failed_rounds(jobs, i, n));
        assert(jobs_well_formed(after));
        assert(jobs_well_formed(failed_rounds(jobs, i, n)));
    }
}

/// Registering a handler makes it the handler of its job type, leaves the handlers of other
/// types as they were, and keeps the job types distinct.
pub proof fn lemma_registered_handler_is_found<H>(
    entries: Seq<(Seq<char>, H)>,
    name: Seq<char>,
    handler: H,
    other: Seq<char>,
)
    requires
        names_unique(entries),
    ensures
        names_unique(registered(entries, name, handler)),
        handler_of(registered(entries, name, handler), name) == Some(handler),
        other != name ==> handler_of(registered(entries, name, handler), other) == handler_of(
            entries,
            other,
        ),
{
    let after = registered(entries, name, handler);
    match find_name(entries, name) {
        Some(i) => {
            let c = choose|k: int| 0 <= k < entries.len() && #[trigger] entries[k].0 == name;
            assert(entries[c].0 == name);
            assert(c == i);
        },
        None => {
            assert(!(exists|k: int| 0 <= k < entries.len() && #[trigger] entries[k].0 == name));
        },
    }
    assert(names_unique(after));
    assert(after[find_name(entries, name).unwrap_or(entries.len() as int)].0 == name);
    let a = choose|k: int| 0 <= k < after.len() && #[trigger] after[k].0 == name;
    assert(after[a].0 == name);
    if other != name {
        if exists|k: int| 0 <= k < entries.len() && #[trigger] entries[k].0 == other {
            let k = choose|k: int| 0 <= k < entries.len() && #[trigger] entries[k].0 == other;
            assert(after[k].0 == other);
            let b = choose|k: int| 0 <= k < after.len() && #[trigger] after[k].0 == other;
            assert(after[b].0 == other);
        } else {
            if exists|k: int| 0 <= k < after.len() && #[trigger] after[k].0 == other {
                let b = choose|k: int| 0 <= k < after.len() && #[trigger] after[k].0 == other;
                assert(after[b].0 == other);
                assert(entries[b].0 == other);
            }
        }
    }
}

/// Re-registering a job type keeps the number of registered types.
pub proof fn lemma_reregistering_keeps_types<H>(entries: Seq<(Seq<char>, H)>, name: Seq<char>, handler: H)
    requires
        find_name(entries, name) is Some,
    ensures
        registered(entries, name, handler).len() == entries.len(),
{
}

/// A job newly scheduled into a table where nothing may be checked out is the next one, where
/// it may itself be checked out.
pub proof fn lemma_new_job_is_next(
    jobs: Seq<JobEntry>,
    e: JobEntry,
    job_types: Seq<Seq<char>>,
    now: Timestamp,
)
    requires
        !has_eligible(jobs, job_types, now),
        is_eligible(e, job_types, now),
    ensures
        is_next(jobs.push(e), job_types, now, jobs.len() as int),
{
    let after = jobs.push(e);
    assert forall|j: int| 0 <= j < jobs.len() implies !is_eligible(#[trigger] after[j], job_types, now) by {
        assert(after[j] == jobs[j]);
    }
}

/// The row a newly scheduled job is checked out as carries what was scheduled: its id, type,
/// payload and scheduled instant, and no retries. Here the table after scheduling is
/// `before.push(new_entry(..))`, the new job is the next one, and a poll on that table ended
/// in `after` with result `r`, as its contract states.
pub proof fn lemma_checked_out_row_carries_schedule(
    before: Seq<JobEntry>,
    dead: Seq<DeadEntry>,
    jid: Xid,
    job_type: Seq<char>,
    payload: Seq<u8>,
    scheduled_at: Timestamp,
    priority: i8,
    enqueued_at: Timestamp,
    job_types: Seq<Seq<char>>,
    now: Timestamp,
    i: int,
    after: TableView,
    r: Result<Option<JobRow>, QueueError>,
)
    requires
        is_next(
            before.push(new_entry(jid, job_type, payload, scheduled_at, priority, enqueued_at)),
            job_types,
            now,
            before.len() as int,
        ),
        is_next(
            before.push(new_entry(jid, job_type, payload, scheduled_at, priority, enqueued_at)),
            job_types,
            now,
            i,
        ),
        poll_outcome(
            TableView {
                jobs: before.push(
                    new_entry(jid, job_type, payload, scheduled_at, priority, enqueued_at),
                ),
                dead,
            },
            after,
            i,
            r,
        ),
    ensures
        r matches Ok(Some(row)) && row.jid == jid && row.job_type@ == job_type && row.payload@
            == payload && row.scheduled_at == scheduled_at && row.retries == 0,
{
    let jobs = before.push(new_entry(jid, job_type, payload, scheduled_at, priority, enqueued_at));
    lemma_next_is_unique(jobs, job_types, now, i, before.len() as int);
}

/// On instants that are no leap seconds, coming no later is having no more nanoseconds since
/// 1970.
pub proof fn lemma_order_is_numeric(a: Timestamp, b: Timestamp)
    requires
        a.nanos < NANOS_PER_SEC,
        b.nanos < NANOS_PER_SEC,
    ensures
        not_after(a, b) <==> nanos_since_epoch(a) <= nanos_since_epoch(b),
        before(a, b) <==> nanos_since_epoch(a) < nanos_since_epoch(b),
{
}

/// A job scheduled `delay` after `now` waits exactly that long: at any instant that is no leap
/// second it may be checked out (by a worker for its type, while not started) just where that
/// instant is at least `delay` after `now`.
pub proof fn lemma_delayed_job_is_due_after_delay(
    e: JobEntry,
    now: Timestamp,
    delay: int,
    job_types: Seq<Seq<char>>,
    t: Timestamp,
)
    requires
        e.scheduled_at.nanos < NANOS_PER_SEC,
        nanos_since_epoch(e.scheduled_at) == nanos_since_epoch(now) + delay,
        t.nanos < NANOS_PER_SEC,
    ensures
        is_eligible(e, job_types, t) <==> (!e.started && job_types.contains(e.job_type)
            && nanos_since_epoch(t) >= nanos_since_epoch(now) + delay),
{
    lemma_order_is_numeric(e.scheduled_at, t);
}

/// Schedules taken at an instant are not taken again: where the first `k` schedules were the
/// ones due at `now`, none of those left is due at `now`.
pub proof fn lemma_taken_schedules_not_taken_again(s: Seq<ScheduleView>, k: int, now: Timestamp)
    requires
        0 <= k <= s.len(),
        forall|i: int| 0 <= i < s.len() ==> (i < k <==> before(#[trigger] s[i].next_run, now)),
    ensures
        forall|i: int| 0 <= i < s.skip(k).len() ==> !before(#[trigger] s.skip(k)[i].next_run, now),
{
    assert forall|i: int| 0 <= i < s.skip(k).len() implies !before(#[trigger] s.skip(k)[i].next_run, now) by {
        assert(s.skip(k)[i] == s[i + k]);
    }
}

/// `insert_by_next_run` inserts at the place after every schedule that runs no later.
pub proof fn lemma_insert_position(s: Seq<ScheduleView>, x: ScheduleView) -> (p: int)
    ensures
        0 <= p <= s.len(),
        insert_by_next_run(s, x) == s.insert(p, x),
        forall|j: int| p <= j < s.len() ==> before(x.next_run, #[trigger] s[j].next_run),
        p > 0 ==> !before(x.next_run, s[p - 1].next_run),
    decreases s.len(),
{
    if s.len() == 0 {
        assert(s.insert(0, x) =~= seq![x]);
        0
    } else if before(x.next_run, s.last().next_run) {
        let t = s.drop_last();
        let p = lemma_insert_position(t, x);
        assert(t.insert(p, x).push(s.last()) =~= s.insert(p, x));
        assert forall|j: int| p <= j < s.len() implies before(x.next_run, #[trigger] s[j].next_run) by {
            if j < t.len() {
                assert(s[j] == t[j]);
            }
        }
        if p > 0 {
            assert(s[p - 1] == t[p - 1]);
        }
        p
    } else {
        assert(s.insert(s.len() as int, x) =~= s.push(x));
        s.len() as int
    }
}

/// Adding schedules keeps the store in order of next run, and the store then holds exactly the
/// schedules it held and those added.
pub proof fn lemma_added_schedules_sorted(s: Seq<ScheduleView>, xs: Seq<ScheduleView>)
    requires
        sorted_by_next_run(s),
    ensures
        sorted_by_next_run(add_by_next_run(s, xs)),
        add_by_next_run(s, xs).to_multiset() == s.to_multiset().add(xs.to_multiset()),
    decreases xs.len(),
{
    broadcast use vstd::seq_lib::to_multiset_insert;
    broadcast use vstd::seq_lib::to_multiset_build;

    if xs.len() > 0 {
        let prev = add_by_next_run(s, xs.drop_last());
        lemma_added_schedules_sorted(s, xs.drop_last());
        let x = xs.last();
        let p = lemma_insert_position(prev, x);
        let n = prev.insert(p, x);
        lemma_insert_at_keeps_sorted(prev, x, p);
        assert(xs =~= xs.drop_last().push(x));
        assert(n.to_multiset() == prev.to_multiset().insert(x));
        assert(xs.to_multiset() == xs.drop_last().to_multiset().insert(x));
        assert(n.to_multiset() =~= s.to_multiset().add(xs.to_multiset()));
    } else {
        broadcast use vstd::seq_lib::to_multiset_len;
        broadcast use vstd::multiset::lemma_multiset_empty_len;

        assert(xs.to_multiset().len() == 0);
        assert(xs.to_multiset() =~= vstd::multiset::Multiset::empty());
        assert(s.to_multiset().add(xs.to_multiset()) =~= s.to_multiset());
    }
}

/// Adding a schedule keeps, for every instant, the schedules that run at that instant in the
/// order they had before, with the new one last.
pub proof fn lemma_insert_is_stable(s: Seq<ScheduleView>, x: ScheduleView, t: Timestamp)
    ensures
        insert_by_next_run(s, x).filter(|v: ScheduleView| v.next_run == t) == s.push(x).filter(
            |v: ScheduleView| v.next_run == t,
        ),
{
    broadcast use Seq::filter_distributes_over_add;

    let f = |v: ScheduleView| v.next_run == t;
    let p = lemma_insert_position(s, x);
    let head = s.subrange(0, p);
    let tail = s.subrange(p, s.len() as int);
    assert(s =~= head + tail);
    assert(s.insert(p, x) =~= head + seq![x] + tail);
    assert(s.push(x) =~= head + tail + seq![x]);
    if x.next_run == t {
        assert forall|j: int| 0 <= j < tail.len() implies !f(#[trigger] tail[j]) by {
            assert(tail[j] == s[p + j]);
            assert(before(x.next_run, s[p + j].next_run));
        }
        tail.lemma_all_neg_filter_empty(f);
    }
    assert((head + seq![x] + tail).filter(f) == (head + seq![x]).filter(f) + tail.filter(f));
    assert((head + seq![x]).filter(f) == head.filter(f) + seq![x].filter(f));
    assert((head + tail + seq![x]).filter(f) == (head + tail).filter(f) + seq![x].filter(f));
    assert((head + tail).filter(f) == head.filter(f) + tail.filter(f));
    if x.next_run != t {
        assert(seq![x].filter(f) =~= Seq::<ScheduleView>::empty()) by {
            reveal_with_fuel(Seq::filter, 2);
        }
        assert((head + seq![x]).filter(f) =~= head.filter(f));
        assert((head + tail + seq![x]).filter(f) =~= head.filter(f) + tail.filter(f));
    } else {
        assert(tail.filter(f) =~= Seq::<ScheduleView>::empty());
        assert((head + seq![x] + tail).filter(f) =~= head.filter(f) + seq![x].filter(f));
        assert((head + tail + seq![x]).filter(f) =~= head.filter(f) + seq![x].filter(f));
    }
}

/// Adding schedules is stable: for every instant, the schedules that run at that instant come
/// in the order of the store followed by the added ones.
pub proof fn lemma_add_is_stable(s: Seq<ScheduleView>, xs: Seq<ScheduleView>, t: Timestamp)
    ensures
        add_by_next_run(s, xs).filter(|v: ScheduleView| v.next_run == t) == (s + xs).filter(
            |v: ScheduleView| v.next_run == t,
        ),
    decreases xs.len(),
{
    broadcast use Seq::filter_distributes_over_add;

    let f = |v: ScheduleView| v.next_run == t;
    if xs.len() == 0 {
        assert(s + xs =~= s);
    } else {
        let prev = add_by_next_run(s, xs.drop_last());
        lemma_add_is_stable(s, xs.drop_last(), t);
        lemma_insert_is_stable(prev, xs.last(), t);
        assert(prev.push(xs.last()) =~= prev + seq![xs.last()]);
        assert(s + xs =~= (s + xs.drop_last()) + seq![xs.last()]);
        assert((prev + seq![xs.last()]).filter(f) == prev.filter(f) + seq![xs.last()].filter(f));
        assert(((s + xs.drop_last()) + seq![xs.last()]).filter(f) == (s + xs.drop_last()).filter(
            f,
        ) + seq![xs.last()].filter(f));
    }
}

} // verus!
