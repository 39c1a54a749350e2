//! Recurring-job schedules and the in-memory store that keeps them in order of their next run.
use crate::ids::Xid;
use crate::time::{before, not_after, Timestamp};
use vstd::prelude::*;

verus! {

/// A named schedule: when it runs next, when it last ran, and the job of its current run.
#[derive(Debug, PartialEq, Eq, Hash)]
pub struct Schedule {
    pub name: String,
    pub next_run: Timestamp,
    pub last_run: Option<Timestamp>,
    pub current_run: Option<Xid>,
}

/// A schedule, as values.
pub struct ScheduleView {
    pub name: Seq<char>,
    pub next_run: Timestamp,
    pub last_run: Option<Timestamp>,
    pub current_run: Option<Xid>,
}

impl View for Schedule {
    type V = ScheduleView;

    open spec fn view(&self) -> ScheduleView {
        ScheduleView {
            name: self.name@,
            next_run: self.next_run,
            last_run: self.last_run,
            current_run: self.current_run,
        }
    }
}

impl Clone for Schedule {
    fn clone(&self) -> (r: Schedule)
        ensures
            r@ == self@,
    {
        Schedule {
            name: self.name.clone(),
            next_run: self.next_run,
            last_run: self.last_run,
            current_run: self.current_run,
        }
    }
}

impl Schedule {
    /// A schedule named `name` whose next run is at `next_run`, with no run yet.
    pub fn new(name: &str, next_run: Timestamp) -> (r: Schedule)
        ensures
            r@.name == name@,
            r.next_run == next_run,
            r.last_run is None,
            r.current_run is None,
    {
        Schedule { name: name.to_owned(), next_run, last_run: None, current_run: None }
    }
}

/// The views of a list of schedules.
pub open spec fn schedule_views(v: Seq<Schedule>) -> Seq<ScheduleView> {
    v.map_values(|s: Schedule| s@)
}

/// Whether schedules are in order of their next run.
pub open spec fn sorted_by_next_run(s: Seq<ScheduleView>) -> bool {
    forall|i: int, j: int| 0 <= i < j < s.len() ==> not_after(#[trigger] s[i].next_run, #[trigger] s[j].next_run)
}

/// Inserts `x` after every schedule that runs no later than it, counting from the back: it goes
/// before the trailing schedules that run strictly later, and after all others.
pub open spec fn insert_by_next_run(s: Seq<ScheduleView>, x: ScheduleView) -> Seq<ScheduleView>
    decreases s.len(),
{
    if s.len() == 0 {
        seq![x]
    } else if before(x.next_run, s.last().next_run) {
        insert_by_next_run(s.drop_last(), x).push(s.last())
    } else {
        s.push(x)
    }
}

/// Adds the schedules of `xs` one after the other, each by `insert_by_next_run`.
pub open spec fn add_by_next_run(s: Seq<ScheduleView>, xs: Seq<ScheduleView>) -> Seq<ScheduleView>
    decreases xs.len(),
{
    if xs.len() == 0 {
        s
    } else {
        insert_by_next_run(add_by_next_run(s, xs.drop_last()), xs.last())
    }
}

/// Inserting at `p`, where the schedules from `p` on run strictly after `x` and the one before
/// `p` does not, is `insert_by_next_run`.
pub proof fn lemma_insert_at(s: Seq<ScheduleView>, x: ScheduleView, p: int)
    requires
        0 <= p <= s.len(),
        forall|j: int| p <= j < s.len() ==> before(x.next_run, #[trigger] s[j].next_run),
        p > 0 ==> !before(x.next_run, s[p - 1].next_run),
    ensures
        insert_by_next_run(s, x) == s.insert(p, x),
    decreases s.len(),
{
    if s.len() == 0 {
        assert(s.insert(p, x) =~= seq![x]);
    } else if p == s.len() {
        assert(s.insert(p, x) =~= s.push(x));
    } else {
        let t = s.drop_last();
        assert(before(x.next_run, s[s.len() - 1].next_run));
        assert forall|j: int| p <= j < t.len() implies before(x.next_run, #[trigger] t[j].next_run) by {
            assert(t[j] == s[j]);
        }
        if p > 0 {
            assert(t[p - 1] == s[p - 1]);
        }
        lemma_insert_at(t, x, p);
        assert(t.insert(p, x).push(s.last()) =~= s.insert(p, x));
    }
}

/// Inserting at `p`, where the schedules from `p` on run strictly after `x` and the one before
/// `p` does not, keeps schedules in order of their next run.
pub proof fn lemma_insert_at_keeps_sorted(s: Seq<ScheduleView>, x: ScheduleView, p: int)
    requires
        sorted_by_next_run(s),
        0 <= p <= s.len(),
        forall|j: int| p <= j < s.len() ==> before(x.next_run, #[trigger] s[j].next_run),
        p > 0 ==> !before(x.next_run, s[p - 1].next_run),
    ensures
        sorted_by_next_run(s.insert(p, x)),
{
    let n = s.insert(p, x);
    assert forall|i: int, j: int| 0 <= i < j < n.len() implies not_after(
        #[trigger] n[i].next_run,
        #[trigger] n[j].next_run,
    ) by {
        if j < p {
        } else if i > p {
            assert(n[i] == s[i - 1]);
            assert(n[j] == s[j - 1]);
        } else if i == p {
            assert(n[j] == s[j - 1]);
        } else if j == p {
            assert(not_after(s[i].next_run, s[p - 1].next_run));
        } else {
            assert(n[j] == s[j - 1]);
        }
    }
}

/// Schedules kept in order of their next run; schedules with the same next run keep the order
/// in which they were added.
pub struct InMemoryScheduleStore {
    schedules: Vec<Schedule>,
}

impl View for InMemoryScheduleStore {
    type V = Seq<ScheduleView>;

    closed spec fn view(&self) -> Seq<ScheduleView> {
        schedule_views(self.schedules@)
    }
}

impl InMemoryScheduleStore {
    #[verifier::type_invariant]
    spec fn well_formed(self) -> bool {
        sorted_by_next_run(schedule_views(self.schedules@))
    }

    /// A store with no schedules.
    pub fn new() -> (r: InMemoryScheduleStore)
        ensures
            r@.len() == 0,
    {
        let r = InMemoryScheduleStore { schedules: Vec::new() };
        proof {
            assert(schedule_views(r.schedules@) =~= Seq::empty());
        }
        r
    }

    /// The store's schedules are in order of their next run.
    pub fn lemma_sorted(&self)
        ensures
            sorted_by_next_run(self@),
    {
        proof {
            use_type_invariant(self);
        }
    }

    /// All schedules, in order of their next run.
    pub fn list_schedules(&self) -> (r: Vec<Schedule>)
        ensures
            schedule_views(r@) == self@,
    {
        let mut r: Vec<Schedule> = Vec::new();
        let mut i: usize = 0;
        while i < self.schedules.len()
            invariant
                0 <= i <= self.schedules.len(),
                schedule_views(r@) =~= self@.take(i as int),
            decreases self.schedules.len() - i,
        {
            let s = self.schedules[i].clone();
            proof {
                assert(s@ == self@[i as int]);
            }
            let ghost old_r = r@;
            r.push(s);
            proof {
                assert(schedule_views(r@) =~= schedule_views(old_r).push(self@[i as int]));
                assert(self@.take(i + 1) =~= self@.take(i as int).push(self@[i as int]));
                assert(schedule_views(r@) =~= self@.take(i + 1));
            }
            i = i + 1;
        }
        proof {
            assert(self@.take(i as int) =~= self@);
        }
        r
    }

    /// Adds `schedules`, each after the stored schedules that run no later than it.
    pub fn add_schedules(&mut self, schedules: &[Schedule])
        ensures
            final(self)@ == add_by_next_run(old(self)@, schedule_views(schedules@)),
    {
        proof {
            use_type_invariant(&*self);
        }
        let ghost start = self@;
        let mut list: Vec<Schedule> = Vec::new();
        proof {
            assert(schedule_views(list@) =~= Seq::empty());
        }
        std::mem::swap(&mut list, &mut self.schedules);
        let mut k: usize = 0;
        while k < schedules.len()
            invariant
                0 <= k <= schedules.len(),
                schedule_views(list@) == add_by_next_run(
                    start,
                    schedule_views(schedules@).take(k as int),
                ),
                sorted_by_next_run(schedule_views(list@)),
            decreases schedules.len() - k,
        {
            let x = schedules[k].clone();
            let ghost cur = schedule_views(list@);
            let mut p: usize = list.len();
            while p > 0 && x.next_run.before(&list[p - 1].next_run)
                invariant
                    0 <= p <= list.len(),
                    cur == schedule_views(list@),
                    forall|j: int| p <= j < cur.len() ==> before(x.next_run, #[trigger] cur[j].next_run),
                decreases p,
            {
                proof {
                    assert(cur[p - 1] == list@[p - 1]@);
                }
                p = p - 1;
            }
            proof {
                if p > 0 {
                    assert(cur[p - 1] == list@[p - 1]@);
                }
                lemma_insert_at(cur, x@, p as int);
                let xs = schedule_views(schedules@).take(k + 1);
                assert(xs.drop_last() =~= schedule_views(schedules@).take(k as int));
                assert(xs.last() == x@);
            }
            list.insert(p, x);
            proof {
                assert(schedule_views(list@) =~= cur.insert(p as int, x@));
                lemma_insert_at_keeps_sorted(cur, x@, p as int);
            }
            k = k + 1;
        }
        proof {
            assert(schedule_views(schedules@).take(schedules@.len() as int) =~= schedule_views(
                schedules@,
            ));
        }
        self.schedules = list;
    }

    /// Takes out the schedules that run strictly before `now`; they are the first ones, returned
    /// in order, and the store keeps the rest.
    pub fn take_schedules_to_run(&mut self, now: Timestamp) -> (r: Vec<Schedule>)
        ensures
            r@.len() <= old(self)@.len(),
            schedule_views(r@) == old(self)@.take(r@.len() as int),
            final(self)@ == old(self)@.skip(r@.len() as int),
            forall|i: int| 0 <= i < old(self)@.len() ==> (i < r@.len() <==> before(
                #[trigger] old(self)@[i].next_run,
                now,
            )),
    {
        proof {
            use_type_invariant(&*self);
        }
        let ghost start = self@;
        let mut i: usize = 0;
        while i < self.schedules.len() && self.schedules[i].next_run.before(&now)
            invariant
                0 <= i <= self.schedules.len(),
                start == self@,
                forall|j: int| 0 <= j < i ==> before(#[trigger] start[j].next_run, now),
            decreases self.schedules.len() - i,
        {
            proof {
                assert(start[i as int] == self.schedules@[i as int]@);
            }
            i = i + 1;
        }
        proof {
            if i < self.schedules.len() {
                assert(start[i as int] == self.schedules@[i as int]@);
                assert forall|j: int| i <= j < start.len() implies !before(#[trigger] start[j].next_run, now) by {
                    assert(not_after(start[i as int].next_run, start[j].next_run));
                }
            }
        }
        let mut list: Vec<Schedule> = Vec::new();
        proof {
            assert(schedule_views(list@) =~= Seq::empty());
        }
        std::mem::swap(&mut list, &mut self.schedules);
        let rest = list.split_off(i);
        proof {
            assert(schedule_views(rest@) =~= start.skip(i as int));
            assert(schedule_views(list@) =~= start.take(i as int));
            let t = start.skip(i as int);
            assert forall|a: int, b: int| 0 <= a < b < t.len() implies not_after(
                #[trigger] t[a].next_run,
                #[trigger] t[b].next_run,
            ) by {
                assert(t[a] == start[a + i]);
                assert(t[b] == start[b + i]);
            }
        }
        self.schedules = rest;
        list
    }
}

} // verus!
