use aide_de_camp::{InMemoryScheduleStore, Schedule, Span, Timestamp};

fn now() -> Timestamp {
    Timestamp::new(1_700_000_000, 0)
}

fn at(delta: Span) -> Timestamp {
    now().checked_add(&delta).unwrap()
}

#[test]
fn test_add_schedules() {
    let mut store = InMemoryScheduleStore::new();
    let schedule = Schedule::new("test", at(Span::days(-1)));

    let schedules = store.list_schedules();
    assert!(schedules.is_empty());

    store.add_schedules(&[schedule.clone()]);
    let schedules = store.list_schedules();

    assert_eq!(schedule, schedules[0]);
}

#[test]
fn test_take_schedules_to_run() {
    let mut store = InMemoryScheduleStore::new();
    let schedule1 = Schedule::new("test1", at(Span::days(-1)));
    let schedule2 = Schedule::new("test2", at(Span::days(1)));

    store.add_schedules(&[schedule1.clone(), schedule2]);

    let schedules = store.take_schedules_to_run(now());
    assert_eq!(1, schedules.len());
    assert_eq!(schedule1, schedules[0]);
}

#[test]
fn schedules_are_kept_in_order_of_next_run() {
    let mut store = InMemoryScheduleStore::new();
    store.add_schedules(&[
        Schedule::new("late", at(Span::hours(3))),
        Schedule::new("early", at(Span::hours(1))),
    ]);
    store.add_schedules(&[
        Schedule::new("middle", at(Span::hours(2))),
        Schedule::new("early-too", at(Span::hours(1))),
    ]);
    let names: Vec<String> = store.list_schedules().into_iter().map(|s| s.name).collect();
    assert_eq!(names, vec!["early", "early-too", "middle", "late"]);
}

#[test]
fn taking_due_schedules_twice_gives_nothing_the_second_time() {
    let mut store = InMemoryScheduleStore::new();
    store.add_schedules(&[
        Schedule::new("a", at(Span::hours(-2))),
        Schedule::new("b", at(Span::hours(-1))),
        Schedule::new("c", now()),
        Schedule::new("d", at(Span::hours(1))),
    ]);
    let due: Vec<String> = store.take_schedules_to_run(now()).into_iter().map(|s| s.name).collect();
    assert_eq!(due, vec!["a", "b"]);
    assert!(store.take_schedules_to_run(now()).is_empty());
    let rest: Vec<String> = store.list_schedules().into_iter().map(|s| s.name).collect();
    assert_eq!(rest, vec!["c", "d"]);
}
