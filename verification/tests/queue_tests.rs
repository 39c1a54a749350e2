use aide_de_camp::{JobTable, QueueError, Span, Timestamp};

const TEST_JOB_1: &str = "test_job_1";
const TEST_JOB_2: &str = "test_job_2";

fn now() -> Timestamp {
    Timestamp::new(1_700_000_000, 0)
}

fn job1_types() -> Vec<String> {
    vec![TEST_JOB_1.to_string()]
}

fn payload1() -> (i32, String) {
    (1774, String::from("this is a test"))
}

fn encode<T: bincode::Encode>(value: &T) -> Vec<u8> {
    bincode::encode_to_vec(value, bincode::config::standard()).unwrap()
}

fn decode<T: bincode::Decode<()>>(bytes: &[u8]) -> Result<T, bincode::error::DecodeError> {
    bincode::decode_from_slice(bytes, bincode::config::standard()).map(|(v, _)| v)
}

fn schedule_now(table: &mut JobTable, job_type: &str, priority: i8) -> aide_de_camp::Xid {
    table
        .schedule_at(job_type, encode(&payload1()), now(), priority, now())
        .unwrap()
}

#[test]
fn queue_smoke_test() {
    let mut queue = JobTable::new();

    // If there are no jobs, polling gives nothing.
    assert!(queue.poll_next_with_instant(&job1_types(), now()).unwrap().is_none());

    let jid1 = schedule_now(&mut queue, TEST_JOB_1, 0);

    // Now polling returns this job.
    let job1 = queue.poll_next_with_instant(&job1_types(), now()).unwrap().unwrap();
    assert_eq!(jid1, job1.jid);
    // A second poll returns nothing.
    assert!(queue.poll_next_with_instant(&job1_types(), now()).unwrap().is_none());

    // Completed jobs do not show up in the queue again.
    queue.complete(&job1.jid);
    assert!(queue.poll_next_with_instant(&job1_types(), now()).unwrap().is_none());
}

#[test]
fn failed_jobs() {
    let mut queue = JobTable::new();
    let _jid1 = schedule_now(&mut queue, TEST_JOB_1, 0);

    let job1 = queue.poll_next_with_instant(&job1_types(), now()).unwrap().unwrap();
    assert_eq!(job1.retries, 0);
    queue.fail(&job1.jid);

    // The same job comes back, with one more retry.
    let job1 = queue.poll_next_with_instant(&job1_types(), now()).unwrap().unwrap();
    assert_eq!(job1.retries, 1);
}

#[test]
fn scheduling_future_jobs() {
    let mut queue = JobTable::new();

    // Scheduled to run tomorrow.
    let tomorrow_jid = queue
        .schedule_in(TEST_JOB_1, encode(&payload1()), now(), Span::days(1), 0)
        .unwrap();

    // Not polled yet.
    assert!(queue.poll_next_with_instant(&job1_types(), now()).unwrap().is_none());

    let hour_ago = now().checked_add(&Span::hours(-1)).unwrap();
    let hour_ago_jid = queue
        .schedule_at(TEST_JOB_1, encode(&payload1()), hour_ago, 0, now())
        .unwrap();
    let job = queue.poll_next_with_instant(&job1_types(), now()).unwrap().unwrap();
    assert_eq!(hour_ago_jid, job.jid);

    let tomorrow = now()
        .checked_add(&Span::days(1))
        .unwrap()
        .checked_add(&Span::minutes(1))
        .unwrap();
    let job = queue.poll_next_with_instant(&job1_types(), tomorrow).unwrap().unwrap();
    assert_eq!(tomorrow_jid, job.jid);

    // Everything is in progress, so nothing.
    assert!(queue.poll_next_with_instant(&job1_types(), tomorrow).unwrap().is_none());
}

#[test]
fn cancel_job_not_started() {
    let mut queue = JobTable::new();
    let jid = schedule_now(&mut queue, TEST_JOB_1, 0);
    queue.cancel_job(&jid).unwrap();

    assert!(queue.poll_next_with_instant(&job1_types(), now()).unwrap().is_none());

    let ret = queue.cancel_job(&jid);
    assert!(matches!(ret, Err(QueueError::JobNotFound(_))));
}

#[test]
fn cancel_job_return_payload() {
    let mut queue = JobTable::new();
    let payload = payload1();
    let jid = schedule_now(&mut queue, TEST_JOB_1, 0);

    let deleted = queue.unschedule_job(&jid, TEST_JOB_1).unwrap();
    let deleted_payload: (i32, String) = decode(&deleted).unwrap();
    assert_eq!(payload, deleted_payload);

    let ret = queue.unschedule_job(&jid, TEST_JOB_1);
    assert!(matches!(ret, Err(QueueError::JobNotFound(_))));
}

#[test]
fn cancel_wrong_type() {
    let mut queue = JobTable::new();
    let jid = schedule_now(&mut queue, TEST_JOB_1, 0);

    // Another job type does not find the job.
    let result = queue.unschedule_job(&jid, TEST_JOB_2);
    assert!(matches!(result, Err(QueueError::JobNotFound(_))));

    // The same job type with another payload type finds it but cannot decode it.
    let bytes = queue.unschedule_job(&jid, TEST_JOB_1).unwrap();
    let decoded: Result<(i32, u64, String), _> = decode(&bytes);
    assert!(decoded.is_err());
}

#[test]
fn cancel_job_started() {
    let mut queue = JobTable::new();
    let jid = schedule_now(&mut queue, TEST_JOB_1, 0);

    let _job = queue.poll_next_with_instant(&job1_types(), now()).unwrap().unwrap();

    let ret = queue.cancel_job(&jid);
    assert!(matches!(ret, Err(QueueError::JobNotFound(_))));

    let ret = queue.unschedule_job(&jid, TEST_JOB_1);
    assert!(matches!(ret, Err(QueueError::JobNotFound(_))));
}

#[test]
fn priority_polling() {
    let mut queue = JobTable::new();
    let hour_ago = now().checked_add(&Span::hours(-1)).unwrap();
    let _hour_ago_jid = queue
        .schedule_at(TEST_JOB_1, encode(&payload1()), hour_ago, 0, now())
        .unwrap();
    let higher_priority_jid = queue
        .schedule_at(TEST_JOB_1, encode(&payload1()), hour_ago, 3, now())
        .unwrap();

    let job = queue.poll_next_with_instant(&job1_types(), now()).unwrap().unwrap();
    assert_eq!(higher_priority_jid, job.jid);
}

#[test]
fn equal_priority_polls_in_schedule_order() {
    let mut queue = JobTable::new();
    let first = schedule_now(&mut queue, TEST_JOB_1, 1);
    let second = schedule_now(&mut queue, TEST_JOB_1, 1);
    assert_eq!(queue.poll_next_with_instant(&job1_types(), now()).unwrap().unwrap().jid, first);
    assert_eq!(queue.poll_next_with_instant(&job1_types(), now()).unwrap().unwrap().jid, second);
}

#[test]
fn poll_only_returns_requested_types() {
    let mut queue = JobTable::new();
    let jid2 = schedule_now(&mut queue, TEST_JOB_2, 5);
    assert!(queue.poll_next_with_instant(&job1_types(), now()).unwrap().is_none());
    let both = vec![TEST_JOB_1.to_string(), TEST_JOB_2.to_string()];
    let job = queue.poll_next_with_instant(&both, now()).unwrap().unwrap();
    assert_eq!(job.jid, jid2);
    assert_eq!(job.job_type, TEST_JOB_2);
}

#[test]
fn polled_row_carries_the_scheduled_job() {
    let mut queue = JobTable::new();
    let payload = encode(&payload1());
    let at = Timestamp::new(1_600_000_000, 5);
    let jid = queue.schedule_at(TEST_JOB_1, payload.clone(), at, 0, now()).unwrap();
    let row = queue.poll_next_with_instant(&job1_types(), now()).unwrap().unwrap();
    assert_eq!(row.jid, jid);
    assert_eq!(row.payload, payload);
    assert_eq!(row.scheduled_at, at);
    assert_eq!(row.enqueued_at, now());
    assert_eq!(row.retries, 0);
    assert!(queue.jobs()[0].started);
    assert_eq!(queue.jobs()[0].retries, 1);
}

#[test]
fn job_is_due_exactly_at_its_scheduled_instant() {
    let mut queue = JobTable::new();
    let at = Timestamp::new(1_700_000_100, 0);
    let jid = queue.schedule_at(TEST_JOB_1, vec![], at, 0, now()).unwrap();
    let just_before = Timestamp::new(1_700_000_099, 999_999_999);
    assert!(queue.poll_next_with_instant(&job1_types(), just_before).unwrap().is_none());
    let job = queue.poll_next_with_instant(&job1_types(), at).unwrap().unwrap();
    assert_eq!(job.jid, jid);
}

#[test]
fn dead_queue_moves_the_job() {
    let mut queue = JobTable::new();
    let jid = schedule_now(&mut queue, TEST_JOB_1, 0);
    let row = queue.poll_next_with_instant(&job1_types(), now()).unwrap().unwrap();
    queue.dead_queue(&row).unwrap();
    assert!(queue.jobs().is_empty());
    assert_eq!(queue.dead_jobs().len(), 1);
    assert_eq!(queue.dead_jobs()[0].jid, jid);
    assert_eq!(queue.dead_jobs()[0].job_type, TEST_JOB_1);
    assert_eq!(queue.dead_jobs()[0].retries, 0);
    // The same job cannot die twice.
    assert!(matches!(queue.dead_queue(&row), Err(QueueError::Other(_))));
    assert_eq!(queue.dead_jobs().len(), 1);
}

#[test]
fn failing_job_is_retried_then_dies() {
    // A job whose handler always fails, allowed two retries, runs three times.
    let max_retries = 2;
    let mut queue = JobTable::new();
    let jid = schedule_now(&mut queue, TEST_JOB_1, 0);
    let mut runs = 0;
    loop {
        let row = queue.poll_next_with_instant(&job1_types(), now()).unwrap().unwrap();
        assert_eq!(row.jid, jid);
        runs += 1;
        let failure: Result<(), aide_de_camp::JobError> =
            Err(aide_de_camp::JobError::Other("boom".to_string()));
        match aide_de_camp::handle_job_result(&failure, row.retries, max_retries) {
            aide_de_camp::JobAction::Fail => queue.fail(&row.jid),
            aide_de_camp::JobAction::DeadQueue => {
                queue.dead_queue(&row).unwrap();
                break;
            }
            aide_de_camp::JobAction::Complete => panic!("a failure never completes"),
        }
    }
    assert_eq!(runs, 3);
    assert_eq!(queue.dead_jobs()[0].retries, 2);
    assert!(queue.poll_next_with_instant(&job1_types(), now()).unwrap().is_none());
}

#[test]
fn fail_and_complete_of_unknown_id_change_nothing() {
    let mut queue = JobTable::new();
    let jid = schedule_now(&mut queue, TEST_JOB_1, 0);
    let other = aide_de_camp::Xid { raw: [0; 12] };
    queue.fail(&other);
    queue.complete(&other);
    assert_eq!(queue.jobs().len(), 1);
    assert_eq!(queue.jobs()[0].jid, jid);
}

#[test]
fn try_schedule_in_refuses_unrepresentable_instants() {
    let mut queue = JobTable::new();
    let far = Timestamp::new(i64::MAX / 2, 0);
    let r = queue.try_schedule_in(TEST_JOB_1, vec![], far, Span::days(1), 0);
    assert!(r.is_none());
    assert!(queue.jobs().is_empty());
    let r = queue.try_schedule_in(TEST_JOB_1, vec![], now(), Span::days(1), 0);
    assert!(matches!(r, Some(Ok(_))));
    assert_eq!(queue.jobs()[0].scheduled_at, Timestamp::new(1_700_086_400, 0));
}

#[test]
fn poll_interval_rejects_intervals_not_above_zero() {
    let d = aide_de_camp::poll_interval(Span::milliseconds(1500)).unwrap();
    assert_eq!(d.as_secs(), 1);
    assert_eq!(d.subsec_nanos(), 500_000_000);
    assert!(matches!(
        aide_de_camp::poll_interval(Span::zero()),
        Err(QueueError::InvalidInterval(_))
    ));
    assert!(matches!(
        aide_de_camp::poll_interval(Span::milliseconds(-1)),
        Err(QueueError::InvalidInterval(_))
    ));
}

#[test]
fn job_row_from_columns() {
    let row = aide_de_camp::JobRow::from_columns(
        "9m4e2mr0ui3e8a215n4g",
        TEST_JOB_1.to_string(),
        vec![1, 2, 3],
        3,
        now(),
        now(),
    )
    .unwrap();
    assert_eq!(
        row.jid.raw,
        [0x4d, 0x88, 0xe1, 0x5b, 0x60, 0xf4, 0x86, 0xe4, 0x28, 0x41, 0x2d, 0xc9]
    );
    assert_eq!(row.retries, 2);
    let bad_id = aide_de_camp::JobRow::from_columns("not an id", String::new(), vec![], 1, now(), now());
    assert!(matches!(bad_id, Err(QueueError::Other(_))));
    let too_many = aide_de_camp::JobRow::from_columns(
        "9m4e2mr0ui3e8a215n4g",
        String::new(),
        vec![],
        u32::MAX as i64 + 1,
        now(),
        now(),
    );
    assert!(matches!(too_many, Err(QueueError::Other(_))));
}

#[test]
fn schedule_with_id_refuses_a_queued_id() {
    let mut queue = JobTable::new();
    let jid = aide_de_camp::Xid { raw: [7; 12] };
    let r = queue.schedule_with_id(jid, TEST_JOB_1, vec![1], now(), 0, now());
    assert_eq!(r.unwrap(), jid);
    let again = queue.schedule_with_id(jid, TEST_JOB_2, vec![2], now(), 0, now());
    assert!(matches!(again, Err(QueueError::Other(_))));
    assert_eq!(queue.jobs().len(), 1);
    assert_eq!(queue.jobs()[0].payload, vec![1]);
    // Once the job is gone, the id may be used again.
    queue.complete(&jid);
    assert!(queue.schedule_with_id(jid, TEST_JOB_2, vec![2], now(), 0, now()).is_ok());
}

#[test]
fn delayed_job_is_due_exactly_after_its_delay() {
    let mut queue = JobTable::new();
    let jid = queue
        .schedule_in(TEST_JOB_1, vec![], now(), Span::milliseconds(1500), 0)
        .unwrap();
    let almost = Timestamp::new(1_700_000_001, 499_999_999);
    assert!(queue.poll_next_with_instant(&job1_types(), almost).unwrap().is_none());
    let due = Timestamp::new(1_700_000_001, 500_000_000);
    assert_eq!(queue.poll_next_with_instant(&job1_types(), due).unwrap().unwrap().jid, jid);
}

#[test]
fn next_step_decides_after_a_poll() {
    assert!(matches!(aide_de_camp::next_step(Ok(Some(3u8))), aide_de_camp::PollStep::Done(3)));
    assert!(matches!(aide_de_camp::next_step::<u8>(Ok(None)), aide_de_camp::PollStep::Wait));
    assert!(matches!(
        aide_de_camp::next_step::<u8>(Err(QueueError::Other("db".to_string()))),
        aide_de_camp::PollStep::Fail(QueueError::Other(_))
    ));
}
