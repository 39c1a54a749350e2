use aide_de_camp::{
    get_random_jitter, jitter_of, runner_step, worker_poll_interval, JobHandler, QueueError,
    RunnerEvent, RunnerOptions, RunnerStep, Span, StdDuration, JITTER_INTERVAL_MS,
};

fn is_jitter(nanos: i128) -> bool {
    JITTER_INTERVAL_MS.iter().any(|ms| (*ms as i128) * 1_000_000 == nanos)
}

#[test]
fn jitter_is_one_of_the_choices() {
    for _ in 0..100 {
        assert!(is_jitter(get_random_jitter().as_nanos()));
    }
}

#[test]
fn jitter_of_a_drawn_value() {
    assert_eq!(jitter_of(Some(13)).as_nanos(), 13_000_000);
    assert_eq!(jitter_of(Some(0)).as_nanos(), 0);
    assert_eq!(jitter_of(None).as_nanos(), 5_000_000);
}

#[test]
fn worker_interval_adds_the_jitter() {
    let w = worker_poll_interval(Span::milliseconds(100), Span::milliseconds(21));
    assert_eq!(w.as_nanos(), 121_000_000);
}

#[test]
fn runner_spawns_workers_with_jittered_interval() {
    let options = RunnerOptions::default();
    match runner_step(
        RunnerEvent::PermitAcquired,
        Span::milliseconds(100),
        Span::milliseconds(8),
        &options,
    ) {
        RunnerStep::SpawnWorker(interval) => assert_eq!(interval.as_nanos(), 108_000_000),
        _ => panic!("expected a worker"),
    }
    for _ in 0..20 {
        let jitter = get_random_jitter();
        match runner_step(RunnerEvent::PermitAcquired, Span::milliseconds(100), jitter, &options) {
            RunnerStep::SpawnWorker(interval) => {
                assert!(is_jitter(interval.as_nanos() - 100_000_000));
            }
            _ => panic!("expected a worker"),
        }
    }
}

#[test]
fn runner_shuts_down_and_fails() {
    let options = RunnerOptions::with_worker_shutdown_timeout(StdDuration::from_millis(10));
    match runner_step(RunnerEvent::ShutdownRequested, Span::milliseconds(1), Span::zero(), &options) {
        RunnerStep::Shutdown(d) => assert_eq!(d.subsec_nanos(), 10_000_000),
        _ => panic!("expected shutdown"),
    }
    match runner_step(RunnerEvent::PermitsClosed, Span::milliseconds(1), Span::zero(), &options) {
        RunnerStep::Fail(QueueError::Other(m)) => assert_eq!(m, "Semaphore closed while running"),
        _ => panic!("expected failure"),
    }
}

#[test]
fn runner_options_default_to_fifteen_seconds() {
    let options = RunnerOptions::default();
    assert_eq!(options.worker_shutdown_timeout.as_secs(), 15);
    assert_eq!(options.worker_shutdown_timeout.subsec_nanos(), 0);
}

struct Example;

impl JobHandler for Example {
    fn name() -> &'static str {
        "example"
    }
}

struct Patient;

impl JobHandler for Patient {
    fn max_retries(&self) -> u32 {
        3
    }

    fn shutdown_timeout(&self) -> StdDuration {
        StdDuration::from_millis(10)
    }

    fn name() -> &'static str {
        "patient"
    }
}

#[test]
fn job_handler_defaults() {
    assert_eq!(Example::name(), "example");
    assert_eq!(Example.max_retries(), 0);
    assert_eq!(Example.shutdown_timeout().as_secs(), 1);
    assert_eq!(Patient.max_retries(), 3);
    assert_eq!(Patient.shutdown_timeout().subsec_nanos(), 10_000_000);
    assert_eq!(Patient::name(), "patient");
}
