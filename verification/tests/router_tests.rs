use aide_de_camp::{
    handle_job_result, handle_next_job, JobAction, JobError, ListenerAction, QueueError,
    RunnerError, RunnerRouter,
};

#[test]
fn registered_handler_is_found() {
    let mut router: RunnerRouter<u32> = RunnerRouter::new();
    router.add_job_handler("a", 1);
    router.add_job_handler("b", 2);
    assert_eq!(*router.lookup("a").unwrap(), 1);
    assert_eq!(*router.lookup("b").unwrap(), 2);
    assert_eq!(router.types(), vec!["a".to_string(), "b".to_string()]);
}

#[test]
fn registering_again_replaces_the_handler() {
    let mut router: RunnerRouter<u32> = RunnerRouter::new();
    router.add_job_handler("a", 1);
    router.add_job_handler("b", 2);
    router.add_job_handler("a", 3);
    assert_eq!(*router.lookup("a").unwrap(), 3);
    assert_eq!(*router.lookup("b").unwrap(), 2);
    assert_eq!(router.types(), vec!["a".to_string(), "b".to_string()]);
}

#[test]
fn unknown_job_type_is_refused() {
    let mut router: RunnerRouter<u32> = RunnerRouter::new();
    router.add_job_handler("a", 1);
    match router.lookup("missing") {
        Err(RunnerError::UnknownJobType(name)) => assert_eq!(name, "missing"),
        _ => panic!("expected an unknown job type"),
    }
    let empty: RunnerRouter<u32> = RunnerRouter::new();
    assert!(empty.types().is_empty());
}

#[test]
fn job_results_decide_the_action() {
    let ok: Result<(), JobError> = Ok(());
    let err: Result<(), JobError> = Err(JobError::Other("failed".to_string()));
    assert_eq!(handle_job_result(&ok, 7, 0), JobAction::Complete);
    assert_eq!(handle_job_result(&err, 0, 0), JobAction::DeadQueue);
    assert_eq!(handle_job_result(&err, 0, 1), JobAction::Fail);
    assert_eq!(handle_job_result(&err, 1, 1), JobAction::DeadQueue);
    assert_eq!(handle_job_result(&err, 5, 3), JobAction::DeadQueue);
    let timeout: Result<(), JobError> =
        Err(JobError::ShutdownTimeout(aide_de_camp::StdDuration::from_millis(10)));
    assert_eq!(handle_job_result(&timeout, 0, 2), JobAction::Fail);
}

#[test]
fn listener_reacts_to_outcomes() {
    assert!(matches!(handle_next_job(Ok(Ok(()))), ListenerAction::Continue));
    match handle_next_job(Ok(Err(RunnerError::UnknownJobType("x".to_string())))) {
        ListenerAction::ReportUnknownJobType(name) => assert_eq!(name, "x"),
        _ => panic!("expected a report"),
    }
    match handle_next_job(Ok(Err(RunnerError::QueueError(QueueError::Other("db".to_string()))))) {
        ListenerAction::Suspend(d) => assert_eq!(d.as_secs(), 5),
        _ => panic!("expected a pause"),
    }
    match handle_next_job(Err(QueueError::Other("db".to_string()))) {
        ListenerAction::Suspend(d) => {
            assert_eq!(d.as_secs(), 5);
            assert_eq!(d.subsec_nanos(), 0);
        }
        _ => panic!("expected a pause"),
    }
}
