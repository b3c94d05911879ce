use phpcs_lsp::governor::{
    next_run_step, phpcs_args, standard_is_path, standard_use, wait_budget_millis, StandardUse, RunAction, RunError, RunEvent, RunState,
    EXECUTION_TIMEOUT_SECS, MAX_CONCURRENT_RUNS, WRITE_TIMEOUT_SECS,
};

fn run(events: &[RunEvent]) -> (RunState, RunAction) {
    let mut state = RunState::Queued;
    let mut last = None;
    for e in events {
        let (s, a) = next_run_step(state, *e);
        state = s;
        last = Some(a);
    }
    (state, last.unwrap())
}

#[test]
fn limits() {
    assert_eq!(MAX_CONCURRENT_RUNS, 4);
    assert_eq!(WRITE_TIMEOUT_SECS, 5);
    assert_eq!(EXECUTION_TIMEOUT_SECS, 10);
}

#[test]
fn successful_run() {
    assert_eq!(next_run_step(RunState::Queued, RunEvent::SlotGranted), (RunState::Starting, RunAction::Spawn));
    assert_eq!(next_run_step(RunState::Starting, RunEvent::Spawned), (RunState::Writing, RunAction::WriteInput));
    assert_eq!(next_run_step(RunState::Writing, RunEvent::InputWritten), (RunState::Waiting, RunAction::AwaitExit));
    assert_eq!(
        run(&[RunEvent::SlotGranted, RunEvent::Spawned, RunEvent::InputWritten, RunEvent::Exited]),
        (RunState::Done, RunAction::Finish { kill: false, failure: None })
    );
}

#[test]
fn failures_end_the_run() {
    assert_eq!(
        run(&[RunEvent::SlotGranted, RunEvent::SpawnFailed]),
        (RunState::Done, RunAction::Finish { kill: false, failure: Some(RunError::SpawnFailure) })
    );
    assert_eq!(
        run(&[RunEvent::SlotGranted, RunEvent::Spawned, RunEvent::WriteTimedOut]),
        (RunState::Done, RunAction::Finish { kill: true, failure: Some(RunError::WriteTimeout) })
    );
    assert_eq!(
        run(&[RunEvent::SlotGranted, RunEvent::Spawned, RunEvent::WriteFailed]),
        (RunState::Done, RunAction::Finish { kill: true, failure: Some(RunError::WriteFailure) })
    );
    assert_eq!(
        run(&[RunEvent::SlotGranted, RunEvent::Spawned, RunEvent::InputWritten, RunEvent::WaitTimedOut]),
        (RunState::Done, RunAction::Finish { kill: true, failure: Some(RunError::ExecutionTimeout) })
    );
    assert_eq!(
        run(&[RunEvent::SlotGranted, RunEvent::Spawned, RunEvent::InputWritten, RunEvent::WaitFailed]),
        (RunState::Done, RunAction::Finish { kill: false, failure: Some(RunError::ProcessError) })
    );
}

#[test]
fn arguments() {
    assert_eq!(phpcs_args(None, None), vec!["--report=json", "--no-colors", "-q", "-"]);
    assert_eq!(
        phpcs_args(Some("PSR12"), Some("/w/a.php")),
        vec!["--report=json", "--no-colors", "-q", "--standard=PSR12", "--stdin-path=/w/a.php", "-"]
    );
    assert_eq!(phpcs_args(None, Some("/w/a.php")), vec!["--report=json", "--no-colors", "-q", "--stdin-path=/w/a.php", "-"]);
}

#[test]
fn standards_that_name_files() {
    assert!(standard_is_path("/w/phpcs.xml"));
    assert!(standard_is_path("./ruleset"));
    assert!(standard_is_path("ruleset.xml"));
    assert!(!standard_is_path("PSR12"));
    assert!(!standard_is_path("xml"));
    assert!(!standard_is_path(""));
    assert!(!standard_is_path("phpcs.xml.dist"));
}

#[test]
fn wait_budget_counts_from_start() {
    assert_eq!(wait_budget_millis(0), 10_000);
    assert_eq!(wait_budget_millis(4_000), 6_000);
    assert_eq!(wait_budget_millis(10_000), 0);
    assert_eq!(wait_budget_millis(u64::MAX), 0);
}

#[test]
fn standard_use_for_a_run() {
    assert_eq!(standard_use(None, false), StandardUse::Default);
    assert_eq!(standard_use(Some("PSR12"), false), StandardUse::Pass);
    assert_eq!(standard_use(Some("/w/phpcs.xml"), true), StandardUse::Pass);
    assert_eq!(standard_use(Some("/w/phpcs.xml"), false), StandardUse::Rediscover);
}
