use mcp_hub::supervisor::{
    find_server_handle, supervisor_step, Phase, RestartPolicy, StateReport, SupervisorEvent, SupervisorState,
    Work,
};
use mcp_hub::types::{backoff_exponent, backoff_multiplier, SupervisorCommand};

fn started(policy: RestartPolicy) -> SupervisorState {
    let s = SupervisorState::new(policy);
    let step = supervisor_step(s, SupervisorEvent::EnvResolved);
    assert_eq!(step.report, Some(StateReport::Starting));
    assert_eq!(step.work, Work::Spawn);
    step.state
}

#[test]
fn env_failure_is_fatal() {
    let s = SupervisorState::new(RestartPolicy::standard());
    let step = supervisor_step(s, SupervisorEvent::EnvFailed);
    assert_eq!(step.report, Some(StateReport::Fatal));
    assert_eq!(step.work, Work::Exit);
    assert_eq!(step.state.phase, Phase::Finished);
}

#[test]
fn spawn_failures_back_off_then_become_fatal() {
    let policy = RestartPolicy::standard();
    assert_eq!(policy.max_attempts, 5);
    let mut s = started(policy);
    for attempt in 1..5u32 {
        let step = supervisor_step(s, SupervisorEvent::SpawnFailed);
        assert_eq!(step.report, Some(StateReport::Backoff { attempt }));
        assert_eq!(step.work, Work::Sleep { backoff_index: attempt - 1 });
        let step = supervisor_step(step.state, SupervisorEvent::BackoffElapsed);
        assert_eq!(step.report, Some(StateReport::Starting));
        s = step.state;
    }
    let step = supervisor_step(s, SupervisorEvent::SpawnFailed);
    assert_eq!(step.report, Some(StateReport::Fatal));
    assert_eq!(step.state.phase, Phase::Finished);
    assert_eq!(step.state.consecutive_failures, 5);
    let after = supervisor_step(step.state, SupervisorEvent::BackoffElapsed);
    assert_eq!(after.work, Work::Idle);
    assert_eq!(after.report, None);
}

#[test]
fn crash_after_stable_run_counts_as_first_failure() {
    let policy = RestartPolicy::standard();
    let mut s = started(policy);
    for _ in 0..3 {
        s = supervisor_step(s, SupervisorEvent::SpawnFailed).state;
        s = supervisor_step(s, SupervisorEvent::BackoffElapsed).state;
    }
    assert_eq!(s.consecutive_failures, 3);
    let run = supervisor_step(s, SupervisorEvent::Spawned { pid: 77 });
    assert_eq!(run.report, Some(StateReport::Running { pid: 77 }));
    assert_eq!(run.work, Work::AwaitChild);
    let short = supervisor_step(run.state, SupervisorEvent::ChildExited { ran_for_secs: 59 });
    assert_eq!(short.report, Some(StateReport::Backoff { attempt: 4 }));
    let long = supervisor_step(run.state, SupervisorEvent::ChildExited { ran_for_secs: 60 });
    assert_eq!(long.report, Some(StateReport::Backoff { attempt: 1 }));
    assert_eq!(long.work, Work::Sleep { backoff_index: 0 });
}

#[test]
fn restart_command_stops_then_starts_with_cleared_failures() {
    let mut s = started(RestartPolicy::standard());
    s = supervisor_step(s, SupervisorEvent::SpawnFailed).state;
    s = supervisor_step(s, SupervisorEvent::BackoffElapsed).state;
    let run = supervisor_step(s, SupervisorEvent::Spawned { pid: 5 });
    let stop = supervisor_step(
        run.state,
        SupervisorEvent::CommandReceived { command: SupervisorCommand::Restart },
    );
    assert_eq!(stop.report, Some(StateReport::Stopping { pid: 5 }));
    assert_eq!(stop.work, Work::StopChild { pid: 5 });
    let again = supervisor_step(stop.state, SupervisorEvent::ChildStopped);
    assert_eq!(again.report, Some(StateReport::Starting));
    assert_eq!(again.work, Work::Spawn);
    assert_eq!(again.state.consecutive_failures, 0);

    let backing = supervisor_step(again.state, SupervisorEvent::SpawnFailed);
    let restarted = supervisor_step(
        backing.state,
        SupervisorEvent::CommandReceived { command: SupervisorCommand::Restart },
    );
    assert_eq!(restarted.state.consecutive_failures, 0);
    assert_eq!(restarted.work, Work::Spawn);
}

#[test]
fn shutdown_stops_running_child_and_abandons_backoff() {
    let s = started(RestartPolicy::standard());
    let run = supervisor_step(s, SupervisorEvent::Spawned { pid: 9 });
    let stop = supervisor_step(run.state, SupervisorEvent::ShutdownRequested);
    assert_eq!(stop.report, Some(StateReport::Stopping { pid: 9 }));
    let done = supervisor_step(stop.state, SupervisorEvent::ChildStopped);
    assert_eq!(done.report, Some(StateReport::Stopped));
    assert_eq!(done.work, Work::Exit);

    let closed = supervisor_step(run.state, SupervisorEvent::CommandChannelClosed);
    assert_eq!(closed.work, Work::StopChild { pid: 9 });

    let backing = supervisor_step(s, SupervisorEvent::SpawnFailed);
    let quit = supervisor_step(
        backing.state,
        SupervisorEvent::CommandReceived { command: SupervisorCommand::Shutdown },
    );
    assert_eq!(quit.work, Work::Exit);
    assert_eq!(quit.report, None);
}

#[test]
fn max_retries_sets_the_attempt_limit() {
    assert_eq!(RestartPolicy::for_server(None), RestartPolicy::standard());
    let policy = RestartPolicy::for_server(Some(2));
    assert_eq!(policy.max_attempts, 2);
    assert_eq!(policy.stable_window_secs, 60);
    let mut s = started(policy);
    let step = supervisor_step(s, SupervisorEvent::SpawnFailed);
    assert_eq!(step.report, Some(StateReport::Backoff { attempt: 1 }));
    s = supervisor_step(step.state, SupervisorEvent::BackoffElapsed).state;
    let step = supervisor_step(s, SupervisorEvent::SpawnFailed);
    assert_eq!(step.report, Some(StateReport::Fatal));
    assert_eq!(step.work, Work::Exit);
}

#[test]
fn zero_attempt_policy_is_fatal_on_first_failure() {
    let s = started(RestartPolicy { max_attempts: 0, stable_window_secs: 60 });
    let step = supervisor_step(s, SupervisorEvent::SpawnFailed);
    assert_eq!(step.report, Some(StateReport::Fatal));
}

#[test]
fn restart_lookup() {
    let names = vec!["a".to_string(), "b".to_string()];
    assert_eq!(find_server_handle(&names, "b"), Ok(1));
    assert_eq!(find_server_handle(&names, "c"), Err("Server 'c' not found in config".to_string()));
}

#[test]
fn backoff_factor_is_capped() {
    assert_eq!(backoff_exponent(3), 3);
    assert_eq!(backoff_exponent(u32::MAX), 10);
    assert_eq!(backoff_multiplier(0), 1);
    assert_eq!(backoff_multiplier(3), 8);
    assert_eq!(backoff_multiplier(20), 1024);
}

#[test]
fn backoff_factor_doubles_then_stays() {
    for a in 0..10u32 {
        assert_eq!(backoff_multiplier(a + 1), 2 * backoff_multiplier(a));
    }
    assert_eq!(backoff_multiplier(10), 1024);
    assert_eq!(backoff_multiplier(11), backoff_multiplier(10));
    assert_eq!(backoff_multiplier(u32::MAX - 1), 1024);
}
