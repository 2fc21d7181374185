//! The decisions of a server supervisor, as a state machine.
//!
//! The supervisor alternates outside work (spawning a process, waiting for
//! it, sleeping, stopping it) with decisions.  The decisions live here: a
//! function from the current state and the event that the outside work
//! produced to the next state, the state change to publish, and the next
//! piece of work.  The caller performs the work and feeds back the event.
use vstd::prelude::*;
use crate::types::SupervisorCommand;
use crate::text::{push_str, str_equals};

verus! {

/// Limits that govern restarts.
#[derive(Clone, Copy, PartialEq, Eq, Structural, Debug)]
pub struct RestartPolicy {
    /// Number of consecutive failures after which the server is `Fatal`.
    pub max_attempts: u32,
    /// Seconds a process must run before its exit no longer counts as a
    /// consecutive failure.
    pub stable_window_secs: u64,
}

impl RestartPolicy {
    /// The hub's defaults: five attempts, a sixty second stability window.
    pub fn standard() -> (p: RestartPolicy)
        ensures
            p.max_attempts == 5,
            p.stable_window_secs == 60,
    {
        RestartPolicy { max_attempts: 5, stable_window_secs: 60 }
    }

    /// The policy of a server whose config sets `max_retries`: that many
    /// attempts before it is `Fatal` (five when unset), and the standard
    /// stability window.
    pub fn for_server(max_retries: Option<u32>) -> (p: RestartPolicy)
        ensures
            p.max_attempts == match max_retries {
                Some(n) => n,
                None => 5u32,
            },
            p.stable_window_secs == 60,
    {
        match max_retries {
            Some(n) => RestartPolicy { max_attempts: n, stable_window_secs: 60 },
            None => RestartPolicy::standard(),
        }
    }
}

/// Where the supervisor is in its loop.
#[derive(Clone, Copy, PartialEq, Eq, Structural, Debug)]
pub enum Phase {
    /// Waiting for the server's environment to be resolved.
    ResolvingEnv,
    /// A spawn was requested; waiting for its outcome.
    Spawning,
    /// The process `pid` runs; waiting for it to exit or for a command.
    Running { pid: u32 },
    /// Waiting out a backoff delay.
    BackingOff,
    /// Stopping `pid` in order to start it again.
    StoppingForRestart { pid: u32 },
    /// Stopping `pid` for good.
    StoppingForExit { pid: u32 },
    /// The supervisor has exited.
    Finished,
}

/// What the outside work reported back.
#[derive(Clone, Copy, PartialEq, Eq, Structural, Debug)]
pub enum SupervisorEvent {
    /// The environment of the server was resolved.
    EnvResolved,
    /// The environment could not be resolved.
    EnvFailed,
    /// The process was spawned with this pid.
    Spawned { pid: u32 },
    /// Spawning failed.
    SpawnFailed,
    /// The process exited on its own after running this many seconds.
    ChildExited { ran_for_secs: u64 },
    /// The backoff delay elapsed.
    BackoffElapsed,
    /// The hub-wide shutdown was requested.
    ShutdownRequested,
    /// A command arrived.
    CommandReceived { command: SupervisorCommand },
    /// The command channel was closed.
    CommandChannelClosed,
    /// A requested stop of the process completed.
    ChildStopped,
}

/// A state change to publish to observers.
#[derive(Clone, Copy, PartialEq, Eq, Structural, Debug)]
pub enum StateReport {
    Starting,
    Running { pid: u32 },
    /// Backoff before restart attempt number `attempt`.
    Backoff { attempt: u32 },
    Fatal,
    Stopping { pid: u32 },
    Stopped,
}

/// The next piece of outside work.
#[derive(Clone, Copy, PartialEq, Eq, Structural, Debug)]
pub enum Work {
    /// Spawn the server process.
    Spawn,
    /// Wait for the running process to exit, for a command or for shutdown.
    AwaitChild,
    /// Sleep for the backoff delay of index `backoff_index`, interruptibly.
    Sleep { backoff_index: u32 },
    /// Gracefully stop process `pid`.
    StopChild { pid: u32 },
    /// Leave the supervisor loop.
    Exit,
    /// Nothing to do: the event did not apply to the current phase.
    Idle,
}

/// The supervisor's state.
#[derive(Clone, Copy, PartialEq, Eq, Structural, Debug)]
pub struct SupervisorState {
    pub phase: Phase,
    pub consecutive_failures: u32,
    pub policy: RestartPolicy,
}

/// The result of one decision.
#[derive(Clone, Copy, PartialEq, Eq, Structural, Debug)]
pub struct Step {
    pub state: SupervisorState,
    pub report: Option<StateReport>,
    pub work: Work,
}

impl SupervisorState {
    /// A state is well formed when the failure counter can still be
    /// incremented: outside `Finished` it is zero or below the limit.
    pub open spec fn wf(self) -> bool {
        self.phase is Finished || self.consecutive_failures == 0
            || self.consecutive_failures < self.policy.max_attempts
    }

    /// A fresh supervisor, before the environment is resolved.
    pub fn new(policy: RestartPolicy) -> (s: SupervisorState)
        ensures
            s.phase == Phase::ResolvingEnv,
            s.consecutive_failures == 0,
            s.policy == policy,
            s.wf(),
    {
        SupervisorState { phase: Phase::ResolvingEnv, consecutive_failures: 0, policy }
    }
}

/// The state with another phase and failure count.
pub open spec fn with_phase(s: SupervisorState, phase: Phase, failures: u32) -> SupervisorState {
    SupervisorState { phase, consecutive_failures: failures, policy: s.policy }
}

/// Decision after a failure that brings the counter to `failures`:
/// `Fatal` once the limit is reached, otherwise a backoff.
pub open spec fn after_failure(s: SupervisorState, failures: u32) -> Step {
    if failures >= s.policy.max_attempts {
        Step {
            state: with_phase(s, Phase::Finished, failures),
            report: Some(StateReport::Fatal),
            work: Work::Exit,
        }
    } else {
        Step {
            state: with_phase(s, Phase::BackingOff, failures),
            report: Some(StateReport::Backoff { attempt: failures }),
            work: Work::Sleep { backoff_index: (failures - 1) as u32 },
        }
    }
}

/// Start (or start again) the process, with the given failure count.
pub open spec fn start_again(s: SupervisorState, failures: u32) -> Step {
    Step {
        state: with_phase(s, Phase::Spawning, failures),
        report: Some(StateReport::Starting),
        work: Work::Spawn,
    }
}

/// Whether an event asks the supervisor to stop for good.
pub open spec fn is_stop_request(e: SupervisorEvent) -> bool {
    ||| e is ShutdownRequested
    ||| e is CommandChannelClosed
    ||| e == (SupervisorEvent::CommandReceived { command: SupervisorCommand::Shutdown })
}

/// The transition table of the supervisor.
pub open spec fn next_step(s: SupervisorState, e: SupervisorEvent) -> Step {
    let f = s.consecutive_failures;
    let unchanged = Step { state: s, report: None, work: Work::Idle };
    match s.phase {
        Phase::ResolvingEnv => match e {
            SupervisorEvent::EnvResolved => start_again(s, f),
            SupervisorEvent::EnvFailed => Step {
                state: with_phase(s, Phase::Finished, f),
                report: Some(StateReport::Fatal),
                work: Work::Exit,
            },
            _ => unchanged,
        },
        Phase::Spawning => match e {
            SupervisorEvent::Spawned { pid } => Step {
                state: with_phase(s, Phase::Running { pid }, f),
                report: Some(StateReport::Running { pid }),
                work: Work::AwaitChild,
            },
            SupervisorEvent::SpawnFailed => after_failure(s, (f + 1) as u32),
            _ => unchanged,
        },
        Phase::Running { pid } => {
            if is_stop_request(e) {
                Step {
                    state: with_phase(s, Phase::StoppingForExit { pid }, f),
                    report: Some(StateReport::Stopping { pid }),
                    work: Work::StopChild { pid },
                }
            } else {
                match e {
                    SupervisorEvent::ChildExited { ran_for_secs } => {
                        let base: u32 = if ran_for_secs >= s.policy.stable_window_secs { 0 } else { f };
                        after_failure(s, (base + 1) as u32)
                    },
                    SupervisorEvent::CommandReceived { command: SupervisorCommand::Restart } => Step {
                        state: with_phase(s, Phase::StoppingForRestart { pid }, f),
                        report: Some(StateReport::Stopping { pid }),
                        work: Work::StopChild { pid },
                    },
                    _ => unchanged,
                }
            }
        },
        Phase::BackingOff => {
            if is_stop_request(e) {
                Step { state: with_phase(s, Phase::Finished, f), report: None, work: Work::Exit }
            } else {
                match e {
                    SupervisorEvent::BackoffElapsed => start_again(s, f),
                    SupervisorEvent::CommandReceived { command: SupervisorCommand::Restart } =>
                        start_again(s, 0),
                    _ => unchanged,
                }
            }
        },
        Phase::StoppingForRestart { pid } => match e {
            SupervisorEvent::ChildStopped => start_again(s, 0),
            _ => unchanged,
        },
        Phase::StoppingForExit { pid } => match e {
            SupervisorEvent::ChildStopped => Step {
                state: with_phase(s, Phase::Finished, f),
                report: Some(StateReport::Stopped),
                work: Work::Exit,
            },
            _ => unchanged,
        },
        Phase::Finished => unchanged,
    }
}

fn decide_after_failure(s: SupervisorState, failures: u32) -> (r: Step)
    requires
        failures >= 1,
    ensures
        r == after_failure(s, failures),
{
    if failures >= s.policy.max_attempts {
        Step {
            state: SupervisorState { phase: Phase::Finished, consecutive_failures: failures, policy: s.policy },
            report: Some(StateReport::Fatal),
            work: Work::Exit,
        }
    } else {
        Step {
            state: SupervisorState { phase: Phase::BackingOff, consecutive_failures: failures, policy: s.policy },
            report: Some(StateReport::Backoff { attempt: failures }),
            work: Work::Sleep { backoff_index: failures - 1 },
        }
    }
}

fn decide_start(s: SupervisorState, failures: u32) -> (r: Step)
    ensures
        r == start_again(s, failures),
{
    Step {
        state: SupervisorState { phase: Phase::Spawning, consecutive_failures: failures, policy: s.policy },
        report: Some(StateReport::Starting),
        work: Work::Spawn,
    }
}

fn stop_requested(e: SupervisorEvent) -> (b: bool)
    ensures
        b == is_stop_request(e),
{
    match e {
        SupervisorEvent::ShutdownRequested => true,
        SupervisorEvent::CommandChannelClosed => true,
        SupervisorEvent::CommandReceived { command: SupervisorCommand::Shutdown } => true,
        _ => false,
    }
}

/// Decide what the supervisor does next, given what just happened.
pub fn supervisor_step(s: SupervisorState, e: SupervisorEvent) -> (r: Step)
    requires
        s.wf(),
    ensures
        r == next_step(s, e),
        r.state.wf(),
        r.state.policy == s.policy,
{
    let f = s.consecutive_failures;
    let unchanged = Step { state: s, report: None, work: Work::Idle };
    match s.phase {
        Phase::ResolvingEnv => match e {
            SupervisorEvent::EnvResolved => decide_start(s, f),
            SupervisorEvent::EnvFailed => Step {
                state: SupervisorState { phase: Phase::Finished, consecutive_failures: f, policy: s.policy },
                report: Some(StateReport::Fatal),
                work: Work::Exit,
            },
            _ => unchanged,
        },
        Phase::Spawning => match e {
            SupervisorEvent::Spawned { pid } => Step {
                state: SupervisorState { phase: Phase::Running { pid }, consecutive_failures: f, policy: s.policy },
                report: Some(StateReport::Running { pid }),
                work: Work::AwaitChild,
            },
            SupervisorEvent::SpawnFailed => decide_after_failure(s, f + 1),
            _ => unchanged,
        },
        Phase::Running { pid } => {
            if stop_requested(e) {
                Step {
                    state: SupervisorState { phase: Phase::StoppingForExit { pid }, consecutive_failures: f, policy: s.policy },
                    report: Some(StateReport::Stopping { pid }),
                    work: Work::StopChild { pid },
                }
            } else {
                match e {
                    SupervisorEvent::ChildExited { ran_for_secs } => {
                        let base: u32 = if ran_for_secs >= s.policy.stable_window_secs { 0 } else { f };
                        decide_after_failure(s, base + 1)
                    },
                    SupervisorEvent::CommandReceived { command: SupervisorCommand::Restart } => Step {
                        state: SupervisorState { phase: Phase::StoppingForRestart { pid }, consecutive_failures: f, policy: s.policy },
                        report: Some(StateReport::Stopping { pid }),
                        work: Work::StopChild { pid },
                    },
                    _ => unchanged,
                }
            }
        },
        Phase::BackingOff => {
            if stop_requested(e) {
                Step {
                    state: SupervisorState { phase: Phase::Finished, consecutive_failures: f, policy: s.policy },
                    report: None,
                    work: Work::Exit,
                }
            } else {
                match e {
                    SupervisorEvent::BackoffElapsed => decide_start(s, f),
                    SupervisorEvent::CommandReceived { command: SupervisorCommand::Restart } => decide_start(s, 0),
                    _ => unchanged,
                }
            }
        },
        Phase::StoppingForRestart { pid } => match e {
            SupervisorEvent::ChildStopped => decide_start(s, 0),
            _ => unchanged,
        },
        Phase::StoppingForExit { pid } => match e {
            SupervisorEvent::ChildStopped => Step {
                state: SupervisorState { phase: Phase::Finished, consecutive_failures: f, policy: s.policy },
                report: Some(StateReport::Stopped),
                work: Work::Exit,
            },
            _ => unchanged,
        },
        Phase::Finished => unchanged,
    }
}


/// The state reached after a sequence of events.
pub open spec fn run_events(s: SupervisorState, events: Seq<SupervisorEvent>) -> SupervisorState
    decreases events.len(),
{
    if events.len() == 0 {
        s
    } else {
        run_events(next_step(s, events[0]).state, events.drop_first())
    }
}

/// `k` rounds of a failed spawn followed by the end of its backoff.
pub open spec fn failed_spawn_rounds(k: nat) -> Seq<SupervisorEvent>
    decreases k,
{
    if k == 0 {
        Seq::empty()
    } else {
        seq![SupervisorEvent::SpawnFailed, SupervisorEvent::BackoffElapsed] + failed_spawn_rounds(
            (k - 1) as nat,
        )
    }
}

/// Once the supervisor has exited, no event changes anything or asks for work.
pub proof fn finished_is_final(s: SupervisorState, e: SupervisorEvent)
    requires
        s.phase is Finished,
    ensures
        next_step(s, e) == (Step { state: s, report: None, work: Work::Idle }),
{
}

/// A failure is reported as `Fatal` exactly when it brings the count of
/// consecutive failures to the limit; otherwise it is reported as a backoff
/// whose attempt number is the new count, and the supervisor sleeps for the
/// delay of index `attempt - 1`.
pub proof fn failure_reports(s: SupervisorState)
    requires
        s.wf(),
        s.phase is Spawning,
    ensures
        ({
            let r = next_step(s, SupervisorEvent::SpawnFailed);
            let n = s.consecutive_failures + 1;
            &&& r.state.consecutive_failures == n
            &&& (n >= s.policy.max_attempts <==> r.report == Some(StateReport::Fatal))
            &&& (n >= s.policy.max_attempts ==> r.state.phase is Finished && r.work is Exit)
            &&& (n < s.policy.max_attempts ==> r.report == Some(StateReport::Backoff { attempt: n as u32 })
                && r.work == (Work::Sleep { backoff_index: (n - 1) as u32 }))
        }),
{
}

/// A process that exits after running at least the stability window counts
/// as the first failure of a new run; one that exits sooner adds one to the
/// count.
pub proof fn exit_counting(s: SupervisorState, pid: u32, ran_for_secs: u64)
    requires
        s.wf(),
        s.phase == (Phase::Running { pid }),
    ensures
        ({
            let r = next_step(s, SupervisorEvent::ChildExited { ran_for_secs });
            &&& ran_for_secs >= s.policy.stable_window_secs ==> r.state.consecutive_failures == 1
            &&& ran_for_secs < s.policy.stable_window_secs ==> r.state.consecutive_failures
                == s.consecutive_failures + 1
        }),
{
}

/// When a running process exits, the new failure count `n` (one after a
/// run of at least the stability window, otherwise one more than before)
/// decides what happens: below the limit the supervisor backs off before
/// attempt `n` and sleeps for the delay of index `n - 1`, so the delay
/// grows with each consecutive crash; at the limit the server is `Fatal`
/// and the supervisor exits.
pub proof fn exit_reports(s: SupervisorState, pid: u32, ran_for_secs: u64)
    requires
        s.wf(),
        s.phase == (Phase::Running { pid }),
    ensures
        ({
            let r = next_step(s, SupervisorEvent::ChildExited { ran_for_secs });
            let n: int = if ran_for_secs >= s.policy.stable_window_secs {
                1
            } else {
                s.consecutive_failures + 1
            };
            &&& r.state.consecutive_failures == n
            &&& r.state.policy == s.policy
            &&& (n >= s.policy.max_attempts <==> r.report == Some(StateReport::Fatal))
            &&& (n >= s.policy.max_attempts ==> r.state.phase is Finished && r.work is Exit)
            &&& (n < s.policy.max_attempts ==> r.state.phase is BackingOff && r.report == Some(
                StateReport::Backoff { attempt: n as u32 },
            ) && r.work == (Work::Sleep { backoff_index: (n - 1) as u32 }))
        }),
{
}

/// Two crashes in a row, each before the stability window, with a restart
/// between them: the second backoff sleeps for the delay of the next index,
/// one past the first.
pub proof fn crash_loop_backoff_grows(s: SupervisorState, pid: u32, pid2: u32, t1: u64, t2: u64)
    requires
        s.wf(),
        s.phase == (Phase::Running { pid }),
        t1 < s.policy.stable_window_secs,
        t2 < s.policy.stable_window_secs,
        s.consecutive_failures + 2 < s.policy.max_attempts,
    ensures
        ({
            let r1 = next_step(s, SupervisorEvent::ChildExited { ran_for_secs: t1 });
            let r2 = next_step(r1.state, SupervisorEvent::BackoffElapsed);
            let r3 = next_step(r2.state, SupervisorEvent::Spawned { pid: pid2 });
            let r4 = next_step(r3.state, SupervisorEvent::ChildExited { ran_for_secs: t2 });
            &&& r1.work == (Work::Sleep { backoff_index: s.consecutive_failures })
            &&& r4.work == (Work::Sleep { backoff_index: (s.consecutive_failures + 1) as u32 })
        }),
{
}

/// A restart command clears the failure count: while backing off at once,
/// while running once the old process has stopped.  Either way the server
/// is started again.
pub proof fn restart_clears_failures(s: SupervisorState)
    requires
        s.wf(),
        s.phase is BackingOff || s.phase is Running,
    ensures
        ({
            let restart = SupervisorEvent::CommandReceived { command: SupervisorCommand::Restart };
            let r1 = next_step(s, restart);
            if s.phase is BackingOff {
                &&& r1.state.consecutive_failures == 0
                &&& r1.state.phase is Spawning
                &&& r1.report == Some(StateReport::Starting)
                &&& r1.work is Spawn
            } else {
                let r2 = next_step(r1.state, SupervisorEvent::ChildStopped);
                &&& r1.work == (Work::StopChild { pid: s.phase->Running_pid })
                &&& r1.report == Some(StateReport::Stopping { pid: s.phase->Running_pid })
                &&& r2.state.consecutive_failures == 0
                &&& r2.state.phase is Spawning
                &&& r2.report == Some(StateReport::Starting)
                &&& r2.work is Spawn
            }
        }),
{
}

/// A stop request (shutdown, a `Shutdown` command, or a closed command
/// channel) ends the supervisor: a running process is stopped first and
/// `Stopped` is published once it has; a pending backoff is abandoned.
pub proof fn stop_request_ends(s: SupervisorState, e: SupervisorEvent)
    requires
        s.wf(),
        s.phase is BackingOff || s.phase is Running,
        is_stop_request(e),
    ensures
        ({
            let r1 = next_step(s, e);
            if s.phase is BackingOff {
                r1.state.phase is Finished && r1.work is Exit && r1.report is None
            } else {
                let r2 = next_step(r1.state, SupervisorEvent::ChildStopped);
                &&& r1.work == (Work::StopChild { pid: s.phase->Running_pid })
                &&& r2.state.phase is Finished
                &&& r2.report == Some(StateReport::Stopped)
                &&& r2.work is Exit
            }
        }),
{
}

proof fn rounds_below_limit(s: SupervisorState, k: nat)
    requires
        s.phase is Spawning,
        s.consecutive_failures + k < s.policy.max_attempts,
    ensures
        run_events(s, failed_spawn_rounds(k)) == with_phase(
            s,
            Phase::Spawning,
            (s.consecutive_failures + k) as u32,
        ),
    decreases k,
{
    if k > 0 {
        let evs = failed_spawn_rounds(k);
        let rest = failed_spawn_rounds((k - 1) as nat);
        let s1 = next_step(s, SupervisorEvent::SpawnFailed).state;
        let s2 = next_step(s1, SupervisorEvent::BackoffElapsed).state;
        assert(evs[0] == SupervisorEvent::SpawnFailed);
        assert(evs.drop_first() == seq![SupervisorEvent::BackoffElapsed] + rest);
        assert((seq![SupervisorEvent::BackoffElapsed] + rest).drop_first() == rest);
        assert(run_events(s, evs) == run_events(s1, evs.drop_first()));
        assert(run_events(s1, evs.drop_first()) == run_events(s2, rest));
        rounds_below_limit(s2, (k - 1) as nat);
    }
}

/// Starting from a fresh spawn, the server keeps being restarted through
/// `max_attempts - 1` consecutive failed spawns, and the next failure marks
/// it `Fatal` and ends the supervisor.
pub proof fn fatal_after_max_attempts(policy: RestartPolicy)
    requires
        policy.max_attempts >= 1,
    ensures
        ({
            let s0 = SupervisorState { phase: Phase::Spawning, consecutive_failures: 0, policy };
            let k = (policy.max_attempts - 1) as nat;
            let sk = run_events(s0, failed_spawn_rounds(k));
            let last = next_step(sk, SupervisorEvent::SpawnFailed);
            &&& sk.phase is Spawning
            &&& sk.consecutive_failures == k
            &&& last.report == Some(StateReport::Fatal)
            &&& last.state.phase is Finished
            &&& last.state.consecutive_failures == policy.max_attempts
        }),
{
    let s0 = SupervisorState { phase: Phase::Spawning, consecutive_failures: 0, policy };
    rounds_below_limit(s0, (policy.max_attempts - 1) as nat);
}

/// Fewer than `max_attempts` consecutive failed spawns never end the
/// supervisor.
pub proof fn no_fatal_below_limit(policy: RestartPolicy, k: nat)
    requires
        k < policy.max_attempts,
    ensures
        run_events(
            SupervisorState { phase: Phase::Spawning, consecutive_failures: 0, policy },
            failed_spawn_rounds(k),
        ).phase is Spawning,
{
    let s0 = SupervisorState { phase: Phase::Spawning, consecutive_failures: 0, policy };
    rounds_below_limit(s0, k);
}


/// Find the supervisor of the server called `name` among the servers
/// `names`; a missing server is an error naming it.
pub fn find_server_handle(names: &[String], name: &str) -> (r: Result<usize, String>)
    ensures
        match r {
            Ok(i) => i < names@.len() && names@[i as int]@ == name@ && forall|k: int|
                0 <= k < i ==> names@[k]@ != name@,
            Err(m) => (forall|k: int| 0 <= k < names@.len() ==> names@[k]@ != name@) && m@ == "Server '"@
                + name@ + "' not found in config"@,
        },
{
    for i in 0..names.len()
        invariant
            forall|k: int| 0 <= k < i ==> names@[k]@ != name@,
    {
        if str_equals(names[i].as_str(), name) {
            return Ok(i);
        }
    }
    let mut m = String::from_str("Server '");
    push_str(&mut m, name);
    push_str(&mut m, "' not found in config");
    Err(m)
}

} // verus!
