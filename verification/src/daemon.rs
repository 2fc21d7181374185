//! Daemon bookkeeping decisions: what to clean up after a dead daemon.
use vstd::prelude::*;

verus! {

/// The answer of probing the process named in the PID file with signal 0.
#[derive(Clone, Copy, PartialEq, Eq, Structural, Debug)]
pub enum PidProbe {
    /// No such process (`ESRCH`): the daemon is dead.
    Dead,
    /// The process exists.
    Alive,
    /// The probe failed otherwise (for instance for lack of permission).
    Failed,
}

/// Files to remove before a new daemon binds the control socket.
#[derive(Clone, Copy, PartialEq, Eq, Structural, Debug)]
pub struct StaleCleanup {
    pub remove_socket: bool,
    pub remove_pid_file: bool,
}

/// Decide which stale files to remove once the control socket has proved
/// not connectable.  `probe` is the result of probing the PID read from the
/// PID file, `None` when there is no readable, parsable PID file.
///
/// - dead process: remove both files;
/// - live process with a broken socket: remove the socket only;
/// - failed probe: remove both, to be safe;
/// - no PID: remove the socket if it exists.
pub fn stale_cleanup(probe: Option<PidProbe>, socket_exists: bool) -> (c: StaleCleanup)
    ensures
        match probe {
            Some(PidProbe::Dead) => c.remove_socket && c.remove_pid_file,
            Some(PidProbe::Alive) => c.remove_socket && !c.remove_pid_file,
            Some(PidProbe::Failed) => c.remove_socket && c.remove_pid_file,
            None => c.remove_socket == socket_exists && !c.remove_pid_file,
        },
{
    match probe {
        Some(PidProbe::Dead) => StaleCleanup { remove_socket: true, remove_pid_file: true },
        Some(PidProbe::Alive) => StaleCleanup { remove_socket: true, remove_pid_file: false },
        Some(PidProbe::Failed) => StaleCleanup { remove_socket: true, remove_pid_file: true },
        None => StaleCleanup { remove_socket: socket_exists, remove_pid_file: false },
    }
}

} // verus!
