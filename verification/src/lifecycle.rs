//! The daemon control surface, as decisions over plain facts: whether a
//! pid file exists and whether the recorded process is alive. Reading
//! the file and signalling the process are the caller's side.

use vstd::prelude::*;

verus! {

#[derive(Clone, Copy, Debug, PartialEq, Eq, Structural)]
pub enum DaemonStatus {
    Running,
    Stopped,
    /// A pid file without a live process behind it.
    Stale,
}

/// What `status` reports, with no side effects.
pub open spec fn status_of(pid_file_exists: bool, process_alive: bool) -> DaemonStatus {
    if pid_file_exists {
        if process_alive {
            DaemonStatus::Running
        } else {
            DaemonStatus::Stale
        }
    } else {
        DaemonStatus::Stopped
    }
}

pub fn daemon_status(pid_file_exists: bool, process_alive: bool) -> (r: DaemonStatus)
    ensures
        r == status_of(pid_file_exists, process_alive),
{
    if pid_file_exists {
        if process_alive {
            DaemonStatus::Running
        } else {
            DaemonStatus::Stale
        }
    } else {
        DaemonStatus::Stopped
    }
}

/// `start` may go ahead exactly when no pid file is present.
pub fn may_start(pid_file_exists: bool) -> (r: bool)
    ensures
        r == !pid_file_exists,
{
    !pid_file_exists
}

/// What `stop` does to the recorded process and the pid file.
#[derive(Clone, Copy, Debug, PartialEq, Eq, Structural)]
pub enum StopAction {
    /// Signal the process, then remove the pid file.
    SignalAndRemove,
    /// The process is gone: remove the stale pid file only.
    RemoveStale,
    /// Nothing to stop.
    Nothing,
}

pub open spec fn stop_action_of(pid_file_exists: bool, process_alive: bool) -> StopAction {
    if !pid_file_exists {
        StopAction::Nothing
    } else if process_alive {
        StopAction::SignalAndRemove
    } else {
        StopAction::RemoveStale
    }
}

pub fn stop_action(pid_file_exists: bool, process_alive: bool) -> (r: StopAction)
    ensures
        r == stop_action_of(pid_file_exists, process_alive),
{
    if !pid_file_exists {
        StopAction::Nothing
    } else if process_alive {
        StopAction::SignalAndRemove
    } else {
        StopAction::RemoveStale
    }
}

} // verus!
