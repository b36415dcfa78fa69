//! Lifecycle states of a supervised process.

use vstd::prelude::*;
use vstd::string::*;

verus! {

/// Where a supervised process stands in its lifecycle.
#[derive(Debug, Clone, Copy, PartialEq, Eq, Structural)]
pub enum ProcessState {
    Stopped,
    Starting,
    Running,
    Stopping,
    Failed,
}

/// The word shown for a state in status listings.
pub open spec fn state_label(state: ProcessState) -> Seq<char> {
    match state {
        ProcessState::Stopped => "stopped"@,
        ProcessState::Starting => "starting"@,
        ProcessState::Running => "online"@,
        ProcessState::Stopping => "stopping"@,
        ProcessState::Failed => "failed"@,
    }
}

impl ProcessState {
    /// A process id is tracked exactly in these states.
    pub open spec fn holds_pid(self) -> bool {
        self == ProcessState::Running || self == ProcessState::Stopping
    }

    /// The states from which a start may begin.
    pub open spec fn can_start(self) -> bool {
        self == ProcessState::Stopped || self == ProcessState::Failed
    }

    /// The display word of the state.
    pub fn to_string(&self) -> (label: String)
        ensures
            label@ == state_label(*self),
    {
        match self {
            ProcessState::Stopped => String::from_str("stopped"),
            ProcessState::Starting => String::from_str("starting"),
            ProcessState::Running => String::from_str("online"),
            ProcessState::Stopping => String::from_str("stopping"),
            ProcessState::Failed => String::from_str("failed"),
        }
    }

    /// Whether the process is counted as running.
    pub fn is_running(&self) -> (r: bool)
        ensures
            r == (*self == ProcessState::Running),
    {
        match self {
            ProcessState::Running => true,
            _ => false,
        }
    }
}

} // verus!
