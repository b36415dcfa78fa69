//! The decisions of the supervision loop: what a tick does for each process
//! and which of the periodic side tasks are due.

use vstd::prelude::*;
use vstd::string::*;
use crate::process::ManagedProcess;
use crate::recovery::{evaluate_spec, HealthVerdict, RecoveryAction, RecoveryEngine, Severity};
use crate::state::ProcessState;

verus! {

/// Ticks between two reports of the statistics.
pub const STATS_EVERY_TICKS: u64 = 60;

/// Seconds between two checks for log rotation.
pub const ROTATION_CHECK_SECS: u64 = 3600;

/// What a tick does for one process.
#[derive(Debug, Clone, Copy, PartialEq, Eq, Structural)]
pub enum TickAction {
    /// The process failed and is to be restarted automatically: go to
    /// recovery at once, without a health check.
    Recover,
    /// The process runs: check its health.
    CheckHealth,
    /// Nothing to do in this tick.
    Skip,
}

/// What a tick as a whole does.
#[derive(Debug, Clone, Copy, PartialEq, Eq, Structural)]
pub enum TickPlan {
    /// Shutdown was requested: stop all processes in order and leave the
    /// loop.
    Shutdown,
    /// Supervise every process, then run the side tasks that are due.
    Run { check_rotation: bool, log_stats: bool },
}

/// The counters of the supervision loop.
#[derive(Debug, Clone, Copy, PartialEq, Eq, Structural)]
pub struct Supervisor {
    /// Ticks run so far.
    pub check_count: u64,
    /// When log rotation was last checked, in seconds of a monotonic clock.
    pub last_rotation_check: Option<u64>,
}

/// What a tick does for a process in `state`.
pub open spec fn tick_action_spec(state: ProcessState, auto_restart: bool) -> TickAction {
    if state == ProcessState::Running {
        TickAction::CheckHealth
    } else if state == ProcessState::Failed && auto_restart {
        TickAction::Recover
    } else {
        TickAction::Skip
    }
}

/// A check for log rotation is due: none was made yet, or the last one is an
/// hour or more ago.
pub open spec fn rotation_due(last: Option<u64>, now_secs: u64) -> bool {
    match last {
        Some(at) => now_secs - at >= ROTATION_CHECK_SECS,
        None => true,
    }
}

/// The verdict that stands for a process found in the failed state.
pub open spec fn is_failed_verdict(verdict: HealthVerdict) -> bool {
    verdict matches HealthVerdict::Dead { reason } && reason@ == "Process failed"@
}

/// The recovery action that a tick takes for `record`, where `checked` is
/// the severity of what the health check said, if one was made.
pub open spec fn tick_recovery_spec(
    engine: RecoveryEngine,
    record: ManagedProcess,
    checked: Option<Severity>,
) -> Option<RecoveryAction> {
    match tick_action_spec(record.state, record.config.auto_restart) {
        TickAction::Recover => evaluate_spec(engine.config, Severity::Dead, record.restart_count),
        TickAction::CheckHealth => match checked {
            Some(severity) => evaluate_spec(engine.config, severity, record.restart_count),
            None => None,
        },
        TickAction::Skip => None,
    }
}

/// Decides what a tick does for a process in `state`: a running process
/// gets a health check, a failed one that is to be restarted automatically
/// goes to recovery at once, any other is passed over.
pub fn tick_action(state: ProcessState, auto_restart: bool) -> (action: TickAction)
    ensures
        action == tick_action_spec(state, auto_restart),
{
    match state {
        ProcessState::Running => TickAction::CheckHealth,
        ProcessState::Failed => {
            if auto_restart {
                TickAction::Recover
            } else {
                TickAction::Skip
            }
        },
        _ => TickAction::Skip,
    }
}

/// The verdict handed to recovery for a process found in the failed state.
pub fn failed_verdict() -> (verdict: HealthVerdict)
    ensures
        is_failed_verdict(verdict),
{
    HealthVerdict::Dead { reason: String::from_str("Process failed") }
}

/// The recovery action that a tick takes for `record`: for a failed process
/// that is to be restarted automatically the answer to a "process failed"
/// verdict; for a running process the answer to `verdict`, the result of its
/// health check; for any other process none.
pub fn tick_recovery(engine: &RecoveryEngine, record: &ManagedProcess, verdict: Option<&HealthVerdict>) -> (action:
    Option<RecoveryAction>)
    ensures
        action == tick_recovery_spec(
            *engine,
            *record,
            match verdict {
                Some(found) => Some(found.severity_spec()),
                None => None,
            },
        ),
{
    match tick_action(record.state, record.config.auto_restart) {
        TickAction::Recover => {
            let failed = failed_verdict();
            engine.evaluate(record.name.as_str(), &failed, record.restart_count)
        },
        TickAction::CheckHealth => match verdict {
            Some(found) => engine.evaluate(record.name.as_str(), found, record.restart_count),
            None => None,
        },
        TickAction::Skip => None,
    }
}

impl Supervisor {
    /// A loop that has not run a tick yet.
    pub fn new() -> (supervisor: Supervisor)
        ensures
            supervisor.check_count == 0,
            supervisor.last_rotation_check is None,
    {
        Supervisor { check_count: 0, last_rotation_check: None }
    }

    /// The plan of the next tick and the counters after it.
    pub open spec fn tick_spec(self, running: bool, now_secs: u64) -> (TickPlan, Supervisor) {
        if !running {
            (TickPlan::Shutdown, self)
        } else {
            let due = rotation_due(self.last_rotation_check, now_secs);
            (
                TickPlan::Run {
                    check_rotation: due,
                    log_stats: (self.check_count + 1) % (STATS_EVERY_TICKS as int) == 0,
                },
                Supervisor {
                    check_count: (self.check_count + 1) as u64,
                    last_rotation_check: if due {
                        Some(now_secs)
                    } else {
                        self.last_rotation_check
                    },
                },
            )
        }
    }

    /// Begins a tick. `running` is the shutdown flag: once it is false the
    /// tick is the last one and nothing is counted. Otherwise the tick is
    /// counted, the rotation check is due once an hour, and the statistics
    /// every sixtieth tick.
    pub fn begin_tick(&mut self, running: bool, now_secs: u64) -> (plan: TickPlan)
        requires
            old(self).check_count < u64::MAX,
        ensures
            (plan, *final(self)) == old(self).tick_spec(running, now_secs),
    {
        if !running {
            return TickPlan::Shutdown;
        }
        self.check_count = self.check_count + 1;
        let check_rotation: bool = match self.last_rotation_check {
            Some(at) => now_secs >= at && now_secs - at >= ROTATION_CHECK_SECS,
            None => true,
        };
        if check_rotation {
            self.last_rotation_check = Some(now_secs);
        }
        TickPlan::Run { check_rotation, log_stats: self.check_count % STATS_EVERY_TICKS == 0 }
    }
}

} // verus!
