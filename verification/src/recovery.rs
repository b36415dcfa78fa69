//! The recovery policy: which action answers a health verdict, given how
//! often the process was restarted already, and the statistics of the actions
//! taken.
//!
//! Restarts are capped: once a process has been restarted as often as the
//! configuration allows, no verdict leads to another restart. Below the cap a
//! process that is gone is restarted at once, and a process that is alive but
//! unhealthy is restarted after a delay that grows linearly with the number
//! of restarts already made, up to a configured bound.

use vstd::prelude::*;
use vstd::string::*;
use crate::config::RecoveryConfig;
use crate::text::{decimal, push_decimal};

verus! {

/// What a health check found.
#[derive(Debug, Clone)]
pub enum HealthVerdict {
    Healthy,
    /// A check failed while the process itself is alive.
    Unhealthy { reason: String },
    /// The process is gone or failed to start.
    Dead { reason: String },
}

/// How bad a verdict is.
#[derive(Debug, Clone, Copy, PartialEq, Eq, Structural)]
pub enum Severity {
    /// Nothing is wrong.
    Healthy,
    /// A check failed; the process is alive.
    Unhealthy,
    /// The process is gone.
    Dead,
}

/// What is done about an unhealthy process.
#[derive(Debug, Clone, Copy, PartialEq, Eq, Structural)]
pub enum RecoveryAction {
    /// Restart at once.
    Restart,
    /// Restart after `delay_secs` seconds.
    RestartWithBackoff { delay_secs: u64 },
    /// Give up on the process: stop it and leave it to the operator.
    Escalate,
    /// Leave the process as it is.
    NoAction,
}

/// The work that an action comes to.
#[derive(Debug, Clone, Copy, PartialEq, Eq, Structural)]
pub enum RecoveryStep {
    /// Wait `delay_secs` seconds, then restart the process.
    Restart { delay_secs: u64 },
    /// Stop the process.
    Stop,
    Nothing,
}

/// How many actions of each kind were taken.
#[derive(Debug, Clone, Copy, PartialEq, Eq, Structural)]
pub struct ScenarioCounts {
    pub restart: u64,
    pub restart_with_backoff: u64,
    pub escalate: u64,
    pub no_action: u64,
}

/// The statistics of the recovery engine.
#[derive(Debug, Clone, Copy, PartialEq, Eq, Structural)]
pub struct RecoveryStats {
    pub total_recoveries: u64,
    pub successful: u64,
    pub failed: u64,
    pub by_scenario: ScenarioCounts,
}

/// Decides on recovery actions and keeps their statistics.
#[derive(Debug)]
pub struct RecoveryEngine {
    pub config: RecoveryConfig,
    pub stats: RecoveryStats,
}

/// The delay before the restart that follows `restart_count` earlier ones:
/// one step for each restart made and one for the one to come, capped.
pub open spec fn backoff_delay(config: RecoveryConfig, restart_count: u32) -> nat {
    let grown = config.backoff_step_secs * (restart_count + 1);
    if grown > config.backoff_max_secs {
        config.backoff_max_secs as nat
    } else {
        grown as nat
    }
}

/// The action that answers a verdict of the given severity after
/// `restart_count` restarts.
pub open spec fn evaluate_spec(config: RecoveryConfig, severity: Severity, restart_count: u32) -> Option<
    RecoveryAction,
> {
    match severity {
        Severity::Healthy => None,
        _ => if config.max_restarts == 0 {
            Some(RecoveryAction::NoAction)
        } else if restart_count >= config.max_restarts {
            Some(RecoveryAction::Escalate)
        } else if severity == Severity::Dead {
            Some(RecoveryAction::Restart)
        } else {
            Some(
                RecoveryAction::RestartWithBackoff {
                    delay_secs: backoff_delay(config, restart_count) as u64,
                },
            )
        },
    }
}

impl HealthVerdict {
    /// How bad the verdict is.
    pub open spec fn severity_spec(self) -> Severity {
        match self {
            HealthVerdict::Healthy => Severity::Healthy,
            HealthVerdict::Unhealthy { .. } => Severity::Unhealthy,
            HealthVerdict::Dead { .. } => Severity::Dead,
        }
    }

    /// How bad the verdict is.
    pub fn severity(&self) -> (severity: Severity)
        ensures
            severity == self.severity_spec(),
    {
        match self {
            HealthVerdict::Healthy => Severity::Healthy,
            HealthVerdict::Unhealthy { .. } => Severity::Unhealthy,
            HealthVerdict::Dead { .. } => Severity::Dead,
        }
    }
}

impl RecoveryAction {
    /// The action restarts the process.
    pub open spec fn restarts(self) -> bool {
        self is Restart || self is RestartWithBackoff
    }

    /// Seconds that pass before the action restarts the process.
    pub open spec fn delay(self) -> nat {
        match self {
            RecoveryAction::RestartWithBackoff { delay_secs } => delay_secs as nat,
            _ => 0,
        }
    }

    /// The work that the action comes to.
    pub open spec fn step(self) -> RecoveryStep {
        match self {
            RecoveryAction::Restart => RecoveryStep::Restart { delay_secs: 0 },
            RecoveryAction::RestartWithBackoff { delay_secs } => RecoveryStep::Restart { delay_secs },
            RecoveryAction::Escalate => RecoveryStep::Stop,
            RecoveryAction::NoAction => RecoveryStep::Nothing,
        }
    }

    /// The action in words.
    pub open spec fn text(self) -> Seq<char> {
        match self {
            RecoveryAction::Restart => "restart"@,
            RecoveryAction::RestartWithBackoff { delay_secs } => "restart after "@ + decimal(
                delay_secs as nat,
            ) + "s"@,
            RecoveryAction::Escalate => "escalate"@,
            RecoveryAction::NoAction => "no action"@,
        }
    }

    /// Whether the action restarts the process.
    pub fn is_restart(&self) -> (restart: bool)
        ensures
            restart == self.restarts(),
    {
        match self {
            RecoveryAction::Restart => true,
            RecoveryAction::RestartWithBackoff { .. } => true,
            _ => false,
        }
    }

    /// The action in words.
    pub fn to_string(&self) -> (text: String)
        ensures
            text@ == self.text(),
    {
        match self {
            RecoveryAction::Restart => String::from_str("restart"),
            RecoveryAction::RestartWithBackoff { delay_secs } => {
                let mut text = String::from_str("restart after ");
                push_decimal(&mut text, *delay_secs);
                text.append("s");
                text
            },
            RecoveryAction::Escalate => String::from_str("escalate"),
            RecoveryAction::NoAction => String::from_str("no action"),
        }
    }
}

impl ScenarioCounts {
    /// All counts together.
    pub open spec fn sum(self) -> int {
        self.restart + self.restart_with_backoff + self.escalate + self.no_action
    }

    /// The counts after one more action of the kind of `action`.
    pub open spec fn plus(self, action: RecoveryAction) -> ScenarioCounts {
        match action {
            RecoveryAction::Restart => ScenarioCounts { restart: (self.restart + 1) as u64, ..self },
            RecoveryAction::RestartWithBackoff { .. } => ScenarioCounts {
                restart_with_backoff: (self.restart_with_backoff + 1) as u64,
                ..self
            },
            RecoveryAction::Escalate => ScenarioCounts { escalate: (self.escalate + 1) as u64, ..self },
            RecoveryAction::NoAction => ScenarioCounts { no_action: (self.no_action + 1) as u64, ..self },
        }
    }
}

impl RecoveryStats {
    /// Every action was counted once by its result and once by its kind.
    pub open spec fn wf(self) -> bool {
        &&& self.successful + self.failed == self.total_recoveries
        &&& self.by_scenario.sum() == self.total_recoveries
    }

    /// The statistics after one more action, which succeeded or failed.
    pub open spec fn plus(self, action: RecoveryAction, succeeded: bool) -> RecoveryStats {
        RecoveryStats {
            total_recoveries: (self.total_recoveries + 1) as u64,
            successful: if succeeded {
                (self.successful + 1) as u64
            } else {
                self.successful
            },
            failed: if succeeded {
                self.failed
            } else {
                (self.failed + 1) as u64
            },
            by_scenario: self.by_scenario.plus(action),
        }
    }
}

/// The delay grows with the number of restarts, or stays.
pub proof fn lemma_backoff_monotonic(config: RecoveryConfig, fewer: u32, more: u32)
    requires
        fewer <= more,
    ensures
        backoff_delay(config, fewer) <= backoff_delay(config, more),
{
    assert(config.backoff_step_secs * (fewer + 1) <= config.backoff_step_secs * (more + 1))
        by (nonlinear_arith)
        requires
            fewer <= more,
            config.backoff_step_secs >= 0,
    ;
}

/// The delay never exceeds the configured bound.
pub proof fn lemma_backoff_capped(config: RecoveryConfig, restart_count: u32)
    ensures
        backoff_delay(config, restart_count) <= config.backoff_max_secs,
{
}

/// At or above the configured maximum no verdict leads to a restart.
pub proof fn lemma_no_restart_at_limit(config: RecoveryConfig, severity: Severity, restart_count: u32)
    requires
        restart_count >= config.max_restarts,
    ensures
        evaluate_spec(config, severity, restart_count) matches Some(action) ==> !action.restarts(),
{
}

/// Below the configured maximum every verdict but a healthy one leads to a
/// restart.
pub proof fn lemma_restart_below_limit(config: RecoveryConfig, severity: Severity, restart_count: u32)
    requires
        restart_count < config.max_restarts,
        severity != Severity::Healthy,
    ensures
        evaluate_spec(config, severity, restart_count) matches Some(action) && action.restarts(),
{
}

/// For one verdict, below the maximum, the delay before the restart grows
/// with the restart count or stays.
pub proof fn lemma_restart_delay_monotonic(
    config: RecoveryConfig,
    severity: Severity,
    fewer: u32,
    more: u32,
)
    requires
        fewer <= more,
        more < config.max_restarts,
        severity != Severity::Healthy,
    ensures
        evaluate_spec(config, severity, fewer)->0.delay() <= evaluate_spec(config, severity, more)->0.delay(),
{
    lemma_backoff_monotonic(config, fewer, more);
    lemma_backoff_capped(config, fewer);
    lemma_backoff_capped(config, more);
}

/// Computes the delay before the restart that follows `restart_count`
/// earlier ones.
pub fn compute_backoff(config: &RecoveryConfig, restart_count: u32) -> (delay_secs: u64)
    ensures
        delay_secs == backoff_delay(*config, restart_count),
{
    let step: u128 = config.backoff_step_secs as u128;
    let factor: u128 = restart_count as u128 + 1;
    assert(step * factor <= 0x1_0000_0000_0000_0000 * 0x1_0000_0000) by (nonlinear_arith)
        requires
            0 <= step <= 0x1_0000_0000_0000_0000,
            0 <= factor <= 0x1_0000_0000,
    ;
    let grown: u128 = step * factor;
    if grown > config.backoff_max_secs as u128 {
        config.backoff_max_secs
    } else {
        grown as u64
    }
}

/// The work that `action` comes to.
pub fn recovery_step(action: &RecoveryAction) -> (step: RecoveryStep)
    ensures
        step == action.step(),
{
    match action {
        RecoveryAction::Restart => RecoveryStep::Restart { delay_secs: 0 },
        RecoveryAction::RestartWithBackoff { delay_secs } => RecoveryStep::Restart {
            delay_secs: *delay_secs,
        },
        RecoveryAction::Escalate => RecoveryStep::Stop,
        RecoveryAction::NoAction => RecoveryStep::Nothing,
    }
}

impl RecoveryEngine {
    /// The statistics are consistent.
    pub open spec fn wf(&self) -> bool {
        self.stats.wf()
    }

    /// Whether the statistics are consistent.
    pub fn is_consistent(&self) -> (consistent: bool)
        ensures
            consistent == self.wf(),
    {
        let by_result: u128 = self.stats.successful as u128 + self.stats.failed as u128;
        let by_kind: u128 = self.stats.by_scenario.restart as u128
            + self.stats.by_scenario.restart_with_backoff as u128 + self.stats.by_scenario.escalate as u128
            + self.stats.by_scenario.no_action as u128;
        by_result == self.stats.total_recoveries as u128 && by_kind == self.stats.total_recoveries as u128
    }

    /// An engine that has taken no action yet.
    pub fn new(config: RecoveryConfig) -> (engine: RecoveryEngine)
        ensures
            engine.wf(),
            engine.config == config,
            engine.stats.total_recoveries == 0,
            engine.stats.successful == 0,
            engine.stats.failed == 0,
            engine.stats.by_scenario.sum() == 0,
    {
        RecoveryEngine {
            config,
            stats: RecoveryStats {
                total_recoveries: 0,
                successful: 0,
                failed: 0,
                by_scenario: ScenarioCounts {
                    restart: 0,
                    restart_with_backoff: 0,
                    escalate: 0,
                    no_action: 0,
                },
            },
        }
    }

    /// Decides what is done about the process called `name`, which was
    /// restarted `restart_count` times so far, on `verdict`. A healthy
    /// process needs nothing. Where restarting is switched off (a maximum of
    /// 0) nothing is done; at or above the maximum the process is given up.
    /// Below it a process that is gone is restarted at once, and one that is
    /// alive but unhealthy after the backoff delay.
    pub fn evaluate(&self, name: &str, verdict: &HealthVerdict, restart_count: u32) -> (action: Option<
        RecoveryAction,
    >)
        ensures
            action == evaluate_spec(self.config, verdict.severity_spec(), restart_count),
    {
        match verdict {
            HealthVerdict::Healthy => None,
            HealthVerdict::Dead { .. } => {
                if self.config.max_restarts == 0 {
                    Some(RecoveryAction::NoAction)
                } else if restart_count >= self.config.max_restarts {
                    Some(RecoveryAction::Escalate)
                } else {
                    Some(RecoveryAction::Restart)
                }
            },
            HealthVerdict::Unhealthy { .. } => {
                if self.config.max_restarts == 0 {
                    Some(RecoveryAction::NoAction)
                } else if restart_count >= self.config.max_restarts {
                    Some(RecoveryAction::Escalate)
                } else {
                    Some(
                        RecoveryAction::RestartWithBackoff {
                            delay_secs: compute_backoff(&self.config, restart_count),
                        },
                    )
                }
            },
        }
    }

    /// Counts an action that was carried out: once in the total, once by its
    /// result, once by its kind. A failed action is counted and nothing
    /// more: it is no error of the engine.
    pub fn record(&mut self, action: &RecoveryAction, succeeded: bool)
        requires
            old(self).wf(),
            old(self).stats.total_recoveries < u64::MAX,
        ensures
            final(self).wf(),
            final(self).config == old(self).config,
            final(self).stats == old(self).stats.plus(*action, succeeded),
    {
        self.stats.total_recoveries = self.stats.total_recoveries + 1;
        if succeeded {
            self.stats.successful = self.stats.successful + 1;
        } else {
            self.stats.failed = self.stats.failed + 1;
        }
        match action {
            RecoveryAction::Restart => {
                self.stats.by_scenario.restart = self.stats.by_scenario.restart + 1;
            },
            RecoveryAction::RestartWithBackoff { .. } => {
                self.stats.by_scenario.restart_with_backoff = self.stats.by_scenario.restart_with_backoff
                    + 1;
            },
            RecoveryAction::Escalate => {
                self.stats.by_scenario.escalate = self.stats.by_scenario.escalate + 1;
            },
            RecoveryAction::NoAction => {
                self.stats.by_scenario.no_action = self.stats.by_scenario.no_action + 1;
            },
        }
    }

    /// The statistics so far.
    pub fn stats(&self) -> (stats: RecoveryStats)
        ensures
            stats == self.stats,
    {
        self.stats
    }
}

} // verus!
