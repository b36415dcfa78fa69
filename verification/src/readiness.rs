//! Readiness probing: when a freshly started process may be treated as
//! available to the processes that depend on it.
//!
//! Every wait is bounded by the timeout of the process's readiness settings.
//! The supervisor does the waiting and the looking; the functions here say,
//! from what it saw and how long it has waited, what comes next.

use vstd::prelude::*;
use vstd::string::*;
use regex::Regex;
use crate::config::{ReadyConfig, ReadyMethod};
use crate::text::{decimal, push_decimal};

verus! {

#[verifier::external_type_specification]
#[verifier::external_body]
pub struct ExRegex(regex::Regex);

#[verifier::external_type_specification]
#[verifier::external_body]
pub struct ExRegexError(regex::Error);

/// The pattern text that a compiled expression was made from, as
/// `Regex::as_str` returns it.
pub uninterp spec fn pattern_of(regex: Regex) -> Seq<char>;

/// Whether `Regex::new` accepts the pattern.
pub uninterp spec fn pattern_compiles(pattern: Seq<char>) -> bool;

/// Whether the compiled expression matches somewhere in `text`, as
/// `Regex::is_match` decides it.
pub uninterp spec fn pattern_matches(regex: Regex, text: Seq<char>) -> bool;

/// `Regex::as_str`: the pattern text that the expression was made from.
#[verifier::external_body]
fn source(regex: &Regex) -> (pattern: &str)
    ensures
        pattern@ == pattern_of(*regex),
{
    regex.as_str()
}

/// `Regex::new`: whether it succeeds depends on the pattern alone, and where
/// it succeeds, the expression keeps the text of `pattern`.
#[verifier::external_body]
fn compile(pattern: &str) -> (compiled: Result<Regex, regex::Error>)
    ensures
        compiled is Ok <==> pattern_compiles(pattern@),
        compiled matches Ok(regex) ==> pattern_of(regex) == pattern@,
{
    Regex::new(pattern)
}

/// `Regex::is_match`: whether the expression matches somewhere in `text`.
#[verifier::external_body]
fn is_match(regex: &Regex, text: &str) -> (matched: bool)
    ensures
        matched == pattern_matches(*regex, text@),
{
    regex.is_match(text)
}

/// Milliseconds between two looks for the log file.
pub const FILE_POLL_MS: u64 = 200;

/// Milliseconds between two reads of the log file, and between two
/// connection attempts.
pub const RETRY_POLL_MS: u64 = 500;

/// Seconds of the fixed delay that stands in where the log can tell nothing.
pub const FALLBACK_DELAY_SECS: u64 = 3;

/// Longest fixed readiness delay, in seconds, whatever the timeout is set to.
pub const MAX_FIXED_DELAY_SECS: u64 = 10;

/// Seconds between two looks for a process of another system.
pub const DISCOVERY_POLL_SECS: u64 = 5;

/// Why a readiness probe could not be carried out or failed.
#[derive(Debug)]
pub enum ReadinessError {
    /// The log pattern is no valid expression.
    InvalidPattern { pattern: String },
    /// The port accepted no connection within the timeout.
    PortTimeout { port: u16, timeout_secs: u64 },
}

impl ReadinessError {
    /// The error in words.
    pub open spec fn text(self) -> Seq<char> {
        match self {
            ReadinessError::InvalidPattern { pattern } => "Invalid regex pattern: "@ + pattern@,
            ReadinessError::PortTimeout { port, timeout_secs } => "Timeout waiting for port "@
                + decimal(port as nat) + " after "@ + decimal(timeout_secs as nat) + "s"@,
        }
    }

    /// The error in words.
    pub fn to_string(&self) -> (text: String)
        ensures
            text@ == self.text(),
    {
        match self {
            ReadinessError::InvalidPattern { pattern } => {
                let mut text = String::from_str("Invalid regex pattern: ");
                text.append(pattern.as_str());
                text
            },
            ReadinessError::PortTimeout { port, timeout_secs } => {
                let mut text = String::from_str("Timeout waiting for port ");
                push_decimal(&mut text, *port as u64);
                text.append(" after ");
                push_decimal(&mut text, *timeout_secs);
                text.append("s");
                text
            },
        }
    }
}

/// How the readiness of a process is to be awaited.
#[derive(Debug, Clone, Copy, PartialEq, Eq, Structural)]
pub enum ReadyPlan {
    /// Watch the log file for the configured pattern.
    LogPattern { timeout_secs: u64 },
    /// Connect to the port on the local host.
    Port { port: u16, timeout_secs: u64 },
    /// Sleep for `secs` seconds.
    Delay { secs: u64 },
    /// Nothing to wait for.
    Immediate,
}

/// What a log-pattern probe does next.
#[derive(Debug, Clone, Copy, PartialEq, Eq, Structural)]
pub enum LogProbeStep {
    /// The process counts as ready.
    Ready,
    /// The log file is not there yet: sleep, then look again.
    PollFile { sleep_ms: u64 },
    /// The log file is there: read it.
    Scan,
    /// The pattern has not appeared yet: sleep, then read again.
    PollContent { sleep_ms: u64 },
    /// The log can tell nothing: sleep for the fixed delay, then count the
    /// process as ready.
    Fallback { delay_secs: u64 },
}

/// What a port probe does next.
#[derive(Debug, Clone, Copy, PartialEq, Eq, Structural)]
pub enum PortProbeStep {
    /// The port accepted a connection.
    Ready,
    /// Try to connect.
    Connect,
    /// The attempt failed: sleep, then ask again.
    Sleep { sleep_ms: u64 },
    /// The timeout ran out: the start has failed.
    TimedOut,
}

/// What the wait for a process of another system does next.
#[derive(Debug, Clone, Copy, PartialEq, Eq, Structural)]
pub enum ExternalWaitStep {
    /// Shutdown was requested: stop waiting.
    Abort,
    /// Look for the process in the process table.
    Discover,
    /// The process runs.
    Found,
    /// The process did not appear in time; it may appear later, so the wait
    /// ends without an error.
    TimedOut,
    /// Sleep, then ask again.
    Sleep { secs: u64 },
}

/// Less time than the timeout has passed.
pub open spec fn within(elapsed_ms: u64, timeout_secs: u64) -> bool {
    elapsed_ms < timeout_secs * 1000
}

/// The plan that readiness settings give.
pub open spec fn ready_plan(ready: ReadyConfig) -> ReadyPlan {
    match ready.method {
        ReadyMethod::Log => match ready.pattern {
            Some(_) => ReadyPlan::LogPattern { timeout_secs: ready.timeout },
            None => ReadyPlan::Immediate,
        },
        ReadyMethod::Port => match ready.port {
            Some(port) => ReadyPlan::Port { port, timeout_secs: ready.timeout },
            None => ReadyPlan::Immediate,
        },
        ReadyMethod::Time => ReadyPlan::Delay {
            secs: if ready.timeout < MAX_FIXED_DELAY_SECS {
                ready.timeout
            } else {
                MAX_FIXED_DELAY_SECS
            },
        },
    }
}

/// What comes next while the log file is awaited.
pub open spec fn log_file_step_spec(timeout_secs: u64, elapsed_ms: u64, exists: bool) -> LogProbeStep {
    if exists {
        LogProbeStep::Scan
    } else if within(elapsed_ms, timeout_secs) {
        LogProbeStep::PollFile { sleep_ms: FILE_POLL_MS }
    } else {
        LogProbeStep::Fallback { delay_secs: FALLBACK_DELAY_SECS }
    }
}

/// What comes next while the log file is read.
pub open spec fn log_scan_step_spec(timeout_secs: u64, elapsed_ms: u64, matched: bool) -> LogProbeStep {
    if !within(elapsed_ms, timeout_secs) {
        LogProbeStep::Fallback { delay_secs: FALLBACK_DELAY_SECS }
    } else if matched {
        LogProbeStep::Ready
    } else {
        LogProbeStep::PollContent { sleep_ms: RETRY_POLL_MS }
    }
}

/// What comes next in a port probe.
pub open spec fn port_step_spec(timeout_secs: u64, elapsed_ms: u64, attempt: Option<bool>) -> PortProbeStep {
    match attempt {
        Some(true) => PortProbeStep::Ready,
        Some(false) => PortProbeStep::Sleep { sleep_ms: RETRY_POLL_MS },
        None => if within(elapsed_ms, timeout_secs) {
            PortProbeStep::Connect
        } else {
            PortProbeStep::TimedOut
        },
    }
}

/// What comes next in the wait for a process of another system.
pub open spec fn external_wait_spec(
    running: Option<bool>,
    found: Option<bool>,
    timeout_secs: u64,
    elapsed_ms: u64,
) -> ExternalWaitStep {
    match found {
        None => if running == Some(false) {
            ExternalWaitStep::Abort
        } else {
            ExternalWaitStep::Discover
        },
        Some(true) => ExternalWaitStep::Found,
        Some(false) => if within(elapsed_ms, timeout_secs) {
            ExternalWaitStep::Sleep { secs: DISCOVERY_POLL_SECS }
        } else {
            ExternalWaitStep::TimedOut
        },
    }
}

/// Whether less time than the timeout has passed.
pub fn is_within(elapsed_ms: u64, timeout_secs: u64) -> (inside: bool)
    ensures
        inside == within(elapsed_ms, timeout_secs),
{
    (elapsed_ms as u128) < (timeout_secs as u128) * 1000
}

/// Chooses how the readiness of a process is awaited. A log probe needs a
/// pattern and a port probe a port: without, there is nothing to wait for. A
/// fixed delay is the timeout, but never more than ten seconds, so that no
/// setting can stall the start.
pub fn wait_for_ready(ready: &ReadyConfig) -> (plan: ReadyPlan)
    ensures
        plan == ready_plan(*ready),
{
    match ready.method {
        ReadyMethod::Log => match &ready.pattern {
            Some(_) => ReadyPlan::LogPattern { timeout_secs: ready.timeout },
            None => ReadyPlan::Immediate,
        },
        ReadyMethod::Port => match ready.port {
            Some(port) => ReadyPlan::Port { port, timeout_secs: ready.timeout },
            None => ReadyPlan::Immediate,
        },
        ReadyMethod::Time => {
            let secs: u64 = if ready.timeout < MAX_FIXED_DELAY_SECS {
                ready.timeout
            } else {
                MAX_FIXED_DELAY_SECS
            };
            ReadyPlan::Delay { secs }
        },
    }
}

/// The next step while the log file is awaited: read it once it exists,
/// look again while the timeout lasts, then fall back to the fixed delay.
pub fn log_file_step(timeout_secs: u64, elapsed_ms: u64, exists: bool) -> (step: LogProbeStep)
    ensures
        step == log_file_step_spec(timeout_secs, elapsed_ms, exists),
{
    if exists {
        LogProbeStep::Scan
    } else if is_within(elapsed_ms, timeout_secs) {
        LogProbeStep::PollFile { sleep_ms: FILE_POLL_MS }
    } else {
        LogProbeStep::Fallback { delay_secs: FALLBACK_DELAY_SECS }
    }
}

/// The next step while the log file is read: ready once the pattern
/// matched, read again while the timeout lasts, then fall back to the fixed
/// delay.
pub fn log_scan_step(timeout_secs: u64, elapsed_ms: u64, matched: bool) -> (step: LogProbeStep)
    ensures
        step == log_scan_step_spec(timeout_secs, elapsed_ms, matched),
{
    if !is_within(elapsed_ms, timeout_secs) {
        LogProbeStep::Fallback { delay_secs: FALLBACK_DELAY_SECS }
    } else if matched {
        LogProbeStep::Ready
    } else {
        LogProbeStep::PollContent { sleep_ms: RETRY_POLL_MS }
    }
}

/// The next step of a port probe. `attempt` is the result of the connection
/// attempt just made, if one was: success ends the probe, failure is
/// followed by a short sleep. Before an attempt the timeout decides: once it
/// has run out the probe has failed.
pub fn wait_for_port(timeout_secs: u64, elapsed_ms: u64, attempt: Option<bool>) -> (step: PortProbeStep)
    ensures
        step == port_step_spec(timeout_secs, elapsed_ms, attempt),
{
    match attempt {
        Some(true) => PortProbeStep::Ready,
        Some(false) => PortProbeStep::Sleep { sleep_ms: RETRY_POLL_MS },
        None => {
            if is_within(elapsed_ms, timeout_secs) {
                PortProbeStep::Connect
            } else {
                PortProbeStep::TimedOut
            }
        },
    }
}

/// The next step of the wait for a process of another system. `found` is
/// the result of the look just taken, if one was. Before a look the shutdown
/// flag decides; after a look without success the timeout does.
pub fn wait_for_external_process(
    running: Option<bool>,
    found: Option<bool>,
    timeout_secs: u64,
    elapsed_ms: u64,
) -> (step: ExternalWaitStep)
    ensures
        step == external_wait_spec(running, found, timeout_secs, elapsed_ms),
{
    match found {
        None => match running {
            Some(false) => ExternalWaitStep::Abort,
            _ => ExternalWaitStep::Discover,
        },
        Some(true) => ExternalWaitStep::Found,
        Some(false) => {
            if is_within(elapsed_ms, timeout_secs) {
                ExternalWaitStep::Sleep { secs: DISCOVERY_POLL_SECS }
            } else {
                ExternalWaitStep::TimedOut
            }
        },
    }
}

/// A log-pattern probe: the compiled pattern and the timeout of the wait.
pub struct LogProbe {
    pub regex: Regex,
    pub timeout_secs: u64,
}

impl LogProbe {
    /// The pattern that the probe looks for.
    pub open spec fn pattern(&self) -> Seq<char> {
        pattern_of(self.regex)
    }

    /// Compiles `pattern` for a probe. A pattern that does not compile is an
    /// error that names it.
    pub fn new(pattern: &str, timeout_secs: u64) -> (result: Result<LogProbe, ReadinessError>)
        ensures
            result is Ok <==> pattern_compiles(pattern@),
            match result {
                Ok(probe) => probe.pattern() == pattern@ && probe.timeout_secs == timeout_secs,
                Err(ReadinessError::InvalidPattern { pattern: rejected }) => rejected@ == pattern@,
                Err(_) => false,
            },
    {
        match compile(pattern) {
            Ok(regex) => Ok(LogProbe { regex, timeout_secs }),
            Err(_) => Err(ReadinessError::InvalidPattern { pattern: String::from_str(pattern) }),
        }
    }

    /// The pattern that the probe looks for, as text.
    pub fn pattern_text(&self) -> (text: String)
        ensures
            text@ == self.pattern(),
    {
        String::from_str(source(&self.regex))
    }

    /// Whether the pattern occurs in `content`.
    pub fn matches(&self, content: &str) -> (matched: bool)
        ensures
            matched == pattern_matches(self.regex, content@),
    {
        is_match(&self.regex, content)
    }

    /// The first step of the probe: without a log file to watch there is only
    /// the fixed delay; with one, the file is awaited.
    pub fn begin(&self, has_log_file: bool) -> (step: LogProbeStep)
        ensures
            step == if has_log_file {
                LogProbeStep::PollFile { sleep_ms: 0 }
            } else {
                LogProbeStep::Fallback { delay_secs: FALLBACK_DELAY_SECS }
            },
    {
        if has_log_file {
            LogProbeStep::PollFile { sleep_ms: 0 }
        } else {
            LogProbeStep::Fallback { delay_secs: FALLBACK_DELAY_SECS }
        }
    }

    /// The next step after a look for the log file.
    pub fn wait_for_file(&self, elapsed_ms: u64, exists: bool) -> (step: LogProbeStep)
        ensures
            step == log_file_step_spec(self.timeout_secs, elapsed_ms, exists),
    {
        log_file_step(self.timeout_secs, elapsed_ms, exists)
    }

    /// The next step after an attempt to read the log file: `content` is
    /// what was read, or `None` where the read failed.
    pub fn wait_for_log_pattern(&self, elapsed_ms: u64, content: Option<&str>) -> (step: LogProbeStep)
        ensures
            step == log_scan_step_spec(
                self.timeout_secs,
                elapsed_ms,
                match content {
                    Some(text) => pattern_matches(self.regex, text@),
                    None => false,
                },
            ),
    {
        let matched = match content {
            Some(text) => self.matches(text),
            None => false,
        };
        log_scan_step(self.timeout_secs, elapsed_ms, matched)
    }
}

/// The error of a port probe that timed out.
pub fn port_timeout(port: u16, timeout_secs: u64) -> (error: ReadinessError)
    ensures
        error matches ReadinessError::PortTimeout { port: p, timeout_secs: t } && p == port && t
            == timeout_secs,
{
    ReadinessError::PortTimeout { port, timeout_secs }
}

} // verus!
