//! One supervised process: its lifecycle state machine and its bookkeeping.
//!
//! The supervisor performs the outside work (spawning, signalling, waiting)
//! and reports what happened; the transitions here decide what the record
//! shows afterwards and what is to be done next.

use vstd::prelude::*;
use vstd::string::*;
use crate::clock::{seconds_between, Timestamp};
use crate::config::{Declared, ProcessConfig};
use crate::matching::{find_first_match, is_first_match, none_matches, table_view, ProcessInfo};
use crate::state::ProcessState;
use crate::text::{base_name, base_name_of, decimal, push_decimal, texts};

verus! {

/// A process under supervision.
#[derive(Debug)]
pub struct ManagedProcess {
    pub name: String,
    pub config: ProcessConfig,
    pub state: ProcessState,
    /// The operating-system process id, while the process is tracked.
    pub pid: Option<u32>,
    /// Whether the supervisor holds the handle of a child that it spawned.
    pub owns_child: bool,
    pub started_at: Option<Timestamp>,
    pub restart_count: u32,
    pub last_exit_code: Option<i32>,
    /// When each restart was recorded, in milliseconds of a monotonic clock.
    pub restart_timestamps: Vec<u64>,
}

impl Declared for ManagedProcess {
    open spec fn declared_name(&self) -> Seq<char> {
        self.name@
    }

    open spec fn declared_dependencies(&self) -> Seq<Seq<char>> {
        texts(self.config.depends_on@)
    }

    fn name_text(&self) -> (name: &str) {
        self.name.as_str()
    }

    fn dependency_list(&self) -> (list: &Vec<String>) {
        &self.config.depends_on
    }
}

/// What a start request asks the supervisor to do.
#[derive(Debug, Clone, Copy, PartialEq, Eq, Structural)]
pub enum StartStep {
    /// The process runs already: nothing to do.
    AlreadyRunning,
    /// The process belongs to another system: look for it in the process
    /// table.
    Discover,
    /// Spawn the configured command and report the outcome.
    Spawn,
    /// A start or stop of this process is under way.
    InTransition,
}

/// How a spawn went.
#[derive(Debug, Clone, Copy, PartialEq, Eq, Structural)]
pub enum SpawnOutcome {
    Spawned { pid: u32 },
    Failed,
}

/// What a stop request asks the supervisor to do.
#[derive(Debug, Clone, Copy, PartialEq, Eq, Structural)]
pub enum StopStep {
    /// The process was stopped already: nothing to do.
    AlreadyStopped,
    /// Nothing had to be terminated; the record now shows the process stopped.
    Cleared,
    /// Ask the child to terminate, wait up to `grace_secs` seconds for its
    /// exit, and report the outcome.
    Terminate { grace_secs: u64 },
}

/// How the wait for a terminating child ended.
#[derive(Debug, Clone, Copy, PartialEq, Eq, Structural)]
pub enum StopOutcome {
    /// The child exited within the grace period.
    Exited { code: Option<i32> },
    /// Waiting for the child failed.
    WaitFailed,
    /// The grace period ran out; the child has to be killed.
    GraceExpired,
}

/// A line of the status listing.
#[derive(Debug)]
pub struct ProcessStatus {
    pub name: String,
    pub state: ProcessState,
    pub pid: Option<u32>,
    pub uptime: String,
    pub restart_count: u32,
}

/// `after` is `before` with one more restart counted, taken at `now_ms`.
pub open spec fn is_restart_of(after: ManagedProcess, before: ManagedProcess, now_ms: u64) -> bool {
    &&& after.restart_count == before.restart_count + 1
    &&& after.restart_timestamps@ == before.restart_timestamps@.push(now_ms)
    &&& after == (ManagedProcess {
        restart_count: after.restart_count,
        restart_timestamps: after.restart_timestamps,
        ..before
    })
}

/// `status` is the status line of `record` at `now`.
pub open spec fn is_status_of(status: ProcessStatus, record: ManagedProcess, now: Timestamp) -> bool {
    &&& status.name@ == record.name@
    &&& status.state == record.state
    &&& status.pid == record.pid
    &&& status.uptime@ == record.uptime_display_spec(now)
    &&& status.restart_count == record.restart_count
}

/// An uptime in words: hours, minutes and seconds, leading zero parts left out.
pub open spec fn uptime_text(total: nat) -> Seq<char> {
    let hours = total / 3600;
    let minutes = (total % 3600) / 60;
    let seconds = total % 60;
    if hours > 0 {
        decimal(hours) + "h "@ + decimal(minutes) + "m "@ + decimal(seconds) + "s"@
    } else if minutes > 0 {
        decimal(minutes) + "m "@ + decimal(seconds) + "s"@
    } else {
        decimal(seconds) + "s"@
    }
}

/// How many of the timestamps are later than `cutoff`.
pub open spec fn count_newer(timestamps: Seq<u64>, cutoff: int) -> nat
    decreases timestamps.len(),
{
    if timestamps.len() == 0 {
        0
    } else {
        count_newer(timestamps.drop_last(), cutoff) + if timestamps.last() > cutoff {
            1nat
        } else {
            0nat
        }
    }
}

/// Renders an uptime of `total` seconds.
pub fn format_uptime(total: u64) -> (text: String)
    ensures
        text@ == uptime_text(total as nat),
{
    let hours: u64 = total / 3600;
    let minutes: u64 = (total % 3600) / 60;
    let seconds: u64 = total % 60;
    let mut text = String::new();
    if hours > 0 {
        push_decimal(&mut text, hours);
        text.append("h ");
        push_decimal(&mut text, minutes);
        text.append("m ");
        push_decimal(&mut text, seconds);
        text.append("s");
        assert(text@ =~= uptime_text(total as nat));
    } else if minutes > 0 {
        push_decimal(&mut text, minutes);
        text.append("m ");
        push_decimal(&mut text, seconds);
        text.append("s");
        assert(text@ =~= uptime_text(total as nat));
    } else {
        push_decimal(&mut text, seconds);
        text.append("s");
        assert(text@ =~= uptime_text(total as nat));
    }
    text
}

/// The termination has to be forced exactly when the grace period ran out.
pub fn force_kill_needed(outcome: StopOutcome) -> (needed: bool)
    ensures
        needed == (outcome == StopOutcome::GraceExpired),
{
    match outcome {
        StopOutcome::GraceExpired => true,
        _ => false,
    }
}

impl ManagedProcess {
    /// The record is consistent: a process id is held exactly while the
    /// process runs or is being stopped, a child handle exactly for a tracked
    /// process that the supervisor spawned, a process of another system is
    /// either stopped or running, and every counted restart has its
    /// timestamp.
    pub open spec fn wf(&self) -> bool {
        &&& self.pid is Some <==> self.state.holds_pid()
        &&& self.owns_child <==> self.config.managed && self.pid is Some
        &&& !self.config.managed ==> self.state == ProcessState::Stopped || self.state
            == ProcessState::Running
        &&& self.restart_timestamps@.len() == self.restart_count
    }

    /// The uptime at `now`, in whole seconds, of a process that was started.
    pub open spec fn uptime_spec(&self, now: Timestamp) -> Option<u64> {
        match self.started_at {
            Some(started) => Some(seconds_between(started, now) as u64),
            None => None,
        }
    }

    /// The uptime column at `now`.
    pub open spec fn uptime_display_spec(&self, now: Timestamp) -> Seq<char> {
        match self.started_at {
            Some(started) => uptime_text(seconds_between(started, now) as nat),
            None => "-"@,
        }
    }

    /// The record after a start request.
    pub open spec fn after_begin_start(self) -> ManagedProcess {
        if self.config.managed && self.state.can_start() {
            ManagedProcess { state: ProcessState::Starting, ..self }
        } else {
            self
        }
    }

    /// What a start request asks for.
    pub open spec fn start_step(self) -> StartStep {
        if self.state == ProcessState::Running {
            StartStep::AlreadyRunning
        } else if !self.config.managed {
            StartStep::Discover
        } else if self.state.can_start() {
            StartStep::Spawn
        } else {
            StartStep::InTransition
        }
    }

    /// The record after the outcome of a spawn was reported.
    pub open spec fn after_spawn(self, outcome: SpawnOutcome, now: Timestamp) -> ManagedProcess {
        if self.state != ProcessState::Starting {
            self
        } else {
            match outcome {
                SpawnOutcome::Spawned { pid } => ManagedProcess {
                    state: ProcessState::Running,
                    pid: Some(pid),
                    owns_child: true,
                    started_at: Some(now),
                    ..self
                },
                SpawnOutcome::Failed => ManagedProcess { state: ProcessState::Failed, ..self },
            }
        }
    }

    /// The record after a look at the process table: running under the
    /// process id that was found, or stopped where none was.
    pub open spec fn after_discovery(self, found: Option<u32>, now: Timestamp) -> ManagedProcess {
        match found {
            Some(pid) => ManagedProcess {
                state: ProcessState::Running,
                pid: Some(pid),
                owns_child: false,
                started_at: Some(now),
                ..self
            },
            None => ManagedProcess { state: ProcessState::Stopped, pid: None, ..self },
        }
    }

    /// What a stop request asks for.
    pub open spec fn stop_step(self, grace: Option<u64>, default_grace: u64) -> StopStep {
        if self.state == ProcessState::Stopped {
            StopStep::AlreadyStopped
        } else if self.owns_child {
            StopStep::Terminate {
                grace_secs: match grace {
                    Some(secs) => secs,
                    None => default_grace,
                },
            }
        } else {
            StopStep::Cleared
        }
    }

    /// The record after a stop request.
    pub open spec fn after_begin_stop(self) -> ManagedProcess {
        if self.state == ProcessState::Stopped {
            self
        } else if self.owns_child {
            ManagedProcess { state: ProcessState::Stopping, ..self }
        } else {
            ManagedProcess { state: ProcessState::Stopped, pid: None, owns_child: false, ..self }
        }
    }

    /// The record after the end of a termination was reported.
    pub open spec fn after_stop(self, outcome: StopOutcome) -> ManagedProcess {
        if self.state != ProcessState::Stopping {
            self
        } else {
            ManagedProcess {
                state: ProcessState::Stopped,
                pid: None,
                owns_child: false,
                last_exit_code: match outcome {
                    StopOutcome::Exited { code } => code,
                    _ => self.last_exit_code,
                },
                ..self
            }
        }
    }

    /// A fresh record: stopped, never started, never restarted.
    pub fn new(name: String, config: ProcessConfig) -> (process: ManagedProcess)
        ensures
            process.wf(),
            process.name == name,
            process.config == config,
            process.state == ProcessState::Stopped,
            process.pid is None,
            !process.owns_child,
            process.started_at is None,
            process.restart_count == 0,
            process.last_exit_code is None,
            process.restart_timestamps@.len() == 0,
    {
        ManagedProcess {
            name,
            config,
            state: ProcessState::Stopped,
            pid: None,
            owns_child: false,
            started_at: None,
            restart_count: 0,
            last_exit_code: None,
            restart_timestamps: Vec::new(),
        }
    }

    /// Whether the record is consistent.
    pub fn is_consistent(&self) -> (consistent: bool)
        ensures
            consistent == self.wf(),
    {
        let has_pid = self.pid.is_some();
        let active = match self.state {
            ProcessState::Running | ProcessState::Stopping => true,
            _ => false,
        };
        let settled = match self.state {
            ProcessState::Running | ProcessState::Stopped => true,
            _ => false,
        };
        has_pid == active && self.owns_child == (self.config.managed && has_pid) && (self.config.managed
            || settled) && self.restart_timestamps.len() == self.restart_count as usize
    }

    /// Seconds since the process was started, counted up to `now`.
    pub fn uptime_at(&self, now: Timestamp) -> (uptime: Option<u64>)
        ensures
            uptime == self.uptime_spec(now),
    {
        match self.started_at {
            Some(started) => Some(started.seconds_until(now)),
            None => None,
        }
    }

    /// Seconds since the process was started, by the wall clock.
    pub fn uptime(&self) -> (uptime: Option<u64>)
        ensures
            uptime is Some <==> self.started_at is Some,
    {
        self.uptime_at(Timestamp::now())
    }

    /// The uptime at `now` in words, or a dash for a process never started.
    pub fn uptime_display_at(&self, now: Timestamp) -> (text: String)
        ensures
            text@ == self.uptime_display_spec(now),
    {
        match self.uptime_at(now) {
            Some(total) => format_uptime(total),
            None => String::from_str("-"),
        }
    }

    /// The uptime by the wall clock in words, or a dash for a process never
    /// started.
    pub fn uptime_display(&self) -> (text: String)
        ensures
            self.started_at is None ==> text@ == "-"@,
            self.started_at is Some ==> exists|total: nat| text@ == uptime_text(total),
    {
        let now = Timestamp::now();
        let text = self.uptime_display_at(now);
        proof {
            if let Some(started) = self.started_at {
                assert(text@ == uptime_text(seconds_between(started, now) as nat));
            }
        }
        text
    }

    /// What a start request would ask for; the record is not changed.
    pub fn next_start_step(&self) -> (step: StartStep)
        ensures
            step == self.start_step(),
    {
        match self.state {
            ProcessState::Running => StartStep::AlreadyRunning,
            ProcessState::Stopped | ProcessState::Failed => {
                if self.config.managed {
                    StartStep::Spawn
                } else {
                    StartStep::Discover
                }
            },
            _ => {
                if self.config.managed {
                    StartStep::InTransition
                } else {
                    StartStep::Discover
                }
            },
        }
    }

    /// Whether the record shows the process stopped.
    pub fn is_stopped(&self) -> (stopped: bool)
        ensures
            stopped == (self.state == ProcessState::Stopped),
    {
        match self.state {
            ProcessState::Stopped => true,
            _ => false,
        }
    }

    /// Takes a start request: a stopped or failed process that the supervisor
    /// owns goes to `Starting`; otherwise the record stays as it is. The
    /// result says what is to be done.
    pub fn begin_start(&mut self) -> (step: StartStep)
        requires
            old(self).wf(),
        ensures
            final(self).wf(),
            step == old(self).start_step(),
            *final(self) == old(self).after_begin_start(),
    {
        match self.state {
            ProcessState::Running => StartStep::AlreadyRunning,
            _ => {
                if !self.config.managed {
                    StartStep::Discover
                } else {
                    match self.state {
                        ProcessState::Stopped | ProcessState::Failed => {
                            self.state = ProcessState::Starting;
                            StartStep::Spawn
                        },
                        _ => StartStep::InTransition,
                    }
                }
            },
        }
    }

    /// Takes the outcome of a spawn. A process in `Starting` goes to
    /// `Running` with the new process id and a fresh start time, or to
    /// `Failed`. In any other state nothing changes and the result is false.
    pub fn complete_spawn(&mut self, outcome: SpawnOutcome, now: Timestamp) -> (applied: bool)
        requires
            old(self).wf(),
        ensures
            final(self).wf(),
            applied == (old(self).state == ProcessState::Starting),
            *final(self) == old(self).after_spawn(outcome, now),
    {
        match self.state {
            ProcessState::Starting => {
                match outcome {
                    SpawnOutcome::Spawned { pid } => {
                        self.state = ProcessState::Running;
                        self.pid = Some(pid);
                        self.owns_child = true;
                        self.started_at = Some(now);
                    },
                    SpawnOutcome::Failed => {
                        self.state = ProcessState::Failed;
                    },
                }
                true
            },
            _ => false,
        }
    }

    /// Looks for a process of another system in `table`, under the base name
    /// of its configured command. The first match makes the record `Running`
    /// with that entry's process id and `now` as start time; without a match
    /// the record is `Stopped`, which is no failure: the process may appear
    /// later.
    pub fn discover_external_process(&mut self, table: &Vec<ProcessInfo>, now: Timestamp) -> (found:
        Option<usize>)
        requires
            old(self).wf(),
            !old(self).config.managed,
        ensures
            final(self).wf(),
            match found {
                Some(at) => {
                    &&& is_first_match(
                        table_view(table@),
                        base_name_of(old(self).config.command@),
                        Seq::empty(),
                        at as int,
                    )
                    &&& *final(self) == old(self).after_discovery(Some(table@[at as int].pid), now)
                },
                None => {
                    &&& none_matches(
                        table_view(table@),
                        base_name_of(old(self).config.command@),
                        Seq::empty(),
                    )
                    &&& *final(self) == old(self).after_discovery(None, now)
                },
            },
    {
        let cmd_name = base_name(self.config.command.as_str());
        let none: Vec<String> = Vec::new();
        assert(texts(none@) =~= Seq::empty());
        let found = find_first_match(table, cmd_name.as_str(), none.as_slice());
        match found {
            Some(at) => {
                self.pid = Some(table[at].pid);
                self.owns_child = false;
                self.state = ProcessState::Running;
                self.started_at = Some(now);
            },
            None => {
                self.state = ProcessState::Stopped;
                self.pid = None;
            },
        }
        found
    }

    /// Takes a stop request. A stopped process stays as it is. A process
    /// whose child the supervisor holds goes to `Stopping`, and the child is
    /// to be terminated within the grace period: `grace`, or `default_grace`
    /// where none is given. Any other process is marked `Stopped` at once and
    /// nothing is signalled.
    pub fn begin_stop(&mut self, grace: Option<u64>, default_grace: u64) -> (step: StopStep)
        requires
            old(self).wf(),
        ensures
            final(self).wf(),
            step == old(self).stop_step(grace, default_grace),
            *final(self) == old(self).after_begin_stop(),
    {
        match self.state {
            ProcessState::Stopped => StopStep::AlreadyStopped,
            _ => {
                if self.owns_child {
                    self.state = ProcessState::Stopping;
                    let grace_secs: u64 = match grace {
                        Some(secs) => secs,
                        None => default_grace,
                    };
                    StopStep::Terminate { grace_secs }
                } else {
                    self.state = ProcessState::Stopped;
                    self.pid = None;
                    self.owns_child = false;
                    StopStep::Cleared
                }
            },
        }
    }

    /// Takes the end of a termination. A process in `Stopping` is `Stopped`
    /// afterwards whatever the outcome; an exit within the grace period
    /// leaves its exit code. In any other state nothing changes and the
    /// result is false.
    pub fn complete_stop(&mut self, outcome: StopOutcome) -> (applied: bool)
        requires
            old(self).wf(),
        ensures
            final(self).wf(),
            applied == (old(self).state == ProcessState::Stopping),
            *final(self) == old(self).after_stop(outcome),
    {
        match self.state {
            ProcessState::Stopping => {
                match outcome {
                    StopOutcome::Exited { code } => {
                        self.last_exit_code = code;
                    },
                    _ => {},
                }
                self.state = ProcessState::Stopped;
                self.pid = None;
                self.owns_child = false;
                true
            },
            _ => false,
        }
    }

    /// Counts one restart, taken at `now_ms`, and returns the configured
    /// delay in seconds to wait before the process is started again.
    pub fn record_restart(&mut self, now_ms: u64) -> (delay: u64)
        requires
            old(self).wf(),
            old(self).restart_count < u32::MAX,
        ensures
            final(self).wf(),
            delay == old(self).config.restart_delay,
            is_restart_of(*final(self), *old(self), now_ms),
    {
        self.restart_count = self.restart_count + 1;
        self.restart_timestamps.push(now_ms);
        self.config.restart_delay
    }

    /// How many restarts were recorded later than `window_ms` milliseconds
    /// before `now_ms`.
    pub fn recent_restarts(&self, now_ms: u64, window_ms: u64) -> (count: u32)
        requires
            self.wf(),
        ensures
            count == count_newer(self.restart_timestamps@, now_ms - window_ms),
    {
        let ghost cutoff: int = now_ms - window_ms;
        let mut count: u32 = 0;
        let mut i: usize = 0;
        assert(self.restart_timestamps@.take(0) =~= Seq::empty());
        while i < self.restart_timestamps.len()
            invariant
                i <= self.restart_timestamps.len(),
                self.restart_timestamps@.len() <= u32::MAX,
                cutoff == now_ms - window_ms,
                count == count_newer(self.restart_timestamps@.take(i as int), cutoff),
                count <= i,
            decreases self.restart_timestamps.len() - i,
        {
            proof {
                let upto = self.restart_timestamps@.take(i + 1);
                assert(upto.drop_last() =~= self.restart_timestamps@.take(i as int));
                assert(upto.last() == self.restart_timestamps@[i as int]);
            }
            let at: u64 = self.restart_timestamps[i];
            let newer: bool = if window_ms > now_ms {
                true
            } else {
                at > now_ms - window_ms
            };
            if newer {
                count += 1;
            }
            i += 1;
        }
        assert(self.restart_timestamps@.take(i as int) =~= self.restart_timestamps@);
        count
    }

    /// The status line of the process at `now`.
    pub fn status_at(&self, now: Timestamp) -> (status: ProcessStatus)
        ensures
            is_status_of(status, *self, now),
    {
        ProcessStatus {
            name: self.name.clone(),
            state: self.state,
            pid: self.pid,
            uptime: self.uptime_display_at(now),
            restart_count: self.restart_count,
        }
    }
}

/// A process id is held exactly while the process runs or is being stopped,
/// and whatever the supervisor asks or reports, the record stays consistent.
pub proof fn lemma_pid_tracks_state(
    record: ManagedProcess,
    spawn: SpawnOutcome,
    found: Option<u32>,
    stop: StopOutcome,
    now: Timestamp,
)
    requires
        record.wf(),
    ensures
        record.pid is Some <==> (record.state == ProcessState::Running || record.state
            == ProcessState::Stopping),
        record.after_begin_start().wf(),
        record.after_spawn(spawn, now).wf(),
        !record.config.managed ==> record.after_discovery(found, now).wf(),
        record.after_begin_stop().wf(),
        record.after_stop(stop).wf(),
{
}

/// The state of a process changes only along these steps: a start takes a
/// stopped or failed process to `Starting` and from there to `Running` or
/// `Failed`; a stop takes a process with a child to `Stopping` and from there
/// to `Stopped`, and a process without one to `Stopped` at once; a look at
/// the process table shows a process of another system `Running` or
/// `Stopped`.
pub open spec fn is_step(from: ProcessState, to: ProcessState) -> bool {
    from == to || match (from, to) {
        (ProcessState::Stopped, ProcessState::Starting) => true,
        (ProcessState::Failed, ProcessState::Starting) => true,
        (ProcessState::Starting, ProcessState::Running) => true,
        (ProcessState::Starting, ProcessState::Failed) => true,
        (ProcessState::Running, ProcessState::Stopping) => true,
        (ProcessState::Stopping, ProcessState::Stopped) => true,
        (ProcessState::Starting, ProcessState::Stopped) => true,
        (ProcessState::Failed, ProcessState::Stopped) => true,
        (ProcessState::Stopped, ProcessState::Running) => true,
        (ProcessState::Running, ProcessState::Stopped) => true,
        _ => false,
    }
}

/// Every transition moves the state along a step of the lifecycle, and only
/// a process of another system goes between `Stopped` and `Running`
/// directly.
pub proof fn lemma_transitions_follow_lifecycle(
    record: ManagedProcess,
    spawn: SpawnOutcome,
    found: Option<u32>,
    stop: StopOutcome,
    now: Timestamp,
)
    requires
        record.wf(),
    ensures
        is_step(record.state, record.after_begin_start().state),
        is_step(record.state, record.after_spawn(spawn, now).state),
        !record.config.managed ==> is_step(record.state, record.after_discovery(found, now).state),
        is_step(record.state, record.after_begin_stop().state),
        is_step(record.state, record.after_stop(stop).state),
        record.config.managed ==> {
            &&& !(record.state == ProcessState::Stopped && record.after_spawn(spawn, now).state
                == ProcessState::Running)
            &&& !(record.state == ProcessState::Running && record.after_begin_stop().state
                == ProcessState::Stopped)
        },
{
}

/// No transition lowers the restart counter.
pub proof fn lemma_restart_count_never_decreases(
    record: ManagedProcess,
    spawn: SpawnOutcome,
    found: Option<u32>,
    stop: StopOutcome,
    now: Timestamp,
    restarted: ManagedProcess,
    now_ms: u64,
)
    requires
        is_restart_of(restarted, record, now_ms),
    ensures
        record.after_begin_start().restart_count >= record.restart_count,
        record.after_spawn(spawn, now).restart_count >= record.restart_count,
        record.after_discovery(found, now).restart_count >= record.restart_count,
        record.after_begin_stop().restart_count >= record.restart_count,
        record.after_stop(stop).restart_count >= record.restart_count,
        restarted.restart_count > record.restart_count,
{
}

/// A stop of a stopped process and a start of a running one change nothing:
/// neither the state nor the restart counter nor any timestamp.
pub proof fn lemma_requests_are_idempotent(record: ManagedProcess, grace: Option<u64>, default_grace: u64)
    requires
        record.wf(),
    ensures
        record.state == ProcessState::Stopped ==> record.stop_step(grace, default_grace)
            == StopStep::AlreadyStopped && record.after_begin_stop() == record,
        record.state == ProcessState::Running ==> record.start_step() == StartStep::AlreadyRunning
            && record.after_begin_start() == record,
{
}

/// Starting a process, however the start ends, leaves the restart counter
/// and the restart timestamps as they are.
pub proof fn lemma_start_keeps_restart_count(
    record: ManagedProcess,
    spawn: SpawnOutcome,
    found: Option<u32>,
    now: Timestamp,
)
    ensures
        record.after_begin_start().restart_count == record.restart_count,
        record.after_begin_start().restart_timestamps == record.restart_timestamps,
        record.after_begin_start().after_spawn(spawn, now).restart_count == record.restart_count,
        record.after_begin_start().after_spawn(spawn, now).restart_timestamps
            == record.restart_timestamps,
        record.after_discovery(found, now).restart_count == record.restart_count,
        record.after_discovery(found, now).restart_timestamps == record.restart_timestamps,
{
}

} // verus!
