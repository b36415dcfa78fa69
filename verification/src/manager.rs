//! The process manager: every supervised process under its name, the
//! per-process operations, and the dependency-ordered start and stop
//! sequences.

use vstd::prelude::*;
use vstd::string::*;
use crate::clock::Timestamp;
use crate::config::{
    declared_names, dependency_graph_of, find_process, is_order_error_of, names_are_unique,
    names_at, start_order, topological_sort, ConfigError, GuardianConfig,
};
use crate::deps::{dependency_order, graph_wf, has_cycle, is_dependency_order};
use crate::matching::{is_first_match, none_matches, table_view, ProcessInfo};
use crate::process::{
    count_newer, is_restart_of, is_status_of, ManagedProcess, ProcessStatus, SpawnOutcome,
    StartStep, StopOutcome, StopStep,
};
use crate::state::ProcessState;
use crate::text::{
    base_name_of, lemma_text_le_total, lemma_text_le_transitive, name_position, text_at_most,
    text_le, texts,
};

verus! {

/// All supervised processes, in declaration order.
#[derive(Debug)]
pub struct ProcessManager {
    pub processes: Vec<ManagedProcess>,
    /// Seconds that a child gets to exit when a stop names no grace period.
    pub shutdown_grace_period: u64,
}

/// Why an operation of the manager was not carried out.
#[derive(Debug)]
pub enum ManagerError {
    /// No process of this name is configured.
    ProcessNotFound { name: String },
    /// The command of this process could not be spawned; the process is now
    /// `Failed`.
    SpawnFailed { name: String },
    /// An outcome was reported that this process was not waiting for.
    UnexpectedOutcome { name: String },
    /// Discovery was asked for a process that the supervisor spawns itself.
    NotExternal { name: String },
}

impl ManagerError {
    /// The error in words.
    pub open spec fn text(self) -> Seq<char> {
        match self {
            ManagerError::ProcessNotFound { name } => "Process '"@ + name@ + "' not found"@,
            ManagerError::SpawnFailed { name } => "Failed to start process '"@ + name@ + "'"@,
            ManagerError::UnexpectedOutcome { name } => "Process '"@ + name@
                + "' was not waiting for this outcome"@,
            ManagerError::NotExternal { name } => "Process '"@ + name@ + "' is not externally managed"@,
        }
    }

    /// The error in words.
    pub fn to_string(&self) -> (text: String)
        ensures
            text@ == self.text(),
    {
        match self {
            ManagerError::ProcessNotFound { name } => {
                let mut text = String::from_str("Process '");
                text.append(name.as_str());
                text.append("' not found");
                text
            },
            ManagerError::SpawnFailed { name } => {
                let mut text = String::from_str("Failed to start process '");
                text.append(name.as_str());
                text.append("'");
                text
            },
            ManagerError::UnexpectedOutcome { name } => {
                let mut text = String::from_str("Process '");
                text.append(name.as_str());
                text.append("' was not waiting for this outcome");
                text
            },
            ManagerError::NotExternal { name } => {
                let mut text = String::from_str("Process '");
                text.append(name.as_str());
                text.append("' is not externally managed");
                text
            },
        }
    }
}

/// The progress of a start sequence: the start order and how much of it has
/// been handed out.
#[derive(Debug)]
pub struct StartSequence {
    /// Positions of the processes in start order.
    pub order: Vec<usize>,
    /// How many entries of `order` have been handed out.
    pub next: usize,
    /// Whether a start or a readiness probe has failed.
    pub failed: bool,
}

/// What a start sequence asks for next.
#[derive(Debug, Clone, Copy, PartialEq, Eq, Structural)]
pub enum SequenceStep {
    /// Every process has been handed out.
    Finished,
    /// Shutdown was requested: nothing more is started.
    Aborted,
    /// A process failed to start or to become ready: nothing more is started,
    /// so that no process is started atop a dependency that is not ready.
    Failed,
    /// The process at `position` belongs to another system: look for it for
    /// up to `timeout_secs` seconds, then go on whether it appeared or not.
    AwaitExternal { position: usize, timeout_secs: u64 },
    /// Start the process at `position` and wait until it is ready; a failure
    /// of either ends the sequence.
    StartManaged { position: usize },
}

/// What a restart asks the supervisor to do.
#[derive(Debug, Clone, Copy, PartialEq, Eq, Structural)]
pub enum RestartStep {
    /// The process still runs: terminate its child within `grace_secs`
    /// seconds, report the outcome, and ask again.
    Terminate { grace_secs: u64 },
    /// The process is stopped and the restart is counted: wait `delay_secs`
    /// seconds, then start the process.
    StartAfter { delay_secs: u64 },
}

/// `arrangement` lists each of the positions below `n` once.
pub open spec fn is_arrangement(arrangement: Seq<int>, n: nat) -> bool {
    &&& arrangement.len() == n
    &&& arrangement.no_duplicates()
    &&& forall|k: int| 0 <= k < arrangement.len() ==> 0 <= #[trigger] arrangement[k] < n
}

/// The lines are in dictionary order of their names.
pub open spec fn sorted_by_name(statuses: Seq<ProcessStatus>) -> bool {
    forall|a: int, b: int|
        0 <= a < b < statuses.len() ==> text_le((#[trigger] statuses[a]).name@, (#[trigger] statuses[b]).name@)
}

/// The lines are in dictionary order of their names and no name occurs
/// twice.
pub open spec fn strictly_sorted_by_name(statuses: Seq<ProcessStatus>) -> bool {
    &&& sorted_by_name(statuses)
    &&& forall|a: int, b: int|
        0 <= a < b < statuses.len() ==> (#[trigger] statuses[a]).name@ != (#[trigger] statuses[b]).name@
}

/// Line `k` of `statuses` is the status, at `now`, of the process at
/// position `arrangement[k]`.
pub open spec fn lines_follow(
    statuses: Seq<ProcessStatus>,
    processes: Seq<ManagedProcess>,
    arrangement: Seq<int>,
    now: Timestamp,
) -> bool {
    &&& statuses.len() == arrangement.len()
    &&& forall|k: int|
        0 <= k < statuses.len() ==> is_status_of(#[trigger] statuses[k], processes[arrangement[k]], now)
}

impl StartSequence {
    /// The sequence holds an order of the manager's processes and a position
    /// within it.
    pub open spec fn wf(&self, manager: &ProcessManager) -> bool {
        &&& self.next <= self.order@.len()
        &&& forall|k: int| 0 <= k < self.order@.len() ==> (#[trigger] self.order@[k]) < manager.processes@.len()
    }

    /// Notes that the process handed out last failed to start or to become
    /// ready. Nothing more is handed out afterwards.
    pub fn record_failure(&mut self)
        ensures
            final(self).failed,
            final(self).order == old(self).order,
            final(self).next == old(self).next,
    {
        self.failed = true;
    }

    /// Whether the sequence fits `manager`.
    pub fn is_consistent(&self, manager: &ProcessManager) -> (consistent: bool)
        ensures
            consistent == self.wf(manager),
    {
        if self.next > self.order.len() {
            return false;
        }
        let mut k: usize = 0;
        while k < self.order.len()
            invariant
                k <= self.order.len(),
                forall|a: int| 0 <= a < k ==> (#[trigger] self.order@[a]) < manager.processes@.len(),
            decreases self.order.len() - k,
        {
            if self.order[k] >= manager.processes.len() {
                return false;
            }
            k += 1;
        }
        true
    }
}

impl ProcessManager {
    /// Every record is consistent, and no two processes have the same name.
    pub open spec fn wf(&self) -> bool {
        &&& forall|i: int| 0 <= i < self.processes@.len() ==> (#[trigger] self.processes@[i]).wf()
        &&& declared_names(self.processes@).no_duplicates()
    }

    /// The position of the process called `name`: the first of that name, or
    /// the number of processes where there is none.
    pub open spec fn position_of(&self, name: Seq<char>) -> nat {
        name_position(declared_names(self.processes@), name)
    }

    /// A process called `name` is configured.
    pub open spec fn knows(&self, name: Seq<char>) -> bool {
        self.position_of(name) < self.processes@.len()
    }

    /// The record of the process called `name`.
    pub open spec fn process(&self, name: Seq<char>) -> ManagedProcess {
        self.processes@[self.position_of(name) as int]
    }

    /// `self` is `before` with the record of the process called `name`
    /// replaced by `record`.
    pub open spec fn is_update_of(&self, before: &ProcessManager, name: Seq<char>, record: ManagedProcess) -> bool {
        &&& self.processes@ == before.processes@.update(before.position_of(name) as int, record)
        &&& declared_names(self.processes@) == declared_names(before.processes@)
        &&& self.shutdown_grace_period == before.shutdown_grace_period
    }

    /// The restart counter of the process called `name`, if there is one, is
    /// below its limit.
    pub open spec fn has_room(&self, name: Seq<char>) -> bool {
        self.knows(name) ==> self.process(name).restart_count < u32::MAX
    }

    /// Whether every record is consistent and no name occurs twice.
    pub fn is_consistent(&self) -> (consistent: bool)
        ensures
            consistent == self.wf(),
    {
        let mut i: usize = 0;
        while i < self.processes.len()
            invariant
                i <= self.processes.len(),
                forall|a: int| 0 <= a < i ==> (#[trigger] self.processes@[a]).wf(),
            decreases self.processes.len() - i,
        {
            if !self.processes[i].is_consistent() {
                return false;
            }
            i += 1;
        }
        names_are_unique(&self.processes)
    }

    /// Whether the restart counter of the process called `name`, if there is
    /// one, is below its limit.
    pub fn has_room_for_restart(&self, name: &str) -> (room: bool)
        ensures
            room == self.has_room(name@),
    {
        match self.find(name) {
            Some(at) => self.processes[at].restart_count < u32::MAX,
            None => true,
        }
    }

    /// Builds the manager of a configuration: one stopped record per
    /// process, in declaration order.
    pub fn new(config: GuardianConfig) -> (manager: ProcessManager)
        requires
            config.wf(),
        ensures
            manager.wf(),
            manager.processes@.len() == config.processes@.len(),
            manager.shutdown_grace_period == config.advanced.shutdown_grace_period,
            forall|i: int|
                0 <= i < manager.processes@.len() ==> {
                    let record = #[trigger] manager.processes@[i];
                    &&& record.name == config.processes@[i].name
                    &&& record.config == config.processes@[i].config
                    &&& record.state == ProcessState::Stopped
                    &&& record.pid is None
                    &&& !record.owns_child
                    &&& record.started_at is None
                    &&& record.restart_count == 0
                    &&& record.last_exit_code is None
                },
    {
        let ghost all = config.processes@;
        let shutdown_grace_period = config.advanced.shutdown_grace_period;
        let mut entries = config.processes;
        let mut processes: Vec<ManagedProcess> = Vec::new();
        while entries.len() > 0
            invariant
                entries@ == all.skip(processes@.len() as int),
                processes@.len() <= all.len(),
                forall|i: int|
                    0 <= i < processes@.len() ==> {
                        let record = #[trigger] processes@[i];
                        &&& record.wf()
                        &&& record.name == all[i].name
                        &&& record.config == all[i].config
                        &&& record.state == ProcessState::Stopped
                        &&& record.pid is None
                        &&& !record.owns_child
                        &&& record.started_at is None
                        &&& record.restart_count == 0
                        &&& record.last_exit_code is None
                    },
            decreases entries.len(),
        {
            let ghost done = processes@.len() as int;
            let entry = entries.remove(0);
            assert(entry == all[done]);
            processes.push(ManagedProcess::new(entry.name, entry.config));
            assert(entries@ =~= all.skip(done + 1));
        }
        assert(declared_names(processes@) =~= declared_names(all));
        ProcessManager { processes, shutdown_grace_period }
    }

    /// The position of the first process called `name`.
    pub fn find(&self, name: &str) -> (found: Option<usize>)
        ensures
            match found {
                Some(at) => self.knows(name@) && at == self.position_of(name@),
                None => !self.knows(name@) && self.position_of(name@) == self.processes@.len(),
            },
    {
        find_process(&self.processes, name)
    }

    /// Whether the process called `name` is known and running.
    pub fn is_running(&self, name: &str) -> (running: bool)
        ensures
            running == (self.knows(name@) && self.process(name@).state == ProcessState::Running),
    {
        match self.find(name) {
            Some(at) => self.processes[at].state.is_running(),
            None => false,
        }
    }

    /// How many restarts of the process called `name` were recorded later
    /// than `window_ms` milliseconds before `now_ms`; 0 for an unknown name.
    pub fn recent_restart_count(&self, name: &str, now_ms: u64, window_ms: u64) -> (count: u32)
        requires
            self.wf(),
        ensures
            self.knows(name@) ==> count == count_newer(
                self.process(name@).restart_timestamps@,
                now_ms - window_ms,
            ),
            !self.knows(name@) ==> count == 0,
    {
        match self.find(name) {
            Some(at) => self.processes[at].recent_restarts(now_ms, window_ms),
            None => 0,
        }
    }

    /// Takes a start request for the process called `name` and says what is
    /// to be done. A running process is left untouched; a stopped or failed
    /// process that the supervisor owns goes to `Starting` and is to be
    /// spawned; a process of another system is to be looked for.
    pub fn start_process(&mut self, name: &str) -> (result: Result<StartStep, ManagerError>)
        requires
            old(self).wf(),
        ensures
            final(self).wf(),
            match result {
                Ok(step) => {
                    &&& old(self).knows(name@)
                    &&& step == old(self).process(name@).start_step()
                    &&& final(self).is_update_of(
                        old(self),
                        name@,
                        old(self).process(name@).after_begin_start(),
                    )
                    &&& step != StartStep::Spawn ==> *final(self) == *old(self)
                },
                Err(ManagerError::ProcessNotFound { name: missing }) => {
                    &&& !old(self).knows(name@)
                    &&& missing@ == name@
                    &&& *final(self) == *old(self)
                },
                Err(_) => false,
            },
    {
        let at = match self.find(name) {
            Some(at) => at,
            None => {
                return Err(ManagerError::ProcessNotFound { name: String::from_str(name) });
            },
        };
        let step = self.processes[at].next_start_step();
        match step {
            StartStep::Spawn => {
                let ghost before = self.processes@;
                let record = &mut self.processes[at];
                record.begin_start();
                proof {
                            assert(declared_names(self.processes@) =~= declared_names(before));
                }
            },
            _ => {
                assert(self.processes@.update(at as int, self.processes@[at as int]) =~= self.processes@);
            },
        }
        Ok(step)
    }

    /// `after` and `result` are what reporting `outcome` at `now` for the
    /// process called `name` makes of `before`.
    pub open spec fn spawn_reported(
        before: ProcessManager,
        after: ProcessManager,
        name: Seq<char>,
        outcome: SpawnOutcome,
        now: Timestamp,
        result: Result<(), ManagerError>,
    ) -> bool {
        &&& !before.knows(name) ==> after == before
        &&& before.knows(name) ==> after.is_update_of(&before, name, before.process(name).after_spawn(outcome, now))
        &&& match result {
            Ok(_) => {
                &&& before.knows(name)
                &&& before.process(name).state == ProcessState::Starting
                &&& outcome is Spawned
            },
            Err(ManagerError::ProcessNotFound { name: missing }) => {
                &&& !before.knows(name)
                &&& missing@ == name
            },
            Err(ManagerError::UnexpectedOutcome { name: unexpected }) => {
                &&& before.knows(name)
                &&& before.process(name).state != ProcessState::Starting
                &&& unexpected@ == name
            },
            Err(ManagerError::SpawnFailed { name: failed }) => {
                &&& before.knows(name)
                &&& before.process(name).state == ProcessState::Starting
                &&& outcome is Failed
                &&& failed@ == name
            },
            Err(_) => false,
        }
    }

    /// Takes the outcome of the spawn that `start_process` asked for, with
    /// `now` as the time of the start. A spawned process is `Running` under
    /// its new process id; a failed spawn leaves the process `Failed` and is
    /// an error. An outcome for a process that is not `Starting` changes
    /// nothing.
    pub fn complete_spawn_at(&mut self, name: &str, outcome: SpawnOutcome, now: Timestamp) -> (result:
        Result<(), ManagerError>)
        requires
            old(self).wf(),
        ensures
            final(self).wf(),
            ProcessManager::spawn_reported(*old(self), *final(self), name@, outcome, now, result),

    {
        let at = match self.find(name) {
            Some(at) => at,
            None => {
                return Err(ManagerError::ProcessNotFound { name: String::from_str(name) });
            },
        };
        let ghost before = self.processes@;
        let record = &mut self.processes[at];
        let applied = record.complete_spawn(outcome, now);
        proof {
            assert(declared_names(self.processes@) =~= declared_names(before));
        }
        if !applied {
            Err(ManagerError::UnexpectedOutcome { name: String::from_str(name) })
        } else {
            match outcome {
                SpawnOutcome::Spawned { .. } => Ok(()),
                SpawnOutcome::Failed => Err(ManagerError::SpawnFailed { name: String::from_str(name) }),
            }
        }
    }

    /// As `complete_spawn_at`, with the wall clock's time as the time of the
    /// start.
    pub fn complete_spawn(&mut self, name: &str, outcome: SpawnOutcome) -> (result: Result<
        (),
        ManagerError,
    >)
        requires
            old(self).wf(),
        ensures
            final(self).wf(),
            exists|now: Timestamp| #[trigger]
                ProcessManager::spawn_reported(*old(self), *final(self), name@, outcome, now, result),
    {
        self.complete_spawn_at(name, outcome, Timestamp::now())
    }

    /// `after` and `result` are what a look at `table` at `now` for the
    /// process called `name` makes of `before`.
    pub open spec fn discovery_reported(
        before: ProcessManager,
        after: ProcessManager,
        name: Seq<char>,
        table: Seq<ProcessInfo>,
        now: Timestamp,
        result: Result<bool, ManagerError>,
    ) -> bool {
        match result {
            Ok(running) => {
                let record = before.process(name);
                let command = base_name_of(record.config.command@);
                &&& before.knows(name)
                &&& !record.config.managed
                &&& running == (after.process(name).state == ProcessState::Running)
                &&& record.state == ProcessState::Running ==> after == before
                &&& record.state != ProcessState::Running && none_matches(
                    table_view(table),
                    command,
                    Seq::empty(),
                ) ==> after.is_update_of(&before, name, record.after_discovery(None, now))
                &&& forall|at: int|
                    record.state != ProcessState::Running && #[trigger] is_first_match(
                        table_view(table),
                        command,
                        Seq::empty(),
                        at,
                    ) ==> after.is_update_of(&before, name, record.after_discovery(Some(table[at].pid), now))
            },
            Err(ManagerError::ProcessNotFound { name: missing }) => {
                &&& !before.knows(name)
                &&& missing@ == name
                &&& after == before
            },
            Err(ManagerError::NotExternal { name: owned }) => {
                &&& before.knows(name)
                &&& before.process(name).config.managed
                &&& owned@ == name
                &&& after == before
            },
            Err(_) => false,
        }
    }

    /// Looks in `table` for the process called `name`, which another system
    /// owns, with `now` as the time of the look. A process already running is
    /// left untouched. Otherwise the first entry that matches the base name
    /// of the configured command makes it `Running`; without a match it is
    /// `Stopped`, which is no error. The result tells whether the process
    /// runs afterwards.
    pub fn discover_process_at(&mut self, name: &str, table: &Vec<ProcessInfo>, now: Timestamp) -> (result:
        Result<bool, ManagerError>)
        requires
            old(self).wf(),
        ensures
            final(self).wf(),
            ProcessManager::discovery_reported(*old(self), *final(self), name@, table@, now, result),

    {
        let at = match self.find(name) {
            Some(at) => at,
            None => {
                return Err(ManagerError::ProcessNotFound { name: String::from_str(name) });
            },
        };
        if self.processes[at].config.managed {
            return Err(ManagerError::NotExternal { name: String::from_str(name) });
        }
        if self.processes[at].state.is_running() {
            return Ok(true);
        }
        let ghost before = self.processes@;
        let ghost command = base_name_of(before[at as int].config.command@);
        let record = &mut self.processes[at];
        let found = record.discover_external_process(table, now);
        proof {
            assert(declared_names(self.processes@) =~= declared_names(before));
            match found {
                Some(first) => {
                    assert forall|other: int| #[trigger]
                        is_first_match(table_view(table@), command, Seq::empty(), other) implies other
                        == first by {
                        if other < first {
                            assert(!crate::matching::process_matches_spec(
                                table_view(table@)[other],
                                command,
                                Seq::empty(),
                            ));
                        } else if first < other {
                            assert(!crate::matching::process_matches_spec(
                                table_view(table@)[first as int],
                                command,
                                Seq::empty(),
                            ));
                        }
                    }
                },
                None => {
                    assert forall|other: int| !#[trigger] is_first_match(
                        table_view(table@),
                        command,
                        Seq::empty(),
                        other,
                    ) by {
                        if 0 <= other < table@.len() {
                            assert(!crate::matching::process_matches_spec(
                                table_view(table@)[other],
                                command,
                                Seq::empty(),
                            ));
                        }
                    }
                },
            }
        }
        Ok(found.is_some())
    }

    /// As `discover_process_at`, with the wall clock's time as the time of
    /// the look.
    pub fn discover_process(&mut self, name: &str, table: &Vec<ProcessInfo>) -> (result: Result<
        bool,
        ManagerError,
    >)
        requires
            old(self).wf(),
        ensures
            final(self).wf(),
            exists|now: Timestamp| #[trigger]
                ProcessManager::discovery_reported(*old(self), *final(self), name@, table@, now, result),
    {
        self.discover_process_at(name, table, Timestamp::now())
    }

    /// Takes a stop request for the process called `name`, with the
    /// configured grace period.
    pub fn stop_process(&mut self, name: &str) -> (result: Result<StopStep, ManagerError>)
        requires
            old(self).wf(),
        ensures
            final(self).wf(),
            match result {
                Ok(step) => {
                    &&& old(self).knows(name@)
                    &&& step == old(self).process(name@).stop_step(None, old(self).shutdown_grace_period)
                    &&& final(self).is_update_of(
                        old(self),
                        name@,
                        old(self).process(name@).after_begin_stop(),
                    )
                    &&& step == StopStep::AlreadyStopped ==> *final(self) == *old(self)
                },
                Err(ManagerError::ProcessNotFound { name: missing }) => {
                    &&& !old(self).knows(name@)
                    &&& missing@ == name@
                    &&& *final(self) == *old(self)
                },
                Err(_) => false,
            },
    {
        self.stop_process_with_grace(name, None)
    }

    /// Takes a stop request for the process called `name` and says what is
    /// to be done. A stopped process is left untouched. A child of the
    /// supervisor goes to `Stopping` and is to be terminated within `grace`
    /// seconds, or within the configured period where `grace` is `None`. Any
    /// other process is marked `Stopped` and nothing is signalled.
    pub fn stop_process_with_grace(&mut self, name: &str, grace: Option<u64>) -> (result: Result<
        StopStep,
        ManagerError,
    >)
        requires
            old(self).wf(),
        ensures
            final(self).wf(),
            match result {
                Ok(step) => {
                    &&& old(self).knows(name@)
                    &&& step == old(self).process(name@).stop_step(grace, old(self).shutdown_grace_period)
                    &&& final(self).is_update_of(
                        old(self),
                        name@,
                        old(self).process(name@).after_begin_stop(),
                    )
                    &&& step == StopStep::AlreadyStopped ==> *final(self) == *old(self)
                },
                Err(ManagerError::ProcessNotFound { name: missing }) => {
                    &&& !old(self).knows(name@)
                    &&& missing@ == name@
                    &&& *final(self) == *old(self)
                },
                Err(_) => false,
            },
    {
        let at = match self.find(name) {
            Some(at) => at,
            None => {
                return Err(ManagerError::ProcessNotFound { name: String::from_str(name) });
            },
        };
        if self.processes[at].is_stopped() {
            assert(self.processes@.update(at as int, self.processes@[at as int]) =~= self.processes@);
            return Ok(StopStep::AlreadyStopped);
        }
        let default_grace = self.shutdown_grace_period;
        let ghost before = self.processes@;
        let record = &mut self.processes[at];
        let step = record.begin_stop(grace, default_grace);
        proof {
            assert(declared_names(self.processes@) =~= declared_names(before));
        }
        Ok(step)
    }

    /// Takes the end of the termination that a stop asked for. The process
    /// is `Stopped` afterwards whatever the outcome. An outcome for a process
    /// that is not `Stopping` changes nothing.
    pub fn complete_stop(&mut self, name: &str, outcome: StopOutcome) -> (result: Result<
        (),
        ManagerError,
    >)
        requires
            old(self).wf(),
        ensures
            final(self).wf(),
            !old(self).knows(name@) ==> *final(self) == *old(self),
            old(self).knows(name@) ==> final(self).is_update_of(
                old(self),
                name@,
                old(self).process(name@).after_stop(outcome),
            ),
            match result {
                Ok(_) => {
                    &&& old(self).knows(name@)
                    &&& old(self).process(name@).state == ProcessState::Stopping
                    &&& final(self).process(name@).state == ProcessState::Stopped
                },
                Err(ManagerError::ProcessNotFound { name: missing }) => {
                    &&& !old(self).knows(name@)
                    &&& missing@ == name@
                },
                Err(ManagerError::UnexpectedOutcome { name: unexpected }) => {
                    &&& old(self).knows(name@)
                    &&& old(self).process(name@).state != ProcessState::Stopping
                    &&& unexpected@ == name@
                },
                Err(_) => false,
            },
    {
        let at = match self.find(name) {
            Some(at) => at,
            None => {
                return Err(ManagerError::ProcessNotFound { name: String::from_str(name) });
            },
        };
        let ghost before = self.processes@;
        let record = &mut self.processes[at];
        let applied = record.complete_stop(outcome);
        proof {
            assert(declared_names(self.processes@) =~= declared_names(before));
        }
        if applied {
            Ok(())
        } else {
            Err(ManagerError::UnexpectedOutcome { name: String::from_str(name) })
        }
    }

    /// The declared dependencies as a graph over the positions of the
    /// processes.
    pub open spec fn dependencies(&self) -> Seq<Seq<usize>> {
        dependency_graph_of(self.processes@)
    }

    /// Begins the start of all processes: computes the start order, in which
    /// every process comes after the processes that it depends on. An
    /// unknown dependency and a dependency cycle are errors, found before
    /// any process is touched.
    pub fn start_all(&self) -> (result: Result<StartSequence, ConfigError>)
        ensures
            match result {
                Ok(sequence) => {
                    &&& sequence.wf(self)
                    &&& sequence.next == 0
                    &&& !sequence.failed
                    &&& graph_wf(self.dependencies())
                    &&& !has_cycle(self.dependencies())
                    &&& is_dependency_order(self.dependencies(), sequence.order@)
                    &&& sequence.order@ == dependency_order(self.dependencies())
                },
                Err(error) => is_order_error_of(self.processes@, error),
            },
    {
        match start_order(&self.processes) {
            Ok(order) => Ok(StartSequence { order, next: 0, failed: false }),
            Err(error) => Err(error),
        }
    }

    /// What the start sequence asks for next, given the shutdown flag.
    pub open spec fn sequence_step(&self, sequence: StartSequence, running: Option<bool>) -> SequenceStep {
        if sequence.failed {
            SequenceStep::Failed
        } else if running == Some(false) {
            SequenceStep::Aborted
        } else if sequence.next >= sequence.order@.len() {
            SequenceStep::Finished
        } else {
            let position = sequence.order@[sequence.next as int];
            let config = self.processes@[position as int].config;
            if config.managed {
                SequenceStep::StartManaged { position }
            } else {
                SequenceStep::AwaitExternal { position, timeout_secs: config.ready.timeout }
            }
        }
    }

    /// Hands out the next step of a start sequence. After a failure nothing
    /// more is handed out. `running` is the shutdown flag where there is
    /// one: once it is false the sequence is aborted and nothing more is
    /// handed out. Otherwise the next process in
    /// start order is handed out, to be spawned and awaited if the supervisor
    /// owns it, to be looked for if not.
    pub fn start_all_with_flag(&self, sequence: &mut StartSequence, running: Option<bool>) -> (step:
        SequenceStep)
        requires
            old(sequence).wf(self),
        ensures
            final(sequence).wf(self),
            final(sequence).order == old(sequence).order,
            final(sequence).failed == old(sequence).failed,
            step == self.sequence_step(*old(sequence), running),
            final(sequence).next == if step is AwaitExternal || step is StartManaged {
                old(sequence).next + 1
            } else {
                old(sequence).next as int
            },
    {
        if sequence.failed {
            return SequenceStep::Failed;
        }
        match running {
            Some(false) => {
                return SequenceStep::Aborted;
            },
            _ => {},
        }
        if sequence.next >= sequence.order.len() {
            return SequenceStep::Finished;
        }
        let position: usize = sequence.order[sequence.next];
        sequence.next = sequence.next + 1;
        let config = &self.processes[position].config;
        if config.managed {
            SequenceStep::StartManaged { position }
        } else {
            SequenceStep::AwaitExternal { position, timeout_secs: config.ready.timeout }
        }
    }

    /// The names of the processes in the order in which they are to be
    /// stopped: the start order reversed, so that every process is stopped
    /// before the processes that it depends on.
    pub fn stop_all(&self) -> (result: Result<Vec<String>, ConfigError>)
        ensures
            match result {
                Ok(names) => {
                    &&& graph_wf(self.dependencies())
                    &&& !has_cycle(self.dependencies())
                    &&& is_dependency_order(self.dependencies(), dependency_order(self.dependencies()))
                    &&& texts(names@) == names_at(
                        self.processes@,
                        dependency_order(self.dependencies()),
                    ).reverse()
                },
                Err(error) => is_order_error_of(self.processes@, error),
            },
    {
        let mut forward = match topological_sort(&self.processes) {
            Ok(names) => names,
            Err(error) => {
                return Err(error);
            },
        };
        let ghost started = forward@;
        let mut names: Vec<String> = Vec::new();
        while forward.len() > 0
            invariant
                forward@ == started.take(forward@.len() as int),
                names@.len() + forward@.len() == started.len(),
                forall|a: int| 0 <= a < names@.len() ==> (#[trigger] names@[a]) == started[started.len() - 1 - a],
            decreases forward.len(),
        {
            let ghost left = forward@.len() as int;
            let last = forward.pop().unwrap();
            names.push(last);
            assert(forward@ =~= started.take(left - 1));
        }
        assert(texts(names@) =~= texts(started).reverse());
        Ok(names)
    }

    /// Takes a restart request for the process called `name`. While the
    /// process has a child to terminate, that comes first and nothing is
    /// counted. Once the process is stopped, the restart is counted, with
    /// `now_ms` as its time, before the process is started again: a start
    /// that fails afterwards does not undo the count.
    pub fn restart_process(&mut self, name: &str, now_ms: u64) -> (result: Result<
        RestartStep,
        ManagerError,
    >)
        requires
            old(self).wf(),
            old(self).has_room(name@),
        ensures
            final(self).wf(),
            match result {
                Ok(RestartStep::Terminate { grace_secs }) => {
                    &&& old(self).knows(name@)
                    &&& old(self).process(name@).state != ProcessState::Stopped
                    &&& old(self).process(name@).owns_child
                    &&& grace_secs == old(self).shutdown_grace_period
                    &&& final(self).is_update_of(
                        old(self),
                        name@,
                        old(self).process(name@).after_begin_stop(),
                    )
                },
                Ok(RestartStep::StartAfter { delay_secs }) => {
                    &&& old(self).knows(name@)
                    &&& old(self).process(name@).state == ProcessState::Stopped || !old(self).process(
                        name@,
                    ).owns_child
                    &&& delay_secs == old(self).process(name@).config.restart_delay
                    &&& final(self).is_update_of(old(self), name@, final(self).process(name@))
                    &&& is_restart_of(
                        final(self).process(name@),
                        old(self).process(name@).after_begin_stop(),
                        now_ms,
                    )
                },
                Err(ManagerError::ProcessNotFound { name: missing }) => {
                    &&& !old(self).knows(name@)
                    &&& missing@ == name@
                    &&& *final(self) == *old(self)
                },
                Err(_) => false,
            },
    {
        let at = match self.find(name) {
            Some(at) => at,
            None => {
                return Err(ManagerError::ProcessNotFound { name: String::from_str(name) });
            },
        };
        let default_grace = self.shutdown_grace_period;
        let ghost before = self.processes@;
        let record = &mut self.processes[at];
        let step = record.begin_stop(None, default_grace);
        let result = match step {
            StopStep::Terminate { grace_secs } => RestartStep::Terminate { grace_secs },
            _ => {
                let delay_secs = record.record_restart(now_ms);
                RestartStep::StartAfter { delay_secs }
            },
        };
        proof {
            assert(declared_names(self.processes@) =~= declared_names(before));
        }
        Ok(result)
    }

    /// `statuses` holds the status line of every process at `now`, once
    /// each, in strictly ascending order of the names.
    pub open spec fn is_listing(manager: ProcessManager, statuses: Seq<ProcessStatus>, now: Timestamp) -> bool {
        &&& statuses.len() == manager.processes@.len()
        &&& strictly_sorted_by_name(statuses)
        &&& exists|arrangement: Seq<int>|
            is_arrangement(arrangement, manager.processes@.len()) && #[trigger] lines_follow(
                statuses,
                manager.processes@,
                arrangement,
                now,
            )
    }

    /// The status lines of all processes at `now`, in dictionary order of
    /// their names, no name twice.
    pub fn get_status_at(&self, now: Timestamp) -> (statuses: Vec<ProcessStatus>)
        requires
            self.wf(),
        ensures
            ProcessManager::is_listing(*self, statuses@, now),

    {
        let mut statuses: Vec<ProcessStatus> = Vec::new();
        let ghost mut arrangement: Seq<int> = Seq::empty();
        let mut i: usize = 0;
        while i < self.processes.len()
            invariant
                i <= self.processes.len(),
                sorted_by_name(statuses@),
                self.wf(),
                is_arrangement(arrangement, i as nat),
                lines_follow(statuses@, self.processes@, arrangement, now),
            decreases self.processes.len() - i,
        {
            let status = self.processes[i].status_at(now);
            let mut at: usize = 0;
            while at < statuses.len() && text_at_most(statuses[at].name.as_str(), status.name.as_str())
                invariant
                    at <= statuses.len(),
                    forall|k: int| 0 <= k < at ==> text_le((#[trigger] statuses@[k]).name@, status.name@),
                decreases statuses.len() - at,
            {
                at += 1;
            }
            let ghost before = statuses@;
            let ghost before_arrangement = arrangement;
            proof {
                assert forall|k: int| at <= k < before.len() implies text_le(
                    status.name@,
                    (#[trigger] before[k]).name@,
                ) by {
                    lemma_text_le_total(before[at as int].name@, status.name@);
                    if k > at {
                        lemma_text_le_transitive(status.name@, before[at as int].name@, before[k].name@);
                    }
                }
                arrangement = arrangement.insert(at as int, i as int);
            }
            statuses.insert(at, status);
            proof {
                assert forall|a: int, b: int| 0 <= a < b < statuses@.len() implies text_le(
                    (#[trigger] statuses@[a]).name@,
                    (#[trigger] statuses@[b]).name@,
                ) by {
                    let from_a = if a < at { a } else { a - 1 };
                    let from_b = if b < at { b } else { b - 1 };
                    if a != at && b != at {
                        assert(statuses@[a] == before[from_a]);
                        assert(statuses@[b] == before[from_b]);
                    } else if a == at {
                        assert(statuses@[b] == before[from_b]);
                    } else {
                        assert(statuses@[a] == before[from_a]);
                    }
                }
                assert forall|k: int| 0 <= k < statuses@.len() implies is_status_of(
                    #[trigger] statuses@[k],
                    self.processes@[arrangement[k]],
                    now,
                ) by {
                    if k < at {
                        assert(statuses@[k] == before[k]);
                    } else if k > at {
                        assert(statuses@[k] == before[k - 1]);
                    }
                }
                assert forall|a: int, b: int|
                    0 <= a < arrangement.len() && 0 <= b < arrangement.len() && a != b implies arrangement[a]
                    != arrangement[b] by {
                    let from_a = if a < at { a } else { a - 1 };
                    let from_b = if b < at { b } else { b - 1 };
                    if a != at && b != at {
                        assert(arrangement[a] == before_arrangement[from_a]);
                        assert(arrangement[b] == before_arrangement[from_b]);
                    } else if a == at {
                        assert(arrangement[b] == before_arrangement[from_b]);
                    } else {
                        assert(arrangement[a] == before_arrangement[from_a]);
                    }
                }
                assert forall|k: int| 0 <= k < arrangement.len() implies 0 <= #[trigger] arrangement[k] < i
                    + 1 by {
                    if k < at {
                        assert(arrangement[k] == before_arrangement[k]);
                    } else if k > at {
                        assert(arrangement[k] == before_arrangement[k - 1]);
                    }
                }
            }
            i += 1;
        }
        proof {
            assert forall|a: int, b: int| 0 <= a < b < statuses@.len() implies (#[trigger] statuses@[a]).name@
                != (#[trigger] statuses@[b]).name@ by {
                let names = declared_names(self.processes@);
                assert(is_status_of(statuses@[a], self.processes@[arrangement[a]], now));
                assert(is_status_of(statuses@[b], self.processes@[arrangement[b]], now));
                assert(names[arrangement[a]] == self.processes@[arrangement[a]].name@);
                assert(names[arrangement[b]] == self.processes@[arrangement[b]].name@);
            }
        }
        statuses
    }

    /// The status lines of all processes by the wall clock, in dictionary
    /// order of their names, no name twice.
    pub fn get_status(&self) -> (statuses: Vec<ProcessStatus>)
        requires
            self.wf(),
        ensures
            exists|now: Timestamp| #[trigger] ProcessManager::is_listing(*self, statuses@, now),
    {
        self.get_status_at(Timestamp::now())
    }
}

} // verus!
