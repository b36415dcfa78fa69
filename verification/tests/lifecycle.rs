use guardian::clock::Timestamp;
use guardian::config::{
    dependency_graph, AdvancedConfig, ConfigError, GuardianConfig, HealthConfig, LoggingConfig, MacOsConfig,
    ProcessConfig, ProcessEntry, ReadyConfig, ReadyMethod, RecoveryConfig,
};
use guardian::manager::{ManagerError, ProcessManager, RestartStep, SequenceStep};
use guardian::matching::ProcessInfo;
use guardian::process::{
    force_kill_needed, format_uptime, ManagedProcess, SpawnOutcome, StartStep, StopOutcome,
    StopStep,
};
use guardian::state::ProcessState;

fn process_config(command: &str, managed: bool, depends_on: &[&str]) -> ProcessConfig {
    ProcessConfig {
        command: command.to_string(),
        args: Vec::new(),
        working_dir: ".".to_string(),
        env: Vec::new(),
        managed,
        depends_on: depends_on.iter().map(|d| d.to_string()).collect(),
        auto_restart: true,
        restart_delay: 2,
        ready: ReadyConfig { method: ReadyMethod::Time, timeout: 30, pattern: None, port: None },
        health: HealthConfig { log_file: None },
    }
}

fn entry(name: &str, managed: bool, depends_on: &[&str]) -> ProcessEntry {
    ProcessEntry {
        name: name.to_string(),
        config: process_config(&format!("/usr/local/bin/{}", name), managed, depends_on),
    }
}

fn config_of(processes: Vec<ProcessEntry>) -> GuardianConfig {
    GuardianConfig {
        processes,
        advanced: AdvancedConfig {
            shutdown_grace_period: 10,
            supervisor_interval: 5,
            pid_file: "guardian.pid".to_string(),
        },
        recovery: RecoveryConfig { max_restarts: 3, backoff_step_secs: 5, backoff_max_secs: 60 },
        logging: LoggingConfig { output: "guardian.log".to_string() },
        macos: MacOsConfig { prevent_sleep: false, use_caffeinate: false, restore_sleep_on_exit: false },
    }
}

fn at(secs: i64) -> Timestamp {
    Timestamp { secs, nanos: 0 }
}

fn info(pid: u32, name: &str) -> ProcessInfo {
    ProcessInfo { pid, name: name.to_string(), exe: None, cmd: Vec::new() }
}

fn pid_matches_state(record: &ManagedProcess) -> bool {
    record.pid.is_some()
        == (record.state == ProcessState::Running || record.state == ProcessState::Stopping)
}

fn record<'a>(manager: &'a ProcessManager, name: &str) -> &'a ManagedProcess {
    &manager.processes[manager.find(name).unwrap()]
}

#[test]
fn state_labels() {
    assert_eq!(ProcessState::Stopped.to_string(), "stopped");
    assert_eq!(ProcessState::Starting.to_string(), "starting");
    assert_eq!(ProcessState::Running.to_string(), "online");
    assert_eq!(ProcessState::Stopping.to_string(), "stopping");
    assert_eq!(ProcessState::Failed.to_string(), "failed");
    assert!(ProcessState::Running.is_running());
    assert!(!ProcessState::Starting.is_running());
}

#[test]
fn new_record_is_stopped() {
    let record = ManagedProcess::new("a".to_string(), process_config("/bin/a", true, &[]));
    assert_eq!(record.name, "a");
    assert_eq!(record.state, ProcessState::Stopped);
    assert_eq!(record.pid, None);
    assert!(!record.owns_child);
    assert_eq!(record.started_at, None);
    assert_eq!(record.restart_count, 0);
    assert_eq!(record.last_exit_code, None);
    assert!(record.restart_timestamps.is_empty());
    assert!(pid_matches_state(&record));
}

#[test]
fn uptime_formats() {
    assert_eq!(format_uptime(0), "0s");
    assert_eq!(format_uptime(59), "59s");
    assert_eq!(format_uptime(60), "1m 0s");
    assert_eq!(format_uptime(3599), "59m 59s");
    assert_eq!(format_uptime(3600), "1h 0m 0s");
    assert_eq!(format_uptime(3661), "1h 1m 1s");
    assert_eq!(format_uptime(90061), "25h 1m 1s");
    assert_eq!(format_uptime(u64::MAX), "5124095576030431h 0m 15s");
}

#[test]
fn uptime_counts_whole_seconds() {
    let mut record = ManagedProcess::new("a".to_string(), process_config("/bin/a", true, &[]));
    assert_eq!(record.uptime_at(at(100)), None);
    assert_eq!(record.uptime_display_at(at(100)), "-");
    assert_eq!(record.uptime(), None);
    assert_eq!(record.uptime_display(), "-");
    record.begin_start();
    record.complete_spawn(SpawnOutcome::Spawned { pid: 5 }, Timestamp { secs: 1000, nanos: 500_000_000 });
    assert_eq!(record.uptime_at(Timestamp { secs: 1001, nanos: 499_999_999 }), Some(0));
    assert_eq!(record.uptime_at(Timestamp { secs: 1001, nanos: 500_000_000 }), Some(1));
    assert_eq!(record.uptime_at(at(900)), Some(0));
    assert_eq!(record.uptime_at(at(1000 + 3725)), Some(3724));
    assert_eq!(record.uptime_display_at(at(1000 + 3725)), "1h 2m 4s");
    assert!(record.uptime().is_some());
    assert!(record.uptime_display().ends_with('s'));
}

#[test]
fn seconds_between_timestamps() {
    let start = Timestamp { secs: 10, nanos: 900_000_000 };
    assert_eq!(start.seconds_until(Timestamp { secs: 12, nanos: 100_000_000 }), 1);
    assert_eq!(start.seconds_until(Timestamp { secs: 12, nanos: 900_000_000 }), 2);
    assert_eq!(start.seconds_until(start), 0);
    assert_eq!(start.seconds_until(Timestamp { secs: 9, nanos: 0 }), 0);
    let first = Timestamp { secs: i64::MIN, nanos: 0 };
    let last = Timestamp { secs: i64::MAX, nanos: 0 };
    assert_eq!(first.seconds_until(last), u64::MAX);
    assert_eq!(last.seconds_until(first), 0);
}

#[test]
fn managed_process_runs_through_its_states() {
    let mut record = ManagedProcess::new("a".to_string(), process_config("/bin/a", true, &[]));
    assert_eq!(record.next_start_step(), StartStep::Spawn);
    assert_eq!(record.begin_start(), StartStep::Spawn);
    assert_eq!(record.state, ProcessState::Starting);
    assert!(pid_matches_state(&record));
    assert_eq!(record.begin_start(), StartStep::InTransition);
    assert_eq!(record.state, ProcessState::Starting);

    assert!(record.complete_spawn(SpawnOutcome::Spawned { pid: 4711 }, at(50)));
    assert_eq!(record.state, ProcessState::Running);
    assert_eq!(record.pid, Some(4711));
    assert!(record.owns_child);
    assert_eq!(record.started_at, Some(at(50)));
    assert!(pid_matches_state(&record));

    assert_eq!(record.begin_stop(None, 10), StopStep::Terminate { grace_secs: 10 });
    assert_eq!(record.state, ProcessState::Stopping);
    assert_eq!(record.pid, Some(4711));
    assert!(pid_matches_state(&record));
    assert_eq!(record.begin_start(), StartStep::InTransition);
    assert_eq!(record.begin_stop(Some(3), 10), StopStep::Terminate { grace_secs: 3 });

    assert!(record.complete_stop(StopOutcome::Exited { code: Some(0) }));
    assert_eq!(record.state, ProcessState::Stopped);
    assert_eq!(record.pid, None);
    assert!(!record.owns_child);
    assert_eq!(record.last_exit_code, Some(0));
    assert!(pid_matches_state(&record));
}

#[test]
fn failed_spawn_leaves_the_process_failed() {
    let mut record = ManagedProcess::new("a".to_string(), process_config("/bin/a", true, &[]));
    record.begin_start();
    assert!(record.complete_spawn(SpawnOutcome::Failed, at(1)));
    assert_eq!(record.state, ProcessState::Failed);
    assert_eq!(record.pid, None);
    assert_eq!(record.started_at, None);
    assert!(pid_matches_state(&record));
    // A failed process can be started again, and stopping it signals nothing.
    assert_eq!(record.next_start_step(), StartStep::Spawn);
    assert_eq!(record.begin_stop(None, 10), StopStep::Cleared);
    assert_eq!(record.state, ProcessState::Stopped);
}

#[test]
fn outcomes_out_of_turn_change_nothing() {
    let mut record = ManagedProcess::new("a".to_string(), process_config("/bin/a", true, &[]));
    assert!(!record.complete_spawn(SpawnOutcome::Spawned { pid: 9 }, at(1)));
    assert_eq!(record.state, ProcessState::Stopped);
    assert_eq!(record.pid, None);
    assert!(!record.complete_stop(StopOutcome::Exited { code: Some(1) }));
    assert_eq!(record.state, ProcessState::Stopped);
    assert_eq!(record.last_exit_code, None);
}

#[test]
fn stop_always_ends_stopped() {
    for outcome in [
        StopOutcome::Exited { code: Some(143) },
        StopOutcome::Exited { code: None },
        StopOutcome::WaitFailed,
        StopOutcome::GraceExpired,
    ] {
        let mut record = ManagedProcess::new("a".to_string(), process_config("/bin/a", true, &[]));
        record.begin_start();
        record.complete_spawn(SpawnOutcome::Spawned { pid: 1 }, at(1));
        record.begin_stop(None, 10);
        assert!(record.complete_stop(outcome));
        assert_eq!(record.state, ProcessState::Stopped);
        assert_eq!(record.pid, None);
        let expected = match outcome {
            StopOutcome::Exited { code } => code,
            _ => None,
        };
        assert_eq!(record.last_exit_code, expected);
    }
}

#[test]
fn only_an_expired_grace_period_forces_the_kill() {
    assert!(force_kill_needed(StopOutcome::GraceExpired));
    assert!(!force_kill_needed(StopOutcome::WaitFailed));
    assert!(!force_kill_needed(StopOutcome::Exited { code: Some(0) }));
    assert!(!force_kill_needed(StopOutcome::Exited { code: None }));
}

#[test]
fn external_process_is_discovered() {
    let mut record =
        ManagedProcess::new("claw".to_string(), process_config("/usr/local/bin/openclaw", false, &[]));
    assert_eq!(record.begin_start(), StartStep::Discover);
    assert_eq!(record.state, ProcessState::Stopped);
    let table = vec![info(1, "init"), info(77, "openclaw"), info(78, "openclaw-gateway")];
    assert_eq!(record.discover_external_process(&table, at(9)), Some(1));
    assert_eq!(record.state, ProcessState::Running);
    assert_eq!(record.pid, Some(77));
    assert!(!record.owns_child);
    assert_eq!(record.started_at, Some(at(9)));
    assert!(pid_matches_state(&record));
    assert_eq!(record.begin_start(), StartStep::AlreadyRunning);
    // Stopping never signals a process of another system.
    assert_eq!(record.begin_stop(None, 10), StopStep::Cleared);
    assert_eq!(record.state, ProcessState::Stopped);
    assert_eq!(record.pid, None);
}

#[test]
fn missing_external_process_is_stopped_not_failed() {
    let mut record =
        ManagedProcess::new("claw".to_string(), process_config("/usr/local/bin/openclaw", false, &[]));
    let table = vec![info(1, "init"), info(2, "bash")];
    assert_eq!(record.discover_external_process(&table, at(9)), None);
    assert_eq!(record.state, ProcessState::Stopped);
    assert_eq!(record.pid, None);
}

#[test]
fn restarts_are_counted_with_their_time() {
    let mut record = ManagedProcess::new("a".to_string(), process_config("/bin/a", true, &[]));
    assert_eq!(record.record_restart(1_000), 2);
    assert_eq!(record.record_restart(5_000), 2);
    assert_eq!(record.record_restart(9_000), 2);
    assert_eq!(record.restart_count, 3);
    assert_eq!(record.restart_timestamps, vec![1_000, 5_000, 9_000]);
    assert_eq!(record.recent_restarts(10_000, 6_000), 2);
    assert_eq!(record.recent_restarts(10_000, 5_000), 1);
    assert_eq!(record.recent_restarts(10_000, 1_000), 0);
    assert_eq!(record.recent_restarts(10_000, 9_000), 2);
    assert_eq!(record.recent_restarts(10_000, 9_001), 3);
    assert_eq!(record.recent_restarts(10_000, 20_000), 3);
    assert_eq!(record.recent_restarts(0, 0), 3);
}

#[test]
fn manager_starts_with_stopped_processes() {
    let manager = ProcessManager::new(config_of(vec![entry("b", true, &["a"]), entry("a", true, &[])]));
    assert_eq!(manager.processes.len(), 2);
    assert_eq!(manager.processes[0].name, "b");
    assert_eq!(manager.processes[1].name, "a");
    assert_eq!(dependency_graph(&manager.processes), vec![vec![1], vec![]]);
    assert_eq!(manager.shutdown_grace_period, 10);
    assert_eq!(manager.find("a"), Some(1));
    assert_eq!(manager.find("zz"), None);
    assert!(!manager.is_running("a"));
    assert!(!manager.is_running("zz"));
}

#[test]
fn unknown_process_is_an_error() {
    let mut manager = ProcessManager::new(config_of(vec![entry("a", true, &[])]));
    assert!(matches!(
        manager.start_process("ghost"),
        Err(ManagerError::ProcessNotFound { name }) if name == "ghost"
    ));
    assert!(matches!(manager.stop_process("ghost"), Err(ManagerError::ProcessNotFound { .. })));
    assert!(matches!(
        manager.stop_process_with_grace("ghost", Some(1)),
        Err(ManagerError::ProcessNotFound { .. })
    ));
    assert!(matches!(manager.restart_process("ghost", 1), Err(ManagerError::ProcessNotFound { .. })));
    assert!(matches!(
        manager.complete_spawn_at("ghost", SpawnOutcome::Failed, at(1)),
        Err(ManagerError::ProcessNotFound { .. })
    ));
    assert!(matches!(
        manager.complete_stop("ghost", StopOutcome::WaitFailed),
        Err(ManagerError::ProcessNotFound { .. })
    ));
    assert!(matches!(
        manager.discover_process_at("ghost", &Vec::new(), at(1)),
        Err(ManagerError::ProcessNotFound { .. })
    ));
    assert_eq!(manager.recent_restart_count("ghost", 10, 5), 0);
}

#[test]
fn manager_start_and_stop() {
    let mut manager = ProcessManager::new(config_of(vec![entry("a", true, &[])]));
    assert_eq!(manager.start_process("a").unwrap(), StartStep::Spawn);
    assert_eq!(record(&manager, "a").state, ProcessState::Starting);
    manager.complete_spawn_at("a", SpawnOutcome::Spawned { pid: 31 }, at(3)).unwrap();
    assert!(manager.is_running("a"));
    assert_eq!(record(&manager, "a").pid, Some(31));

    assert_eq!(manager.stop_process("a").unwrap(), StopStep::Terminate { grace_secs: 10 });
    assert_eq!(record(&manager, "a").state, ProcessState::Stopping);
    assert!(!manager.is_running("a"));
    manager.complete_stop("a", StopOutcome::GraceExpired).unwrap();
    assert_eq!(record(&manager, "a").state, ProcessState::Stopped);
    assert_eq!(record(&manager, "a").pid, None);
}

#[test]
fn stop_with_grace_overrides_the_default() {
    let mut manager = ProcessManager::new(config_of(vec![entry("a", true, &[])]));
    manager.start_process("a").unwrap();
    manager.complete_spawn_at("a", SpawnOutcome::Spawned { pid: 31 }, at(3)).unwrap();
    assert_eq!(
        manager.stop_process_with_grace("a", Some(1)).unwrap(),
        StopStep::Terminate { grace_secs: 1 }
    );
}

#[test]
fn spawn_failure_is_surfaced() {
    let mut manager = ProcessManager::new(config_of(vec![entry("a", true, &[])]));
    manager.start_process("a").unwrap();
    assert!(matches!(
        manager.complete_spawn_at("a", SpawnOutcome::Failed, at(3)),
        Err(ManagerError::SpawnFailed { name }) if name == "a"
    ));
    assert_eq!(record(&manager, "a").state, ProcessState::Failed);
    assert!(matches!(
        manager.complete_spawn_at("a", SpawnOutcome::Spawned { pid: 1 }, at(3)),
        Err(ManagerError::UnexpectedOutcome { name }) if name == "a"
    ));
    assert!(matches!(
        manager.complete_stop("a", StopOutcome::WaitFailed),
        Err(ManagerError::UnexpectedOutcome { .. })
    ));
    assert_eq!(record(&manager, "a").state, ProcessState::Failed);
}

#[test]
fn start_of_a_running_process_changes_nothing() {
    let mut manager = ProcessManager::new(config_of(vec![entry("a", true, &[])]));
    manager.start_process("a").unwrap();
    manager.complete_spawn_at("a", SpawnOutcome::Spawned { pid: 31 }, at(3)).unwrap();
    manager.restart_process("a", 100).unwrap();
    manager.complete_stop("a", StopOutcome::Exited { code: Some(0) }).unwrap();
    manager.restart_process("a", 100).unwrap();
    manager.start_process("a").unwrap();
    manager.complete_spawn_at("a", SpawnOutcome::Spawned { pid: 32 }, at(8)).unwrap();

    assert_eq!(manager.start_process("a").unwrap(), StartStep::AlreadyRunning);
    let after = record(&manager, "a");
    assert_eq!(after.state, ProcessState::Running);
    assert_eq!(after.pid, Some(32));
    assert_eq!(after.started_at, Some(at(8)));
    assert_eq!(after.restart_count, 1);
    assert_eq!(after.restart_timestamps, vec![100]);
}

#[test]
fn stop_of_a_stopped_process_changes_nothing() {
    let mut manager = ProcessManager::new(config_of(vec![entry("a", true, &[])]));
    manager.restart_process("a", 7).unwrap();
    assert_eq!(manager.stop_process("a").unwrap(), StopStep::AlreadyStopped);
    assert_eq!(manager.stop_process_with_grace("a", Some(2)).unwrap(), StopStep::AlreadyStopped);
    let after = record(&manager, "a");
    assert_eq!(after.state, ProcessState::Stopped);
    assert_eq!(after.restart_count, 1);
    assert_eq!(after.restart_timestamps, vec![7]);
    assert_eq!(after.last_exit_code, None);
}

#[test]
fn restart_counts_once_even_if_the_start_fails() {
    let mut manager = ProcessManager::new(config_of(vec![entry("a", true, &[])]));
    manager.start_process("a").unwrap();
    manager.complete_spawn_at("a", SpawnOutcome::Spawned { pid: 31 }, at(3)).unwrap();

    assert_eq!(
        manager.restart_process("a", 500).unwrap(),
        RestartStep::Terminate { grace_secs: 10 }
    );
    assert_eq!(record(&manager, "a").restart_count, 0);
    manager.complete_stop("a", StopOutcome::Exited { code: Some(0) }).unwrap();
    assert_eq!(manager.restart_process("a", 600).unwrap(), RestartStep::StartAfter { delay_secs: 2 });
    assert_eq!(record(&manager, "a").restart_count, 1);
    assert_eq!(record(&manager, "a").restart_timestamps, vec![600]);

    assert_eq!(manager.start_process("a").unwrap(), StartStep::Spawn);
    assert!(manager.complete_spawn_at("a", SpawnOutcome::Failed, at(9)).is_err());
    assert_eq!(record(&manager, "a").state, ProcessState::Failed);
    assert_eq!(record(&manager, "a").restart_count, 1);
    assert_eq!(manager.recent_restart_count("a", 1_000, 500), 1);
    assert_eq!(manager.recent_restart_count("a", 1_000, 400), 0);
}

#[test]
fn external_process_through_the_manager() {
    let mut manager = ProcessManager::new(config_of(vec![entry("openclaw", false, &[])]));
    assert_eq!(manager.start_process("openclaw").unwrap(), StartStep::Discover);
    assert!(!manager.discover_process_at("openclaw", &vec![info(1, "init")], at(1)).unwrap());
    assert_eq!(record(&manager, "openclaw").state, ProcessState::Stopped);
    assert!(manager.discover_process_at("openclaw", &vec![info(1, "init"), info(90, "OpenClaw")], at(2)).unwrap());
    assert_eq!(record(&manager, "openclaw").pid, Some(90));
    // Already running: the table is not consulted again.
    assert!(manager.discover_process_at("openclaw", &Vec::new(), at(3)).unwrap());
    assert_eq!(record(&manager, "openclaw").pid, Some(90));
    assert_eq!(record(&manager, "openclaw").started_at, Some(at(2)));
    assert_eq!(manager.stop_process("openclaw").unwrap(), StopStep::Cleared);
    assert_eq!(record(&manager, "openclaw").pid, None);
}

#[test]
fn discovery_is_for_external_processes_only() {
    let mut manager = ProcessManager::new(config_of(vec![entry("a", true, &[])]));
    assert!(matches!(
        manager.discover_process_at("a", &vec![info(5, "a")], at(1)),
        Err(ManagerError::NotExternal { name }) if name == "a"
    ));
    assert_eq!(record(&manager, "a").state, ProcessState::Stopped);
}

#[test]
fn start_all_walks_the_chain_in_dependency_order() {
    let manager = ProcessManager::new(config_of(vec![
        entry("C", true, &["B"]),
        entry("B", true, &["A"]),
        entry("A", true, &[]),
    ]));
    let mut sequence = manager.start_all().unwrap();
    assert_eq!(sequence.order, vec![2, 1, 0]);
    let mut started: Vec<String> = Vec::new();
    loop {
        match manager.start_all_with_flag(&mut sequence, Some(true)) {
            SequenceStep::StartManaged { position } => {
                started.push(manager.processes[position].name.clone());
            },
            SequenceStep::Finished => break,
            other => panic!("unexpected step: {:?}", other),
        }
    }
    assert_eq!(started, vec!["A".to_string(), "B".to_string(), "C".to_string()]);
    assert_eq!(manager.start_all_with_flag(&mut sequence, None), SequenceStep::Finished);
}

#[test]
fn start_all_stops_handing_out_on_shutdown() {
    let manager = ProcessManager::new(config_of(vec![entry("a", true, &[]), entry("b", true, &["a"])]));
    let mut sequence = manager.start_all().unwrap();
    assert_eq!(
        manager.start_all_with_flag(&mut sequence, None),
        SequenceStep::StartManaged { position: 0 }
    );
    assert_eq!(manager.start_all_with_flag(&mut sequence, Some(false)), SequenceStep::Aborted);
    assert_eq!(sequence.next, 1);
    assert_eq!(manager.start_all_with_flag(&mut sequence, Some(false)), SequenceStep::Aborted);
}

#[test]
fn start_all_stops_after_a_failure() {
    let manager = ProcessManager::new(config_of(vec![entry("a", true, &[]), entry("b", true, &["a"])]));
    let mut sequence = manager.start_all().unwrap();
    assert!(!sequence.failed);
    assert_eq!(
        manager.start_all_with_flag(&mut sequence, Some(true)),
        SequenceStep::StartManaged { position: 0 }
    );
    sequence.record_failure();
    assert_eq!(manager.start_all_with_flag(&mut sequence, Some(true)), SequenceStep::Failed);
    assert_eq!(manager.start_all_with_flag(&mut sequence, Some(false)), SequenceStep::Failed);
    assert_eq!(sequence.next, 1);
    assert!(sequence.is_consistent(&manager));
}

#[test]
fn consistency_checks() {
    let mut manager = ProcessManager::new(config_of(vec![entry("a", true, &[]), entry("b", true, &["a"])]));
    assert!(manager.is_consistent());
    assert!(manager.has_room_for_restart("a"));
    assert!(manager.has_room_for_restart("nobody"));
    manager.start_process("a").unwrap();
    assert!(manager.is_consistent());
    manager.processes[0].pid = Some(1);
    assert!(!manager.is_consistent());
    manager.processes[0].pid = None;
    assert!(manager.is_consistent());
    manager.processes[1].name = "a".to_string();
    assert!(!manager.is_consistent());
    manager.processes[1].name = "b".to_string();
    assert!(manager.is_consistent());
    manager.processes[1].restart_count = u32::MAX;
    assert!(!manager.has_room_for_restart("b"));
    assert!(manager.has_room_for_restart("a"));
    assert!(!manager.processes[1].is_consistent());
    let mut sequence = manager.start_all().unwrap();
    sequence.order.push(9);
    assert!(!sequence.is_consistent(&manager));
}

#[test]
fn configuration_names_must_be_unique() {
    assert!(config_of(Vec::new()).is_consistent());
    assert!(config_of(vec![entry("a", true, &[]), entry("b", true, &[])]).is_consistent());
    assert!(!config_of(vec![entry("a", true, &[]), entry("b", true, &[]), entry("a", false, &[])])
        .is_consistent());
}

#[test]
fn restarts_of_one_process_leave_the_others_alone() {
    let mut manager = ProcessManager::new(config_of(vec![entry("a", true, &[]), entry("b", true, &[])]));
    manager.restart_process("b", 40).unwrap();
    for round in 0..3u64 {
        assert_eq!(
            manager.restart_process("a", round).unwrap(),
            RestartStep::StartAfter { delay_secs: 2 }
        );
    }
    assert_eq!(record(&manager, "a").restart_count, 3);
    assert_eq!(record(&manager, "a").restart_timestamps, vec![0, 1, 2]);
    assert_eq!(record(&manager, "b").restart_count, 1);
    assert_eq!(record(&manager, "b").restart_timestamps, vec![40]);
}

#[test]
fn wall_clock_variants_stamp_the_start() {
    let mut manager = ProcessManager::new(config_of(vec![entry("a", true, &[]), entry("claw", false, &[])]));
    manager.start_process("a").unwrap();
    manager.complete_spawn("a", SpawnOutcome::Spawned { pid: 4 }).unwrap();
    assert!(manager.is_running("a"));
    assert!(record(&manager, "a").started_at.unwrap().secs > 1_600_000_000);
    assert!(manager.discover_process("claw", &vec![info(9, "claw")]).unwrap());
    assert!(record(&manager, "claw").started_at.is_some());
    let statuses = manager.get_status();
    assert_eq!(statuses.len(), 2);
    assert_eq!(statuses[0].name, "a");
    assert_eq!(statuses[1].name, "claw");
    assert!(statuses[0].uptime.ends_with('s'));
}

#[test]
fn start_all_awaits_external_processes() {
    let manager = ProcessManager::new(config_of(vec![entry("mem", true, &["claw"]), entry("claw", false, &[])]));
    let mut sequence = manager.start_all().unwrap();
    assert_eq!(
        manager.start_all_with_flag(&mut sequence, Some(true)),
        SequenceStep::AwaitExternal { position: 1, timeout_secs: 30 }
    );
    assert_eq!(
        manager.start_all_with_flag(&mut sequence, Some(true)),
        SequenceStep::StartManaged { position: 0 }
    );
}

#[test]
fn start_all_rejects_broken_configurations() {
    let cyclic = ProcessManager::new(config_of(vec![entry("a", true, &["b"]), entry("b", true, &["a"])]));
    match cyclic.start_all() {
        Err(ConfigError::DependencyCycle { members }) => {
            assert_eq!(members, vec!["a".to_string(), "b".to_string()]);
        },
        other => panic!("unexpected result: {:?}", other),
    }
    assert!(matches!(cyclic.stop_all(), Err(ConfigError::DependencyCycle { .. })));
    let dangling = ProcessManager::new(config_of(vec![entry("a", true, &["nobody"])]));
    match dangling.start_all() {
        Err(ConfigError::UnknownDependency { process, dependency }) => {
            assert_eq!(process, "a");
            assert_eq!(dependency, "nobody");
        },
        other => panic!("unexpected result: {:?}", other),
    }
}

#[test]
fn stop_all_goes_in_reverse_and_survives_errors() {
    let mut manager = ProcessManager::new(config_of(vec![
        entry("A", true, &[]),
        entry("B", true, &["A"]),
        entry("C", true, &["B"]),
    ]));
    for name in ["A", "B", "C"] {
        manager.start_process(name).unwrap();
        manager.complete_spawn_at(name, SpawnOutcome::Spawned { pid: 100 }, at(1)).unwrap();
    }
    let order = manager.stop_all().unwrap();
    assert_eq!(order, vec!["C".to_string(), "B".to_string(), "A".to_string()]);
    let mut stopped: Vec<String> = Vec::new();
    for name in &order {
        manager.stop_process(name).unwrap();
        // The wait for C fails; the others exit in time.
        let outcome = if name == "C" {
            StopOutcome::WaitFailed
        } else {
            StopOutcome::Exited { code: Some(0) }
        };
        manager.complete_stop(name, outcome).unwrap();
        stopped.push(name.clone());
    }
    assert_eq!(stopped, vec!["C".to_string(), "B".to_string(), "A".to_string()]);
    for name in ["A", "B", "C"] {
        assert_eq!(record(&manager, name).state, ProcessState::Stopped);
    }
}

#[test]
fn status_is_sorted_by_name() {
    let mut manager = ProcessManager::new(config_of(vec![
        entry("web", true, &[]),
        entry("Zeta", true, &[]),
        entry("db", true, &[]),
        entry("dbx", true, &[]),
        entry("cache", true, &[]),
    ]));
    manager.start_process("db").unwrap();
    manager.complete_spawn_at("db", SpawnOutcome::Spawned { pid: 8 }, at(100)).unwrap();
    let statuses = manager.get_status_at(at(165));
    let names: Vec<&str> = statuses.iter().map(|s| s.name.as_str()).collect();
    assert_eq!(names, vec!["Zeta", "cache", "db", "dbx", "web"]);
    assert_eq!(statuses[2].state, ProcessState::Running);
    assert_eq!(statuses[2].pid, Some(8));
    assert_eq!(statuses[2].uptime, "1m 5s");
    assert_eq!(statuses[2].restart_count, 0);
    assert_eq!(statuses[0].state, ProcessState::Stopped);
    assert_eq!(statuses[0].uptime, "-");
    assert!(ProcessManager::new(config_of(Vec::new())).get_status_at(at(1)).is_empty());
}
