use guardian::commands::{
    command_name, down_targets, find_running, parse_pid, pid_file_status, resolve_pid_path,
    select_log_file, stop_request_step, stop_target, tail_start, up_step, CommandError,
    PidFileStatus, StopRequestStep, UpStep,
};
use guardian::config::{
    AdvancedConfig, GuardianConfig, HealthConfig, LoggingConfig, MacOsConfig, ProcessConfig,
    ProcessEntry, ReadyConfig, ReadyMethod, RecoveryConfig,
};
use guardian::matching::ProcessInfo;
use guardian::text::{base_name, push_decimal};

fn process(command: &str, args: &[&str], managed: bool, timeout: u64, log_file: Option<&str>) -> ProcessConfig {
    ProcessConfig {
        command: command.to_string(),
        args: args.iter().map(|a| a.to_string()).collect(),
        working_dir: ".".to_string(),
        env: Vec::new(),
        managed,
        depends_on: Vec::new(),
        auto_restart: true,
        restart_delay: 1,
        ready: ReadyConfig { method: ReadyMethod::Time, timeout, pattern: None, port: None },
        health: HealthConfig { log_file: log_file.map(|f| f.to_string()) },
    }
}

fn config(pid_file: &str, processes: Vec<ProcessEntry>) -> GuardianConfig {
    GuardianConfig {
        processes,
        advanced: AdvancedConfig {
            shutdown_grace_period: 10,
            supervisor_interval: 5,
            pid_file: pid_file.to_string(),
        },
        recovery: RecoveryConfig { max_restarts: 3, backoff_step_secs: 5, backoff_max_secs: 60 },
        logging: LoggingConfig { output: "/var/log/guardian.log".to_string() },
        macos: MacOsConfig { prevent_sleep: false, use_caffeinate: false, restore_sleep_on_exit: false },
    }
}

fn info(pid: u32, name: &str, cmd: &[&str]) -> ProcessInfo {
    ProcessInfo {
        pid,
        name: name.to_string(),
        exe: None,
        cmd: cmd.iter().map(|c| c.to_string()).collect(),
    }
}

#[test]
fn relative_pid_file_goes_under_the_directory() {
    assert_eq!(
        resolve_pid_path(&config("guardian.pid", Vec::new())),
        "/usr/local/etc/oc-guardian/guardian.pid"
    );
    assert_eq!(
        resolve_pid_path(&config("run/guardian.pid", Vec::new())),
        "/usr/local/etc/oc-guardian/run/guardian.pid"
    );
    assert_eq!(resolve_pid_path(&config("", Vec::new())), "/usr/local/etc/oc-guardian/");
}

#[test]
fn absolute_pid_file_is_kept() {
    assert_eq!(resolve_pid_path(&config("/var/run/guardian.pid", Vec::new())), "/var/run/guardian.pid");
    assert_eq!(resolve_pid_path(&config("/", Vec::new())), "/");
}

#[test]
fn pid_file_content_is_parsed() {
    assert_eq!(parse_pid("4711"), Some(4711));
    assert_eq!(parse_pid(" 4711\n"), Some(4711));
    assert_eq!(parse_pid("\t0 "), Some(0));
    assert_eq!(parse_pid("4294967295"), Some(u32::MAX));
    assert_eq!(parse_pid("4294967296"), None);
    assert_eq!(parse_pid(""), None);
    assert_eq!(parse_pid("-1"), None);
    assert_eq!(parse_pid("12 34"), None);
    assert_eq!(parse_pid("pid"), None);
}

#[test]
fn pid_file_tells_of_another_supervisor() {
    assert_eq!(pid_file_status(None, false), PidFileStatus::Free);
    assert_eq!(pid_file_status(None, true), PidFileStatus::Free);
    assert_eq!(pid_file_status(Some(12), true), PidFileStatus::Held { pid: 12 });
    assert_eq!(pid_file_status(Some(12), false), PidFileStatus::Stale { pid: 12 });
}

#[test]
fn stop_request_escalates_when_the_supervisor_stays_alive() {
    assert_eq!(stop_request_step(PidFileStatus::Free, None), StopRequestStep::Nothing);
    assert_eq!(stop_request_step(PidFileStatus::Stale { pid: 5 }, None), StopRequestStep::RemoveFile);
    let held = PidFileStatus::Held { pid: 5 };
    assert_eq!(stop_request_step(held, None), StopRequestStep::Terminate { pid: 5, wait_secs: 3 });
    assert_eq!(stop_request_step(held, Some(true)), StopRequestStep::Kill { pid: 5 });
    assert_eq!(stop_request_step(held, Some(false)), StopRequestStep::RemoveFile);
}

#[test]
fn command_name_is_the_last_component() {
    assert_eq!(command_name(&process("/usr/local/bin/openclaw", &[], false, 5, None)), "openclaw");
    assert_eq!(command_name(&process("python3", &[], false, 5, None)), "python3");
    assert_eq!(base_name("/opt/app/"), "app");
    assert_eq!(base_name("/"), "/");
    assert_eq!(base_name(""), "");
    assert_eq!(base_name("a/b/.."), "a/b/..");
    assert_eq!(base_name("dir/file.txt"), "file.txt");
}

#[test]
fn decimal_is_appended() {
    let mut text = "n=".to_string();
    push_decimal(&mut text, 0);
    assert_eq!(text, "n=0");
    push_decimal(&mut text, 907);
    assert_eq!(text, "n=0907");
    let mut big = String::new();
    push_decimal(&mut big, u64::MAX);
    assert_eq!(big, "18446744073709551615");
}

#[test]
fn running_process_is_found_by_command_or_arguments() {
    let table = vec![
        info(1, "init", &[]),
        info(50, "Python", &["Python", "/opt/oc-memory/memory_observer.py"]),
        info(60, "openclaw", &["openclaw", "gateway"]),
    ];
    let memory = process("/opt/venv/bin/python3", &["memory_observer.py"], true, 5, None);
    let claw = process("/usr/local/bin/openclaw", &["gateway"], false, 5, None);
    let absent = process("/usr/bin/nginx", &[], true, 5, None);
    assert_eq!(find_running(&memory, &table), Some(1));
    assert_eq!(find_running(&claw, &table), Some(2));
    assert_eq!(find_running(&absent, &table), None);
}

#[test]
fn up_launches_missing_external_processes() {
    let table = vec![info(60, "openclaw", &["openclaw"])];
    assert_eq!(
        up_step(&process("/usr/local/bin/openclaw", &[], false, 30, None), &table),
        UpStep::AlreadyRunning
    );
    assert_eq!(
        up_step(&process("/usr/local/bin/other", &[], false, 30, None), &table),
        UpStep::Launch { wait_secs: 10 }
    );
    assert_eq!(
        up_step(&process("/usr/local/bin/other", &[], false, 4, None), &table),
        UpStep::Launch { wait_secs: 4 }
    );
    assert_eq!(
        up_step(&process("/usr/local/bin/openclaw", &[], true, 30, None), &table),
        UpStep::LeftToSupervisor
    );
}

#[test]
fn down_ends_every_matching_external_process() {
    let table = vec![
        info(60, "openclaw", &["openclaw"]),
        info(2, "bash", &[]),
        info(61, "openclaw-gateway", &["openclaw-gateway"]),
    ];
    assert_eq!(down_targets(&process("/usr/local/bin/openclaw", &[], false, 5, None), &table), vec![60, 61]);
    assert_eq!(
        down_targets(&process("/usr/local/bin/openclaw", &[], true, 5, None), &table),
        Vec::<u32>::new()
    );
    assert_eq!(down_targets(&process("/usr/bin/nginx", &[], false, 5, None), &table), Vec::<u32>::new());
}

#[test]
fn stop_ends_the_first_match_of_an_owned_process() {
    let table = vec![info(2, "bash", &[]), info(70, "worker", &[]), info(71, "worker", &[])];
    assert_eq!(stop_target(&process("/opt/worker", &[], true, 5, None), &table), Some(70));
    assert_eq!(stop_target(&process("/opt/worker", &[], false, 5, None), &table), None);
    assert_eq!(stop_target(&process("/opt/nginx", &[], true, 5, None), &table), None);
}

#[test]
fn log_file_is_chosen_by_process() {
    let snapshot = config(
        "guardian.pid",
        vec![
            ProcessEntry {
                name: "memory".to_string(),
                config: process("/opt/memory", &[], true, 5, Some("/var/log/memory.log")),
            },
            ProcessEntry { name: "claw".to_string(), config: process("/opt/claw", &[], false, 5, None) },
        ],
    );
    assert_eq!(select_log_file(&snapshot, None).unwrap(), "/var/log/guardian.log");
    assert_eq!(select_log_file(&snapshot, Some("memory")).unwrap(), "/var/log/memory.log");
    assert_eq!(select_log_file(&snapshot, Some("claw")).unwrap(), "claw.log");
    match select_log_file(&snapshot, Some("ghost")) {
        Err(CommandError::ProcessNotFound { name }) => assert_eq!(name, "ghost"),
        other => panic!("unexpected result: {:?}", other),
    }
}

#[test]
fn tail_starts_at_the_last_lines() {
    assert_eq!(tail_start(100, 50), 50);
    assert_eq!(tail_start(50, 50), 0);
    assert_eq!(tail_start(10, 50), 0);
    assert_eq!(tail_start(0, 0), 0);
    assert_eq!(tail_start(7, 0), 7);
}
