//! The decisions behind the command-line operations: the supervisor's own
//! process-id file, bringing the whole system up and down, the status
//! listing and the choice of a log to show.

use vstd::prelude::*;
use vstd::string::*;
use crate::config::{declared_names, find_process, GuardianConfig, ProcessConfig};
use crate::matching::{
    find_first_match, is_first_match, matching_pids, matching_pids_of, none_matches, table_view,
    ProcessInfo,
};
use crate::readiness::MAX_FIXED_DELAY_SECS;
use crate::text::{base_name, base_name_of, name_position, texts};

verus! {

/// The text after leading and trailing white space is taken off, as
/// `str::trim` does it.
pub uninterp spec fn trimmed(text: Seq<char>) -> Seq<char>;

/// The number that a text denotes, as `str::parse::<u32>` reads it.
pub uninterp spec fn parsed_u32(text: Seq<char>) -> Option<u32>;

/// `str::trim`: the text without leading and trailing white space.
#[verifier::external_body]
fn trim(text: &str) -> (inner: &str)
    ensures
        inner@ == trimmed(text@),
{
    text.trim()
}

/// `str::parse::<u32>`: the number that the text denotes, if it denotes one.
#[verifier::external_body]
fn parse_u32(text: &str) -> (number: Option<u32>)
    ensures
        number == parsed_u32(text@),
{
    text.parse::<u32>().ok()
}

/// The directory under which a relative process-id file is kept.
pub open spec fn pid_directory() -> Seq<char> {
    "/usr/local/etc/oc-guardian"@
}

/// A path is absolute when it starts at the root.
pub open spec fn is_absolute(path: Seq<char>) -> bool {
    path.len() > 0 && path[0] == '/'
}

/// Where the process-id file is: the configured path if it is absolute,
/// else that path under the process-id directory.
pub open spec fn pid_path_of(pid_file: Seq<char>) -> Seq<char> {
    if is_absolute(pid_file) {
        pid_file
    } else {
        pid_directory() + "/"@ + pid_file
    }
}

/// What the process-id file says about another supervisor.
#[derive(Debug, Clone, Copy, PartialEq, Eq, Structural)]
pub enum PidFileStatus {
    /// No supervisor is recorded.
    Free,
    /// The recorded supervisor is gone: the file is to be removed.
    Stale { pid: u32 },
    /// The recorded supervisor is alive: no second one may start.
    Held { pid: u32 },
}

/// Seconds that a supervisor gets to shut down after a terminate request
/// from outside.
pub const STOP_WAIT_SECS: u64 = 3;

/// What a request to stop the supervisor from outside does next.
#[derive(Debug, Clone, Copy, PartialEq, Eq, Structural)]
pub enum StopRequestStep {
    /// No supervisor runs and no file is left: nothing to do.
    Nothing,
    /// Ask the supervisor to terminate, wait `wait_secs` seconds and look
    /// whether it is still alive.
    Terminate { pid: u32, wait_secs: u64 },
    /// The supervisor is still alive: kill it, then remove the file.
    Kill { pid: u32 },
    /// Remove the process-id file.
    RemoveFile,
}

/// What bringing the system up does for one process.
#[derive(Debug, Clone, Copy, PartialEq, Eq, Structural)]
pub enum UpStep {
    /// The supervisor starts this process itself, later.
    LeftToSupervisor,
    /// The process runs already.
    AlreadyRunning,
    /// Launch the process and give it `wait_secs` seconds.
    Launch { wait_secs: u64 },
}

/// Why a command cannot be carried out.
#[derive(Debug)]
pub enum CommandError {
    /// No process of this name is configured.
    ProcessNotFound { name: String },
}

impl CommandError {
    /// The error in words.
    pub open spec fn text(self) -> Seq<char> {
        match self {
            CommandError::ProcessNotFound { name } => "Process '"@ + name@ + "' not found"@,
        }
    }

    /// The error in words.
    pub fn to_string(&self) -> (text: String)
        ensures
            text@ == self.text(),
    {
        match self {
            CommandError::ProcessNotFound { name } => {
                let mut text = String::from_str("Process '");
                text.append(name.as_str());
                text.append("' not found");
                text
            },
        }
    }
}

/// The name under which the command of a process is looked for.
pub open spec fn command_name_of(config: ProcessConfig) -> Seq<char> {
    base_name_of(config.command@)
}

/// What bringing the system up does for a process.
pub open spec fn up_step_spec(config: ProcessConfig, table: Seq<ProcessInfo>) -> UpStep {
    if config.managed {
        UpStep::LeftToSupervisor
    } else if !none_matches(table_view(table), command_name_of(config), texts(config.args@)) {
        UpStep::AlreadyRunning
    } else {
        UpStep::Launch {
            wait_secs: if config.ready.timeout < MAX_FIXED_DELAY_SECS {
                config.ready.timeout
            } else {
                MAX_FIXED_DELAY_SECS
            },
        }
    }
}

/// Where the supervisor records its own process id.
pub fn resolve_pid_path(config: &GuardianConfig) -> (path: String)
    ensures
        path@ == pid_path_of(config.advanced.pid_file@),
{
    let pid_file = config.advanced.pid_file.as_str();
    if pid_file.unicode_len() > 0 && pid_file.get_char(0) == '/' {
        String::from_str(pid_file)
    } else {
        let mut path = String::from_str("/usr/local/etc/oc-guardian");
        path.append("/");
        path.append(pid_file);
        path
    }
}

/// Reads a process id from the content of the process-id file: the number
/// that the content denotes once white space around it is taken off.
pub fn parse_pid(content: &str) -> (pid: Option<u32>)
    ensures
        pid == parsed_u32(trimmed(content@)),
{
    parse_u32(trim(content))
}

/// Judges the process-id file: `recorded` is the process id that it holds,
/// if it holds one, and `alive` whether that process exists.
pub fn pid_file_status(recorded: Option<u32>, alive: bool) -> (status: PidFileStatus)
    ensures
        status == match recorded {
            None => PidFileStatus::Free,
            Some(pid) => if alive {
                PidFileStatus::Held { pid }
            } else {
                PidFileStatus::Stale { pid }
            },
        },
{
    match recorded {
        None => PidFileStatus::Free,
        Some(pid) => {
            if alive {
                PidFileStatus::Held { pid }
            } else {
                PidFileStatus::Stale { pid }
            }
        },
    }
}

/// The next step of a request to stop the supervisor from outside.
/// `status` is what the process-id file said at first, and `still_alive`
/// what the look after the wait showed, once it was taken.
pub fn stop_request_step(status: PidFileStatus, still_alive: Option<bool>) -> (step: StopRequestStep)
    ensures
        step == match status {
            PidFileStatus::Free => StopRequestStep::Nothing,
            PidFileStatus::Stale { .. } => StopRequestStep::RemoveFile,
            PidFileStatus::Held { pid } => match still_alive {
                None => StopRequestStep::Terminate { pid, wait_secs: STOP_WAIT_SECS },
                Some(true) => StopRequestStep::Kill { pid },
                Some(false) => StopRequestStep::RemoveFile,
            },
        },
{
    match status {
        PidFileStatus::Free => StopRequestStep::Nothing,
        PidFileStatus::Stale { .. } => StopRequestStep::RemoveFile,
        PidFileStatus::Held { pid } => match still_alive {
            None => StopRequestStep::Terminate { pid, wait_secs: STOP_WAIT_SECS },
            Some(true) => StopRequestStep::Kill { pid },
            Some(false) => StopRequestStep::RemoveFile,
        },
    }
}

/// The name under which the command of a process is looked for in the
/// process table: the last component of the configured command.
pub fn command_name(config: &ProcessConfig) -> (name: String)
    ensures
        name@ == command_name_of(*config),
{
    base_name(config.command.as_str())
}

/// The first entry of `table` that runs the command of `config` with its
/// arguments.
pub fn find_running(config: &ProcessConfig, table: &Vec<ProcessInfo>) -> (found: Option<usize>)
    ensures
        match found {
            Some(at) => is_first_match(
                table_view(table@),
                command_name_of(*config),
                texts(config.args@),
                at as int,
            ),
            None => none_matches(table_view(table@), command_name_of(*config), texts(config.args@)),
        },
{
    let name = command_name(config);
    find_first_match(table, name.as_str(), config.args.as_slice())
}

/// What bringing the system up does for a process before the supervisor
/// starts: a process of another system that does not run yet is launched and
/// given its readiness timeout, at most ten seconds.
pub fn up_step(config: &ProcessConfig, table: &Vec<ProcessInfo>) -> (step: UpStep)
    ensures
        step == up_step_spec(*config, table@),
{
    if config.managed {
        return UpStep::LeftToSupervisor;
    }
    match find_running(config, table) {
        Some(at) => {
            assert(crate::matching::process_matches_spec(
                table_view(table@)[at as int],
                command_name_of(*config),
                texts(config.args@),
            ));
            UpStep::AlreadyRunning
        },
        None => {
            let wait_secs: u64 = if config.ready.timeout < MAX_FIXED_DELAY_SECS {
                config.ready.timeout
            } else {
                MAX_FIXED_DELAY_SECS
            };
            UpStep::Launch { wait_secs }
        },
    }
}

/// The processes to end when the whole system is brought down, for a process
/// of another system: every entry of `table` that runs its command, a
/// parent and its children alike. The supervisor's own processes were
/// stopped with it.
pub fn down_targets(config: &ProcessConfig, table: &Vec<ProcessInfo>) -> (pids: Vec<u32>)
    ensures
        pids@ == if config.managed {
            Seq::empty()
        } else {
            matching_pids_of(table_view(table@), command_name_of(*config), texts(config.args@))
        },
{
    if config.managed {
        Vec::new()
    } else {
        let name = command_name(config);
        matching_pids(table, name.as_str(), config.args.as_slice())
    }
}

/// The process to end when the supervisor is stopped from outside, for one
/// of its own processes: the first entry of `table` that runs its command.
/// Processes of other systems are left alone.
pub fn stop_target(config: &ProcessConfig, table: &Vec<ProcessInfo>) -> (target: Option<u32>)
    ensures
        match target {
            Some(pid) => config.managed && exists|at: int|
                #[trigger] is_first_match(
                    table_view(table@),
                    command_name_of(*config),
                    texts(config.args@),
                    at,
                ) && pid == table@[at].pid,
            None => !config.managed || none_matches(
                table_view(table@),
                command_name_of(*config),
                texts(config.args@),
            ),
        },
{
    if !config.managed {
        return None;
    }
    match find_running(config, table) {
        Some(at) => Some(table[at].pid),
        None => None,
    }
}

/// The log that a request shows: the log file of the named process, or
/// `<name>.log` where it has none configured, or the supervisor's own log
/// where no process is named. An unknown process is an error.
pub fn select_log_file(config: &GuardianConfig, process: Option<&str>) -> (result: Result<
    String,
    CommandError,
>)
    ensures
        match process {
            None => result matches Ok(path) && path@ == config.logging.output@,
            Some(name) => {
                let at = name_position(declared_names(config.processes@), name@) as int;
                if at < config.processes@.len() {
                    result matches Ok(path) && path@ == match config.processes@[at].config.health.log_file {
                        Some(file) => file@,
                        None => name@ + ".log"@,
                    }
                } else {
                    result matches Err(CommandError::ProcessNotFound { name: missing }) && missing@
                        == name@
                }
            },
        },
{
    match process {
        None => Ok(config.logging.output.clone()),
        Some(name) => match find_process(&config.processes, name) {
            Some(at) => match &config.processes[at].config.health.log_file {
                Some(file) => Ok(file.clone()),
                None => {
                    let mut path = String::from_str(name);
                    path.append(".log");
                    Ok(path)
                },
            },
            None => Err(CommandError::ProcessNotFound { name: String::from_str(name) }),
        },
    }
}

/// The index of the first of the last `tail` lines among `lines` lines.
pub fn tail_start(lines: usize, tail: usize) -> (start: usize)
    ensures
        start == if lines > tail {
            lines - tail
        } else {
            0
        },
{
    if lines > tail {
        lines - tail
    } else {
        0
    }
}

} // verus!
