//! The configuration snapshot that supervision is built from, and the start
//! order that its dependency declarations give.

use vstd::prelude::*;
use vstd::string::*;
use crate::deps::{
    dependency_order, graph_view, graph_wf, has_cycle, is_cycle_core, is_dependency_order,
    is_first_dangling, lemma_prefix_entries, resolve_order, OrderError,
};
use crate::text::{
    comma_separated, join_with_commas, lemma_name_position_is, name_position, same_text, texts,
};

verus! {

/// How a freshly started process shows that its dependents may proceed.
#[derive(Debug, Clone, Copy, PartialEq, Eq, Structural)]
pub enum ReadyMethod {
    /// A pattern appears in the process's log file.
    Log,
    /// A TCP port on the local host accepts connections.
    Port,
    /// A fixed time has passed.
    Time,
}

/// Readiness settings of one process.
#[derive(Debug, Clone)]
pub struct ReadyConfig {
    pub method: ReadyMethod,
    /// Upper bound of the readiness wait, in seconds.
    pub timeout: u64,
    pub pattern: Option<String>,
    pub port: Option<u16>,
}

/// Health-check settings of one process.
#[derive(Debug, Clone)]
pub struct HealthConfig {
    pub log_file: Option<String>,
}

/// The definition of one supervised process.
#[derive(Debug, Clone)]
pub struct ProcessConfig {
    pub command: String,
    pub args: Vec<String>,
    pub working_dir: String,
    pub env: Vec<(String, String)>,
    /// Whether the supervisor spawns the process itself; if not, it only
    /// looks for it in the process table.
    pub managed: bool,
    pub depends_on: Vec<String>,
    pub auto_restart: bool,
    /// Seconds to wait between the stop and the start of a restart.
    pub restart_delay: u64,
    pub ready: ReadyConfig,
    pub health: HealthConfig,
}

/// A process definition under its name.
#[derive(Debug, Clone)]
pub struct ProcessEntry {
    pub name: String,
    pub config: ProcessConfig,
}

/// Settings of the supervisor itself.
#[derive(Debug, Clone)]
pub struct AdvancedConfig {
    /// Seconds that a child gets to exit after a terminate request, unless a
    /// stop names another period.
    pub shutdown_grace_period: u64,
    /// Seconds between two supervision ticks.
    pub supervisor_interval: u64,
    /// Where the supervisor records its own process id.
    pub pid_file: String,
}

/// Thresholds of the recovery policy.
#[derive(Debug, Clone, Copy, PartialEq, Eq, Structural)]
pub struct RecoveryConfig {
    /// Restarts after which a failing process is no longer restarted.
    pub max_restarts: u32,
    /// Seconds of delay that each restart already made adds to the next one.
    pub backoff_step_secs: u64,
    /// Upper bound of the delay before a restart, in seconds.
    pub backoff_max_secs: u64,
}

/// Where the supervisor writes its own log.
#[derive(Debug, Clone)]
pub struct LoggingConfig {
    pub output: String,
}

/// Sleep prevention settings.
#[derive(Debug, Clone, Copy, PartialEq, Eq, Structural)]
pub struct MacOsConfig {
    pub prevent_sleep: bool,
    pub use_caffeinate: bool,
    pub restore_sleep_on_exit: bool,
}

/// The configuration snapshot: the processes in declaration order and the
/// supervisor's own settings.
#[derive(Debug, Clone)]
pub struct GuardianConfig {
    pub processes: Vec<ProcessEntry>,
    pub advanced: AdvancedConfig,
    pub recovery: RecoveryConfig,
    pub logging: LoggingConfig,
    pub macos: MacOsConfig,
}

/// Why a configuration cannot be supervised.
#[derive(Debug)]
pub enum ConfigError {
    /// `process` names a dependency that is no process of the configuration.
    UnknownDependency { process: String, dependency: String },
    /// These processes depend on each other in a circle, or on such a circle.
    DependencyCycle { members: Vec<String> },
}

impl ConfigError {
    /// The error in words.
    pub open spec fn text(self) -> Seq<char> {
        match self {
            ConfigError::UnknownDependency { process, dependency } => "Process '"@ + process@
                + "' depends on unknown process '"@ + dependency@ + "'"@,
            ConfigError::DependencyCycle { members } => "Circular dependency among processes: "@
                + comma_separated(texts(members@)),
        }
    }

    /// The error in words.
    pub fn to_string(&self) -> (text: String)
        ensures
            text@ == self.text(),
    {
        match self {
            ConfigError::UnknownDependency { process, dependency } => {
                let mut text = String::from_str("Process '");
                text.append(process.as_str());
                text.append("' depends on unknown process '");
                text.append(dependency.as_str());
                text.append("'");
                text
            },
            ConfigError::DependencyCycle { members } => {
                let mut text = String::from_str("Circular dependency among processes: ");
                let names = join_with_commas(members);
                text.append(names.as_str());
                text
            },
        }
    }
}

/// Something declared under a name, with the names of what it depends on.
pub trait Declared {
    /// The name.
    spec fn declared_name(&self) -> Seq<char>;

    /// The names of the dependencies, as declared.
    spec fn declared_dependencies(&self) -> Seq<Seq<char>>;

    /// The name.
    fn name_text(&self) -> (name: &str)
        ensures
            name@ == self.declared_name(),
    ;

    /// The names of the dependencies, as declared.
    fn dependency_list(&self) -> (list: &Vec<String>)
        ensures
            texts(list@) == self.declared_dependencies(),
    ;
}

impl Declared for ProcessEntry {
    open spec fn declared_name(&self) -> Seq<char> {
        self.name@
    }

    open spec fn declared_dependencies(&self) -> Seq<Seq<char>> {
        texts(self.config.depends_on@)
    }

    fn name_text(&self) -> (name: &str) {
        self.name.as_str()
    }

    fn dependency_list(&self) -> (list: &Vec<String>) {
        &self.config.depends_on
    }
}

/// The names of the items, in declaration order.
pub open spec fn declared_names<T: Declared>(items: Seq<T>) -> Seq<Seq<char>> {
    Seq::new(items.len(), |i: int| items[i].declared_name())
}

/// The declared dependencies as a graph over positions: a dependency
/// becomes the position of the first item of that name, and the number of
/// items where there is none.
pub open spec fn dependency_graph_of<T: Declared>(items: Seq<T>) -> Seq<Seq<usize>> {
    Seq::new(
        items.len(),
        |i: int|
            Seq::new(
                items[i].declared_dependencies().len(),
                |j: int| name_position(declared_names(items), items[i].declared_dependencies()[j]) as usize,
            ),
    )
}

/// The names of the items at the given positions.
pub open spec fn names_at<T: Declared>(items: Seq<T>, positions: Seq<usize>) -> Seq<Seq<char>> {
    Seq::new(positions.len(), |k: int| items[positions[k] as int].declared_name())
}

/// `result` is what the declared dependencies of `items` give: the
/// positions in start order, or the first dependency that names no item, or
/// the items that a cycle blocks.
pub open spec fn is_start_order_of<T: Declared>(items: Seq<T>, result: Result<Vec<usize>, ConfigError>) -> bool {
    let g = dependency_graph_of(items);
    match result {
        Ok(order) => {
            &&& graph_wf(g)
            &&& !has_cycle(g)
            &&& is_dependency_order(g, order@)
            &&& order@ == dependency_order(g)
            &&& forall|k: int| 0 <= k < order@.len() ==> (#[trigger] order@[k]) < items.len()
        },
        Err(error) => is_order_error_of(items, error),
    }
}

/// `error` is why the declared dependencies of `items` give no start order.
pub open spec fn is_order_error_of<T: Declared>(items: Seq<T>, error: ConfigError) -> bool {
    let g = dependency_graph_of(items);
    match error {
        ConfigError::UnknownDependency { process, dependency } => exists|node: int, slot: int|
            {
                &&& #[trigger] is_first_dangling(g, node, slot)
                &&& process@ == items[node].declared_name()
                &&& dependency@ == items[node].declared_dependencies()[slot]
            },
        ConfigError::DependencyCycle { members } => {
            &&& graph_wf(g)
            &&& has_cycle(g)
            &&& exists|core: Seq<usize>| #[trigger]
                is_cycle_core(g, core) && texts(members@) == names_at(items, core)
        },
    }
}

/// The position of the first item called `name`.
pub fn find_process<T: Declared>(items: &Vec<T>, name: &str) -> (found: Option<usize>)
    ensures
        match found {
            Some(at) => at < items.len() && name_position(declared_names(items@), name@) == at,
            None => name_position(declared_names(items@), name@) == items.len(),
        },
{
    let mut at: usize = 0;
    while at < items.len()
        invariant
            at <= items.len(),
            forall|j: int| 0 <= j < at ==> declared_names(items@)[j] != name@,
        decreases items.len() - at,
    {
        if same_text(items[at].name_text(), name) {
            proof {
                lemma_name_position_is(declared_names(items@), name@, at as int);
            }
            return Some(at);
        }
        at += 1;
    }
    proof {
        lemma_name_position_is(declared_names(items@), name@, at as int);
    }
    None
}

/// Whether no name is declared twice.
pub fn names_are_unique<T: Declared>(items: &Vec<T>) -> (unique: bool)
    ensures
        unique == declared_names(items@).no_duplicates(),
{
    let ghost names = declared_names(items@);
    let mut i: usize = 0;
    while i < items.len()
        invariant
            i <= items.len(),
            names == declared_names(items@),
            forall|a: int, b: int| 0 <= a < b < i ==> names[a] != names[b],
        decreases items.len() - i,
    {
        match find_process(items, items[i].name_text()) {
            Some(first) => {
                if first != i {
                    assert(names[first as int] == names[i as int]) by {
                        crate::text::lemma_name_position(names, names[i as int]);
                    }
                    return false;
                }
                proof {
                    crate::text::lemma_name_position(names, names[i as int]);
                }
            },
            None => {
                proof {
                    crate::text::lemma_name_position(names, names[i as int]);
                }
            },
        }
        i += 1;
    }
    true
}

/// Turns the declared dependency names into positions.
pub fn dependency_graph<T: Declared>(items: &Vec<T>) -> (graph: Vec<Vec<usize>>)
    ensures
        graph_view(graph@) == dependency_graph_of(items@),
{
    let n: usize = items.len();
    let mut graph: Vec<Vec<usize>> = Vec::new();
    let mut i: usize = 0;
    while i < n
        invariant
            n == items.len(),
            i <= n,
            graph.len() == i,
            forall|a: int| 0 <= a < i ==> (#[trigger] graph@[a])@ == dependency_graph_of(items@)[a],
        decreases n - i,
    {
        let deps = items[i].dependency_list();
        let mut row: Vec<usize> = Vec::new();
        let mut j: usize = 0;
        while j < deps.len()
            invariant
                n == items.len(),
                i < n,
                texts(deps@) == items@[i as int].declared_dependencies(),
                j <= deps.len(),
                row.len() == j,
                forall|b: int| 0 <= b < j ==> #[trigger] row@[b] == dependency_graph_of(items@)[i as int][b],
            decreases deps.len() - j,
        {
            let position = match find_process(items, deps[j].as_str()) {
                Some(at) => at,
                None => n,
            };
            assert(texts(deps@)[j as int] == deps@[j as int]@);
            row.push(position);
            j += 1;
        }
        assert(texts(deps@).len() == deps@.len());
        assert(row@ =~= dependency_graph_of(items@)[i as int]);
        graph.push(row);
        i += 1;
    }
    assert(graph_view(graph@) =~= dependency_graph_of(items@));
    graph
}

/// The names of the items at `positions`, copied out.
pub fn names_at_positions<T: Declared>(items: &Vec<T>, positions: &Vec<usize>) -> (names: Vec<String>)
    requires
        forall|k: int| 0 <= k < positions@.len() ==> (#[trigger] positions@[k]) < items.len(),
    ensures
        texts(names@) == names_at(items@, positions@),
{
    let mut names: Vec<String> = Vec::new();
    let mut k: usize = 0;
    while k < positions.len()
        invariant
            k <= positions.len(),
            names.len() == k,
            forall|a: int| 0 <= a < positions@.len() ==> (#[trigger] positions@[a]) < items.len(),
            forall|a: int|
                0 <= a < k ==> (#[trigger] names@[a])@ == items@[positions@[a] as int].declared_name(),
        decreases positions.len() - k,
    {
        names.push(String::from_str(items[positions[k]].name_text()));
        k += 1;
    }
    assert(texts(names@) =~= names_at(items@, positions@));
    names
}

/// The positions of the items in the order in which they are to be started:
/// each after the items that it depends on, and among those free to start,
/// the one declared first. A dependency on an unknown name and a dependency
/// cycle are errors.
pub fn start_order<T: Declared>(items: &Vec<T>) -> (result: Result<Vec<usize>, ConfigError>)
    ensures
        is_start_order_of(items@, result),
{
    let graph = dependency_graph(items);
    let ghost g = dependency_graph_of(items@);
    match resolve_order(&graph) {
        Ok(order) => {
            proof {
                lemma_prefix_entries(g, order@);
            }
            Ok(order)
        },
        Err(OrderError::UnknownDependency { node, slot }) => {
            let process = String::from_str(items[node].name_text());
            let deps = items[node].dependency_list();
            assert(texts(deps@)[slot as int] == deps@[slot as int]@);
            let dependency = deps[slot].clone();
            Err(ConfigError::UnknownDependency { process, dependency })
        },
        Err(OrderError::Cycle { members }) => {
            proof {
                assert forall|k: int| 0 <= k < members@.len() implies (#[trigger] members@[k]) < items.len() by {
                    assert(members@.to_set().contains(members@[k]));
                }
            }
            let names = names_at_positions(items, &members);
            Err(ConfigError::DependencyCycle { members: names })
        },
    }
}

/// The names of the items in the order in which they are to be started:
/// each after the items that it depends on, and among those free to start,
/// the one declared first. A dependency on an unknown name and a dependency
/// cycle are errors.
pub fn topological_sort<T: Declared>(items: &Vec<T>) -> (result: Result<Vec<String>, ConfigError>)
    ensures
        match result {
            Ok(names) => {
                &&& graph_wf(dependency_graph_of(items@))
                &&& !has_cycle(dependency_graph_of(items@))
                &&& is_dependency_order(
                    dependency_graph_of(items@),
                    dependency_order(dependency_graph_of(items@)),
                )
                &&& texts(names@) == names_at(items@, dependency_order(dependency_graph_of(items@)))
            },
            Err(error) => is_order_error_of(items@, error),
        },
{
    match start_order(items) {
        Ok(order) => Ok(names_at_positions(items, &order)),
        Err(error) => Err(error),
    }
}

impl GuardianConfig {
    /// No process name is declared twice.
    pub open spec fn wf(&self) -> bool {
        declared_names(self.processes@).no_duplicates()
    }

    /// Whether no process name is declared twice.
    pub fn is_consistent(&self) -> (consistent: bool)
        ensures
            consistent == self.wf(),
    {
        names_are_unique(&self.processes)
    }
}

} // verus!
