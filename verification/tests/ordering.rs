use guardian::config::{
    dependency_graph, find_process, topological_sort, ConfigError, HealthConfig, ProcessConfig,
    ProcessEntry, ReadyConfig, ReadyMethod,
};
use guardian::deps::{resolve_order, OrderError};

fn entry(name: &str, depends_on: &[&str]) -> ProcessEntry {
    ProcessEntry {
        name: name.to_string(),
        config: ProcessConfig {
            command: format!("/usr/local/bin/{}", name),
            args: Vec::new(),
            working_dir: ".".to_string(),
            env: Vec::new(),
            managed: true,
            depends_on: depends_on.iter().map(|d| d.to_string()).collect(),
            auto_restart: true,
            restart_delay: 1,
            ready: ReadyConfig { method: ReadyMethod::Time, timeout: 5, pattern: None, port: None },
            health: HealthConfig { log_file: None },
        },
    }
}

#[test]
fn empty_graph_has_empty_order() {
    let graph: Vec<Vec<usize>> = Vec::new();
    assert_eq!(resolve_order(&graph).unwrap(), Vec::<usize>::new());
}

#[test]
fn independent_nodes_keep_declaration_order() {
    let graph: Vec<Vec<usize>> = vec![vec![], vec![], vec![], vec![]];
    assert_eq!(resolve_order(&graph).unwrap(), vec![0, 1, 2, 3]);
}

#[test]
fn chain_is_ordered_from_the_root() {
    // 0 depends on 1, 1 depends on 2
    let graph: Vec<Vec<usize>> = vec![vec![1], vec![2], vec![]];
    assert_eq!(resolve_order(&graph).unwrap(), vec![2, 1, 0]);
}

#[test]
fn first_declared_goes_first_among_the_free() {
    // 0 needs 3; 1 and 2 are free from the start.
    let graph: Vec<Vec<usize>> = vec![vec![3], vec![], vec![], vec![]];
    assert_eq!(resolve_order(&graph).unwrap(), vec![1, 2, 3, 0]);
}

#[test]
fn node_freed_early_overtakes_later_nodes() {
    // 0 needs 1; once 1 is placed, 0 is the first free node again.
    let graph: Vec<Vec<usize>> = vec![vec![1], vec![], vec![]];
    assert_eq!(resolve_order(&graph).unwrap(), vec![1, 0, 2]);
}

#[test]
fn diamond_places_every_dependency_first() {
    // 3 needs 1 and 2, which both need 0.
    let graph: Vec<Vec<usize>> = vec![vec![], vec![0], vec![0], vec![1, 2]];
    let order = resolve_order(&graph).unwrap();
    assert_eq!(order, vec![0, 1, 2, 3]);
    for (node, deps) in graph.iter().enumerate() {
        let at = order.iter().position(|n| *n == node).unwrap();
        for dep in deps {
            let dep_at = order.iter().position(|n| n == dep).unwrap();
            assert!(dep_at < at);
        }
    }
}

#[test]
fn repeated_computation_gives_the_same_order() {
    let graph: Vec<Vec<usize>> = vec![vec![2, 4], vec![0], vec![], vec![1, 2], vec![]];
    let first = resolve_order(&graph).unwrap();
    let second = resolve_order(&graph).unwrap();
    assert_eq!(first, second);
    assert_eq!(first, vec![2, 4, 0, 1, 3]);
}

#[test]
fn two_node_cycle_is_reported() {
    let graph: Vec<Vec<usize>> = vec![vec![1], vec![0], vec![]];
    match resolve_order(&graph) {
        Err(OrderError::Cycle { members }) => assert_eq!(members, vec![0, 1]),
        other => panic!("unexpected result: {:?}", other),
    }
}

#[test]
fn self_dependency_is_a_cycle() {
    let graph: Vec<Vec<usize>> = vec![vec![], vec![1]];
    match resolve_order(&graph) {
        Err(OrderError::Cycle { members }) => assert_eq!(members, vec![1]),
        other => panic!("unexpected result: {:?}", other),
    }
}

#[test]
fn nodes_behind_a_cycle_are_reported_with_it() {
    // 1 and 2 form a cycle, 3 depends on 2, 0 is free.
    let graph: Vec<Vec<usize>> = vec![vec![], vec![2], vec![1], vec![2]];
    match resolve_order(&graph) {
        Err(OrderError::Cycle { members }) => assert_eq!(members, vec![1, 2, 3]),
        other => panic!("unexpected result: {:?}", other),
    }
}

#[test]
fn dangling_reference_is_reported_first() {
    let graph: Vec<Vec<usize>> = vec![vec![1], vec![0, 7], vec![9]];
    match resolve_order(&graph) {
        Err(OrderError::UnknownDependency { node, slot }) => {
            assert_eq!(node, 1);
            assert_eq!(slot, 1);
        },
        other => panic!("unexpected result: {:?}", other),
    }
}

#[test]
fn find_process_returns_first_position() {
    let processes = vec![entry("a", &[]), entry("b", &[]), entry("a", &[])];
    assert_eq!(find_process(&processes, "a"), Some(0));
    assert_eq!(find_process(&processes, "b"), Some(1));
    assert_eq!(find_process(&processes, "c"), None);
    assert_eq!(find_process(&processes, "A"), None);
}

#[test]
fn dependency_graph_uses_positions() {
    let processes = vec![entry("a", &[]), entry("b", &["a"]), entry("c", &["b", "a", "zzz"])];
    assert_eq!(dependency_graph(&processes), vec![vec![], vec![0], vec![1, 0, 3]]);
}

#[test]
fn topological_sort_of_a_chain() {
    let processes = vec![entry("C", &["B"]), entry("B", &["A"]), entry("A", &[])];
    let order = topological_sort(&processes).unwrap();
    assert_eq!(order, vec!["A".to_string(), "B".to_string(), "C".to_string()]);
}

#[test]
fn topological_sort_is_stable_by_declaration() {
    let processes = vec![
        entry("web", &["db"]),
        entry("cache", &[]),
        entry("db", &[]),
        entry("worker", &["db", "cache"]),
    ];
    let order = topological_sort(&processes).unwrap();
    assert_eq!(
        order,
        vec!["cache".to_string(), "db".to_string(), "web".to_string(), "worker".to_string()]
    );
    assert_eq!(topological_sort(&processes).unwrap(), order);
}

#[test]
fn topological_sort_names_the_unknown_dependency() {
    let processes = vec![entry("a", &[]), entry("b", &["a", "ghost"])];
    match topological_sort(&processes) {
        Err(ConfigError::UnknownDependency { process, dependency }) => {
            assert_eq!(process, "b");
            assert_eq!(dependency, "ghost");
        },
        other => panic!("unexpected result: {:?}", other),
    }
}

#[test]
fn topological_sort_names_the_cycle() {
    let processes = vec![entry("a", &["c"]), entry("b", &[]), entry("c", &["a"])];
    match topological_sort(&processes) {
        Err(ConfigError::DependencyCycle { members }) => {
            assert_eq!(members, vec!["a".to_string(), "c".to_string()]);
        },
        other => panic!("unexpected result: {:?}", other),
    }
}
