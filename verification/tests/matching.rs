use guardian::matching::{
    find_first_match, keys_match, match_keys, matching_pids, process_matches,
    process_matches_with_args, MatchKeys, ProcessInfo,
};

fn info(pid: u32, name: &str, exe: Option<&str>, cmd: &[&str]) -> ProcessInfo {
    ProcessInfo {
        pid,
        name: name.to_string(),
        exe: exe.map(|e| e.to_string()),
        cmd: cmd.iter().map(|c| c.to_string()).collect(),
    }
}

#[test]
fn token_matches_executable_base_name() {
    let process = info(10, "main", Some("/usr/local/bin/openclaw"), &[]);
    assert!(process_matches(&process, "openclaw"));
}

#[test]
fn token_matches_interpreter_argument() {
    let process = info(
        11,
        "node",
        Some("/usr/bin/node"),
        &["node", "/opt/openclaw/dist/openclaw-gateway.js", "--port", "18789"],
    );
    assert!(process_matches(&process, "openclaw"));
}

#[test]
fn token_matches_unrelated_name_by_containment() {
    let process = info(12, "my-openclawtool", None, &[]);
    assert!(process_matches(&process, "openclaw"));
}

#[test]
fn match_ignores_case() {
    let process = info(13, "OpenClaw", None, &[]);
    assert!(process_matches(&process, "openclaw"));
    let lower = info(14, "openclaw", None, &[]);
    assert!(process_matches(&lower, "OPENCLAW"));
}

#[test]
fn directories_of_an_argument_do_not_match() {
    let process = info(15, "node", Some("/usr/bin/node"), &["node", "/opt/openclaw/server.js"]);
    assert!(!process_matches(&process, "openclaw"));
}

#[test]
fn directories_of_the_executable_do_not_match() {
    let process = info(16, "run", Some("/opt/openclaw/bin/run"), &[]);
    assert!(!process_matches(&process, "openclaw"));
}

#[test]
fn unrelated_process_does_not_match() {
    let process = info(17, "bash", Some("/bin/bash"), &["bash", "-c", "ls"]);
    assert!(!process_matches(&process, "openclaw"));
}

#[test]
fn expected_arguments_match_a_wrapped_script() {
    let process = info(
        18,
        "Python",
        Some("/Library/Frameworks/Python.framework/Versions/3.12/bin/Python"),
        &["/opt/venv/bin/Python", "/opt/oc-memory/memory_observer.py"],
    );
    let expected = vec!["memory_observer.py".to_string()];
    assert!(!process_matches(&process, "python3"));
    assert!(process_matches_with_args(&process, "python3", &expected));
}

#[test]
fn expected_argument_with_a_directory_matches_by_base_name() {
    let process = info(25, "Python", Some("/usr/bin/Python"), &["Python", "memory_observer.py"]);
    let expected = vec!["/opt/oc/memory_observer.py".to_string()];
    assert!(process_matches_with_args(&process, "python3", &expected));
    let other = vec!["/opt/oc/other.py".to_string()];
    assert!(!process_matches_with_args(&process, "python3", &other));
    let nested = info(26, "Python", None, &["Python", "/srv/app/run.py"]);
    assert!(process_matches_with_args(&nested, "python3", &["/elsewhere/run.py".to_string()]));
}

#[test]
fn every_expected_argument_must_be_present() {
    let process = info(19, "Python", None, &["Python", "/opt/a.py", "--fast"]);
    let both = vec!["a.py".to_string(), "--fast".to_string()];
    let missing = vec!["a.py".to_string(), "--slow".to_string()];
    assert!(process_matches_with_args(&process, "python3", &both));
    assert!(!process_matches_with_args(&process, "python3", &missing));
}

#[test]
fn expected_arguments_are_compared_exactly() {
    let process = info(20, "Python", None, &["Python", "/opt/A.PY"]);
    let expected = vec!["a.py".to_string()];
    assert!(!process_matches_with_args(&process, "python3", &expected));
}

#[test]
fn empty_expected_arguments_add_nothing() {
    let process = info(21, "bash", None, &["bash"]);
    assert!(!process_matches_with_args(&process, "openclaw", &[]));
}

#[test]
fn match_keys_fold_case_and_strip_directories() {
    let process = info(22, "Node", Some("/usr/bin/Node"), &["/usr/bin/Node", "/srv/App.JS", "plain"]);
    let keys = match_keys(&process);
    assert_eq!(keys.name, "node");
    assert_eq!(keys.exe_base, Some("node".to_string()));
    assert_eq!(keys.arg_bases, vec!["Node".to_string(), "App.JS".to_string(), "plain".to_string()]);
    assert_eq!(
        keys.arg_bases_folded,
        vec!["node".to_string(), "app.js".to_string(), "plain".to_string()]
    );
}

#[test]
fn match_keys_without_executable() {
    let process = info(23, "x", None, &[]);
    let keys = match_keys(&process);
    assert_eq!(keys.exe_base, None);
    assert!(keys.arg_bases.is_empty());
    let root = info(24, "x", Some("/"), &[]);
    assert_eq!(match_keys(&root).exe_base, None);
}

#[test]
fn keys_match_each_rule() {
    let keys = MatchKeys {
        name: "alpha".to_string(),
        exe_base: Some("beta".to_string()),
        arg_bases: vec!["Gamma".to_string(), "delta.py".to_string()],
        arg_bases_folded: vec!["gamma".to_string(), "delta.py".to_string()],
    };
    assert!(keys_match(&keys, "lph", &[]));
    assert!(keys_match(&keys, "bet", &[]));
    assert!(keys_match(&keys, "amm", &[]));
    assert!(!keys_match(&keys, "omega", &[]));
    assert!(keys_match(&keys, "omega", &["Gamma".to_string()]));
    assert!(keys_match(&keys, "omega", &["/some/dir/Gamma".to_string(), "delta.py".to_string()]));
    assert!(!keys_match(&keys, "omega", &["gamma".to_string()]));
    assert!(keys_match(&keys, "", &[]));
}

#[test]
fn first_match_in_table_order() {
    let table = vec![
        info(1, "init", None, &[]),
        info(40, "openclaw", None, &[]),
        info(41, "openclaw-gateway", None, &[]),
    ];
    assert_eq!(find_first_match(&table, "openclaw", &[]), Some(1));
    assert_eq!(find_first_match(&table, "nginx", &[]), None);
    assert_eq!(find_first_match(&Vec::new(), "openclaw", &[]), None);
}

#[test]
fn all_matches_in_table_order() {
    let table = vec![
        info(1, "init", None, &[]),
        info(40, "openclaw", None, &[]),
        info(7, "bash", None, &[]),
        info(41, "openclaw-gateway", None, &[]),
    ];
    assert_eq!(matching_pids(&table, "openclaw", &[]), vec![40, 41]);
    assert_eq!(matching_pids(&table, "nginx", &[]), Vec::<u32>::new());
}
