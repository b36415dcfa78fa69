//! Recognising a configured command among the entries of the process table.
//!
//! The match is deliberately loose: a token matches wherever it occurs,
//! ignoring case, in the process name, in the base name of the executable or
//! in the base name of any argument, so that a script run by an interpreter
//! is found under the script's name.

use vstd::prelude::*;
use vstd::string::*;
use crate::text::{
    base_name, base_name_of, contains_text, file_name, is_substring, lowercase, path_file_name,
    same_text, texts, to_lowercase,
};

verus! {

/// One entry of the process table, as far as matching reads it.
#[derive(Debug, Clone)]
pub struct ProcessInfo {
    pub pid: u32,
    pub name: String,
    /// Path of the executable, where the system tells it.
    pub exe: Option<String>,
    /// The command line, program first.
    pub cmd: Vec<String>,
}

/// A process-table entry as plain values.
pub struct ProcessInfoView {
    pub pid: u32,
    pub name: Seq<char>,
    pub exe: Option<Seq<char>>,
    pub cmd: Seq<Seq<char>>,
}

impl View for ProcessInfo {
    type V = ProcessInfoView;

    open spec fn view(&self) -> ProcessInfoView {
        ProcessInfoView {
            pid: self.pid,
            name: self.name@,
            exe: match self.exe {
                Some(path) => Some(path@),
                None => None,
            },
            cmd: texts(self.cmd@),
        }
    }
}

/// The texts that a process is compared by: names in lower case, paths
/// reduced to their last component.
#[derive(Debug, Clone)]
pub struct MatchKeys {
    /// The process name in lower case.
    pub name: String,
    /// The base name of the executable in lower case, where it has one.
    pub exe_base: Option<String>,
    /// The base name of each argument.
    pub arg_bases: Vec<String>,
    /// The base name of each argument in lower case.
    pub arg_bases_folded: Vec<String>,
}

/// Match keys as plain values.
pub struct MatchKeysView {
    pub name: Seq<char>,
    pub exe_base: Option<Seq<char>>,
    pub arg_bases: Seq<Seq<char>>,
    pub arg_bases_folded: Seq<Seq<char>>,
}

impl View for MatchKeys {
    type V = MatchKeysView;

    open spec fn view(&self) -> MatchKeysView {
        MatchKeysView {
            name: self.name@,
            exe_base: match self.exe_base {
                Some(base) => Some(base@),
                None => None,
            },
            arg_bases: texts(self.arg_bases@),
            arg_bases_folded: texts(self.arg_bases_folded@),
        }
    }
}

/// The match keys of a process-table entry.
pub open spec fn keys_of(process: ProcessInfoView) -> MatchKeysView {
    MatchKeysView {
        name: lowercase(process.name),
        exe_base: match process.exe {
            Some(path) => match path_file_name(path) {
                Some(base) => Some(lowercase(base)),
                None => None,
            },
            None => None,
        },
        arg_bases: Seq::new(process.cmd.len(), |i: int| base_name_of(process.cmd[i])),
        arg_bases_folded: Seq::new(process.cmd.len(), |i: int| lowercase(base_name_of(process.cmd[i]))),
    }
}

/// Some argument's folded base name holds the token.
pub open spec fn some_argument_holds(folded: Seq<Seq<char>>, token: Seq<char>) -> bool {
    exists|i: int| 0 <= i < folded.len() && is_substring(#[trigger] folded[i], token)
}

/// The base name of every expected argument is the base name of some
/// argument.
pub open spec fn all_expected_present(bases: Seq<Seq<char>>, expected: Seq<Seq<char>>) -> bool {
    forall|e: int| 0 <= e < expected.len() ==> bases.contains(base_name_of(#[trigger] expected[e]))
}

/// The match rule over keys: `token` is expected in lower case.
pub open spec fn keys_match_spec(keys: MatchKeysView, token: Seq<char>, expected: Seq<Seq<char>>) -> bool {
    ||| is_substring(keys.name, token)
    ||| (keys.exe_base matches Some(base) && is_substring(base, token))
    ||| some_argument_holds(keys.arg_bases_folded, token)
    ||| (expected.len() > 0 && all_expected_present(keys.arg_bases, expected))
}

/// The match rule: the command name occurs, ignoring case, in the process
/// name, in the executable's base name or in an argument's base name; or
/// arguments are expected and the base name of each is the base name of some
/// argument.
pub open spec fn process_matches_spec(
    process: ProcessInfoView,
    cmd_name: Seq<char>,
    expected: Seq<Seq<char>>,
) -> bool {
    keys_match_spec(keys_of(process), lowercase(cmd_name), expected)
}

/// Computes the texts that `process` is compared by.
pub fn match_keys(process: &ProcessInfo) -> (keys: MatchKeys)
    ensures
        keys@ == keys_of(process@),
{
    let name = to_lowercase(process.name.as_str());
    let exe_base = match &process.exe {
        Some(path) => match file_name(path.as_str()) {
            Some(base) => Some(to_lowercase(base.as_str())),
            None => None,
        },
        None => None,
    };
    let mut arg_bases: Vec<String> = Vec::new();
    let mut arg_bases_folded: Vec<String> = Vec::new();
    let mut i: usize = 0;
    while i < process.cmd.len()
        invariant
            i <= process.cmd.len(),
            arg_bases.len() == i,
            arg_bases_folded.len() == i,
            forall|a: int| 0 <= a < i ==> (#[trigger] arg_bases@[a])@ == base_name_of(process.cmd@[a]@),
            forall|a: int|
                0 <= a < i ==> (#[trigger] arg_bases_folded@[a])@ == lowercase(
                    base_name_of(process.cmd@[a]@),
                ),
        decreases process.cmd.len() - i,
    {
        let base = base_name(process.cmd[i].as_str());
        let folded = to_lowercase(base.as_str());
        arg_bases.push(base);
        arg_bases_folded.push(folded);
        i += 1;
    }
    let keys = MatchKeys { name, exe_base, arg_bases, arg_bases_folded };
    proof {
        assert(keys@.arg_bases =~= keys_of(process@).arg_bases);
        assert(keys@.arg_bases_folded =~= keys_of(process@).arg_bases_folded);
    }
    keys
}

fn any_holds(folded: &Vec<String>, token: &str) -> (found: bool)
    ensures
        found == some_argument_holds(texts(folded@), token@),
{
    let mut i: usize = 0;
    while i < folded.len()
        invariant
            i <= folded.len(),
            forall|a: int| 0 <= a < i ==> !is_substring(#[trigger] texts(folded@)[a], token@),
        decreases folded.len() - i,
    {
        if contains_text(folded[i].as_str(), token) {
            assert(is_substring(texts(folded@)[i as int], token@));
            return true;
        }
        i += 1;
    }
    false
}

fn is_listed(bases: &Vec<String>, wanted: &str) -> (found: bool)
    ensures
        found == texts(bases@).contains(wanted@),
{
    let mut i: usize = 0;
    while i < bases.len()
        invariant
            i <= bases.len(),
            forall|a: int| 0 <= a < i ==> texts(bases@)[a] != wanted@,
        decreases bases.len() - i,
    {
        if same_text(bases[i].as_str(), wanted) {
            assert(texts(bases@)[i as int] == wanted@);
            return true;
        }
        i += 1;
    }
    false
}

fn all_present(bases: &Vec<String>, expected: &[String]) -> (all: bool)
    ensures
        all == all_expected_present(texts(bases@), texts(expected@)),
{
    let mut e: usize = 0;
    while e < expected.len()
        invariant
            e <= expected.len(),
            forall|a: int|
                0 <= a < e ==> texts(bases@).contains(base_name_of(#[trigger] texts(expected@)[a])),
        decreases expected.len() - e,
    {
        let wanted = base_name(expected[e].as_str());
        if !is_listed(bases, wanted.as_str()) {
            assert(!texts(bases@).contains(base_name_of(texts(expected@)[e as int])));
            return false;
        }
        e += 1;
    }
    true
}

/// Applies the match rule to prepared keys. `token` is the command name in
/// lower case.
pub fn keys_match(keys: &MatchKeys, token: &str, expected_args: &[String]) -> (matched: bool)
    ensures
        matched == keys_match_spec(keys@, token@, texts(expected_args@)),
{
    if contains_text(keys.name.as_str(), token) {
        return true;
    }
    match &keys.exe_base {
        Some(base) => {
            if contains_text(base.as_str(), token) {
                return true;
            }
        },
        None => {},
    }
    if any_holds(&keys.arg_bases_folded, token) {
        return true;
    }
    expected_args.len() > 0 && all_present(&keys.arg_bases, expected_args)
}

/// Whether `process` runs the command `cmd_name`, going by its name, its
/// executable and its arguments.
pub fn process_matches(process: &ProcessInfo, cmd_name: &str) -> (matched: bool)
    ensures
        matched == process_matches_spec(process@, cmd_name@, Seq::empty()),
{
    let none: Vec<String> = Vec::new();
    assert(texts(none@) =~= Seq::empty());
    process_matches_with_args(process, cmd_name, none.as_slice())
}

/// As `process_matches`, and also true where `expected_args` is not empty and
/// the base name of each of its entries is the base name of one of the
/// process's arguments.
pub fn process_matches_with_args(
    process: &ProcessInfo,
    cmd_name: &str,
    expected_args: &[String],
) -> (matched: bool)
    ensures
        matched == process_matches_spec(process@, cmd_name@, texts(expected_args@)),
{
    let token = to_lowercase(cmd_name);
    let keys = match_keys(process);
    keys_match(&keys, token.as_str(), expected_args)
}

/// The entries of a process table as plain values.
pub open spec fn table_view(table: Seq<ProcessInfo>) -> Seq<ProcessInfoView> {
    Seq::new(table.len(), |i: int| table[i]@)
}

/// `at` is the position of the first entry of the table that matches.
pub open spec fn is_first_match(
    table: Seq<ProcessInfoView>,
    cmd_name: Seq<char>,
    expected: Seq<Seq<char>>,
    at: int,
) -> bool {
    &&& 0 <= at < table.len()
    &&& process_matches_spec(table[at], cmd_name, expected)
    &&& forall|i: int| 0 <= i < at ==> !process_matches_spec(#[trigger] table[i], cmd_name, expected)
}

/// No entry of the table matches.
pub open spec fn none_matches(
    table: Seq<ProcessInfoView>,
    cmd_name: Seq<char>,
    expected: Seq<Seq<char>>,
) -> bool {
    forall|i: int| 0 <= i < table.len() ==> !process_matches_spec(#[trigger] table[i], cmd_name, expected)
}

/// The process ids of the matching entries, in table order.
pub open spec fn matching_pids_of(
    table: Seq<ProcessInfoView>,
    cmd_name: Seq<char>,
    expected: Seq<Seq<char>>,
) -> Seq<u32>
    decreases table.len(),
{
    if table.len() == 0 {
        Seq::empty()
    } else {
        let before = matching_pids_of(table.drop_last(), cmd_name, expected);
        if process_matches_spec(table.last(), cmd_name, expected) {
            before.push(table.last().pid)
        } else {
            before
        }
    }
}

/// The position of the first entry of `table` that matches, if one does.
pub fn find_first_match(table: &Vec<ProcessInfo>, cmd_name: &str, expected_args: &[String]) -> (found:
    Option<usize>)
    ensures
        match found {
            Some(at) => is_first_match(table_view(table@), cmd_name@, texts(expected_args@), at as int),
            None => none_matches(table_view(table@), cmd_name@, texts(expected_args@)),
        },
{
    let mut i: usize = 0;
    while i < table.len()
        invariant
            i <= table.len(),
            forall|a: int|
                0 <= a < i ==> !process_matches_spec(
                    #[trigger] table_view(table@)[a],
                    cmd_name@,
                    texts(expected_args@),
                ),
        decreases table.len() - i,
    {
        if process_matches_with_args(&table[i], cmd_name, expected_args) {
            assert(table_view(table@)[i as int] == table@[i as int]@);
            return Some(i);
        }
        assert(table_view(table@)[i as int] == table@[i as int]@);
        i += 1;
    }
    None
}

/// The process ids of all entries of `table` that match, in table order.
pub fn matching_pids(table: &Vec<ProcessInfo>, cmd_name: &str, expected_args: &[String]) -> (pids: Vec<
    u32,
>)
    ensures
        pids@ == matching_pids_of(table_view(table@), cmd_name@, texts(expected_args@)),
{
    let ghost all = table_view(table@);
    let mut pids: Vec<u32> = Vec::new();
    let mut i: usize = 0;
    assert(all.take(0) =~= Seq::empty());
    while i < table.len()
        invariant
            i <= table.len(),
            all == table_view(table@),
            pids@ == matching_pids_of(all.take(i as int), cmd_name@, texts(expected_args@)),
        decreases table.len() - i,
    {
        proof {
            assert(all.take(i + 1).drop_last() =~= all.take(i as int));
            assert(all.take(i + 1).last() == table@[i as int]@);
        }
        if process_matches_with_args(&table[i], cmd_name, expected_args) {
            pids.push(table[i].pid);
        }
        i += 1;
    }
    assert(all.take(table.len() as int) =~= all);
    pids
}

} // verus!
