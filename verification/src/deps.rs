//! Dependency ordering: a deterministic topological order of a graph given by
//! each node's list of dependencies, or the nodes that a cycle keeps from
//! ever being placed.

use vstd::prelude::*;

verus! {

/// Why no order could be produced.
#[derive(Debug)]
pub enum OrderError {
    /// Entry `slot` of the dependency list of `node` names no node of the graph.
    UnknownDependency { node: usize, slot: usize },
    /// The listed nodes, in ascending order, can never be placed: each of them
    /// depends on another of them.
    Cycle { members: Vec<usize> },
}

/// The dependency lists as sequences.
pub open spec fn graph_view(graph: Seq<Vec<usize>>) -> Seq<Seq<usize>> {
    Seq::new(graph.len(), |i: int| graph[i]@)
}

/// Entry `slot` of the dependency list of `node` exists and names no node.
pub open spec fn dangling(g: Seq<Seq<usize>>, node: int, slot: int) -> bool {
    &&& 0 <= node < g.len()
    &&& 0 <= slot < g[node].len()
    &&& g[node][slot] >= g.len()
}

/// Every dependency names a node of the graph.
pub open spec fn graph_wf(g: Seq<Seq<usize>>) -> bool {
    forall|node: int, slot: int| !#[trigger] dangling(g, node, slot)
}

/// All dependencies of `node` are among `placed`.
pub open spec fn ready(g: Seq<Seq<usize>>, placed: Seq<usize>, node: int) -> bool {
    forall|slot: int| 0 <= slot < g[node].len() ==> placed.contains(#[trigger] g[node][slot])
}

/// `node` is the first node, in declaration order, that is not yet placed and
/// whose dependencies all are.
pub open spec fn least_ready(g: Seq<Seq<usize>>, placed: Seq<usize>, node: usize) -> bool {
    &&& node < g.len()
    &&& !placed.contains(node)
    &&& ready(g, placed, node as int)
    &&& forall|m: usize| m < node && !placed.contains(m) ==> !#[trigger] ready(g, placed, m as int)
}

/// Each entry of `order` was, when it was placed, the first node ready to go.
pub open spec fn is_stable_prefix(g: Seq<Seq<usize>>, order: Seq<usize>) -> bool {
    forall|k: int| 0 <= k < order.len() ==> least_ready(g, #[trigger] order.take(k), order[k])
}

/// `order` holds every node once, each after all of its dependencies, and
/// among the nodes free to go the one declared first always went first.
pub open spec fn is_dependency_order(g: Seq<Seq<usize>>, order: Seq<usize>) -> bool {
    &&& order.len() == g.len()
    &&& is_stable_prefix(g, order)
}

/// Every member of `s` is a node with a dependency in `s`: following
/// dependencies from a member never leaves the set, so it runs into a cycle.
pub open spec fn self_dependent(g: Seq<Seq<usize>>, s: Set<usize>) -> bool {
    forall|m: usize| #[trigger] s.contains(m) ==> m < g.len() && exists|slot: int|
        0 <= slot < g[m as int].len() && s.contains(#[trigger] g[m as int][slot])
}

/// Some nodes depend on each other in a circle.
pub open spec fn has_cycle(g: Seq<Seq<usize>>) -> bool {
    exists|s: Set<usize>, m: usize| #[trigger] self_dependent(g, s) && #[trigger] s.contains(m)
}

/// Entry `i` of `walk` is a node that depends on the entry after it, the
/// last entry on the first.
pub open spec fn walk_step(g: Seq<Seq<usize>>, walk: Seq<usize>, i: int) -> bool {
    &&& walk[i] < g.len()
    &&& g[walk[i] as int].contains(walk[(i + 1) % (walk.len() as int)])
}

/// `walk` follows dependencies from node to node and from its last node
/// back to its first.
pub open spec fn is_closed_walk(g: Seq<Seq<usize>>, walk: Seq<usize>) -> bool {
    &&& walk.len() > 0
    &&& forall|i: int| 0 <= i < walk.len() ==> #[trigger] walk_step(g, walk, i)
}

/// `members` lists, in ascending order, exactly the nodes that lie on a cycle
/// or depend on one: the greatest self-dependent set.
pub open spec fn is_cycle_core(g: Seq<Seq<usize>>, members: Seq<usize>) -> bool {
    &&& members.len() > 0
    &&& forall|a: int, b: int| 0 <= a < b < members.len() ==> members[a] < members[b]
    &&& self_dependent(g, members.to_set())
    &&& forall|s: Set<usize>, m: usize| #[trigger]
        self_dependent(g, s) && #[trigger] s.contains(m) ==> members.contains(m)
}

/// The order of a graph that has one.
pub open spec fn dependency_order(g: Seq<Seq<usize>>) -> Seq<usize> {
    choose|order: Seq<usize>| is_dependency_order(g, order)
}

/// An entry of a stable prefix is not repeated and names a node.
pub proof fn lemma_prefix_entries(g: Seq<Seq<usize>>, order: Seq<usize>)
    requires
        is_stable_prefix(g, order),
    ensures
        order.no_duplicates(),
        forall|k: int| 0 <= k < order.len() ==> (#[trigger] order[k]) < g.len(),
{
    assert forall|k: int| 0 <= k < order.len() implies (#[trigger] order[k]) < g.len() by {
        assert(least_ready(g, order.take(k), order[k]));
    }
    assert forall|a: int, b: int| 0 <= a < order.len() && 0 <= b < order.len() && a != b implies order[a]
        != order[b] by {
        let (lo, hi) = if a < b {
            (a, b)
        } else {
            (b, a)
        };
        assert(least_ready(g, order.take(hi), order[hi]));
        assert(order.take(hi)[lo] == order[lo]);
    }
}

/// In a stable prefix every dependency of an entry stands before the entry.
pub proof fn lemma_dependencies_come_first(
    g: Seq<Seq<usize>>,
    order: Seq<usize>,
    at: int,
    slot: int,
) -> (dep_at: int)
    requires
        is_stable_prefix(g, order),
        0 <= at < order.len(),
        0 <= slot < g[order[at] as int].len(),
    ensures
        0 <= dep_at < at,
        order[dep_at] == g[order[at] as int][slot],
{
    assert(least_ready(g, order.take(at), order[at]));
    let dep = g[order[at] as int][slot];
    assert(order.take(at).contains(dep));
    let dep_at = choose|i: int| 0 <= i < order.take(at).len() && order.take(at)[i] == dep;
    dep_at
}

/// Two stable prefixes of one graph agree as far as both reach.
pub proof fn lemma_stable_prefix_unique(
    g: Seq<Seq<usize>>,
    first: Seq<usize>,
    second: Seq<usize>,
    k: int,
)
    requires
        is_stable_prefix(g, first),
        is_stable_prefix(g, second),
        0 <= k <= first.len(),
        k <= second.len(),
    ensures
        first.take(k) == second.take(k),
    decreases k,
{
    if k == 0 {
        assert(first.take(0) =~= second.take(0));
    } else {
        lemma_stable_prefix_unique(g, first, second, k - 1);
        let placed = first.take(k - 1);
        assert(least_ready(g, first.take(k - 1), first[k - 1]));
        assert(least_ready(g, second.take(k - 1), second[k - 1]));
        let a = first[k - 1];
        let b = second[k - 1];
        if a < b {
            assert(ready(g, placed, a as int));
        } else if b < a {
            assert(ready(g, placed, b as int));
        }
        assert(first.take(k) =~= first.take(k - 1).push(a));
        assert(second.take(k) =~= second.take(k - 1).push(b));
    }
}

/// The order of a graph is determined by the graph: computing it again gives
/// the same sequence.
pub proof fn lemma_dependency_order_unique(
    g: Seq<Seq<usize>>,
    first: Seq<usize>,
    second: Seq<usize>,
)
    requires
        is_dependency_order(g, first),
        is_dependency_order(g, second),
    ensures
        first == second,
{
    lemma_stable_prefix_unique(g, first, second, g.len() as int);
    assert(first.take(g.len() as int) =~= first);
    assert(second.take(g.len() as int) =~= second);
}

/// For every declared edge, the dependency stands earlier in the order than
/// the node that declares it.
pub proof fn lemma_order_respects_edges(
    g: Seq<Seq<usize>>,
    order: Seq<usize>,
    node_at: int,
    dep_at: int,
    slot: int,
)
    requires
        is_dependency_order(g, order),
        0 <= node_at < order.len(),
        0 <= dep_at < order.len(),
        0 <= slot < g[order[node_at] as int].len(),
        order[dep_at] == g[order[node_at] as int][slot],
    ensures
        dep_at < node_at,
{
    let found = lemma_dependencies_come_first(g, order, node_at, slot);
    lemma_prefix_entries(g, order);
    assert(order[found] == order[dep_at]);
}

/// Nodes that depend on each other in a circle make a cycle.
pub proof fn lemma_closed_walk_is_cycle(g: Seq<Seq<usize>>, walk: Seq<usize>)
    requires
        is_closed_walk(g, walk),
    ensures
        has_cycle(g),
{
    let s = walk.to_set();
    assert forall|m: usize| #[trigger] s.contains(m) implies m < g.len() && exists|slot: int|
        0 <= slot < g[m as int].len() && s.contains(#[trigger] g[m as int][slot]) by {
        let i = choose|i: int| 0 <= i < walk.len() && walk[i] == m;
        let next = walk[(i + 1) % (walk.len() as int)];
        assert(walk_step(g, walk, i));
        let slot = choose|slot: int| 0 <= slot < g[m as int].len() && g[m as int][slot] == next;
        assert(s.contains(g[m as int][slot]));
    }
    assert(self_dependent(g, s));
    assert(walk.contains(walk[0]));
    assert(s.contains(walk[0]));
}

/// No entry of a stable prefix belongs to a self-dependent set.
pub proof fn lemma_placed_outside_cycles(
    g: Seq<Seq<usize>>,
    order: Seq<usize>,
    s: Set<usize>,
    k: int,
)
    requires
        is_stable_prefix(g, order),
        self_dependent(g, s),
        0 <= k < order.len(),
    ensures
        !s.contains(order[k]),
    decreases k,
{
    if s.contains(order[k]) {
        let node = order[k];
        let slot = choose|slot: int| 0 <= slot < g[node as int].len() && s.contains(#[trigger] g[node as int][slot]);
        let dep_at = lemma_dependencies_come_first(g, order, k, slot);
        lemma_placed_outside_cycles(g, order, s, dep_at);
    }
}

/// The dependencies of `node` all carry a true flag.
pub open spec fn flags_ready(g: Seq<Seq<usize>>, flags: Seq<bool>, node: int) -> bool {
    forall|slot: int| 0 <= slot < g[node].len() ==> flags[#[trigger] g[node][slot] as int]
}

/// `flags` marks exactly the nodes that `order` holds.
pub open spec fn flags_mark(flags: Seq<bool>, order: Seq<usize>) -> bool {
    forall|node: usize| node < flags.len() ==> flags[node as int] == #[trigger] order.contains(node)
}

proof fn lemma_flags_ready(g: Seq<Seq<usize>>, flags: Seq<bool>, order: Seq<usize>, node: int)
    requires
        graph_wf(g),
        flags.len() == g.len(),
        flags_mark(flags, order),
        0 <= node < g.len(),
    ensures
        flags_ready(g, flags, node) == ready(g, order, node),
{
    assert forall|slot: int| 0 <= slot < g[node].len() implies flags[#[trigger] g[node][slot] as int]
        == order.contains(g[node][slot]) by {
        assert(!dangling(g, node, slot));
    }
}

/// The first dangling reference of the graph, rows first, or `None` where
/// every dependency names a node.
fn first_dangling(graph: &Vec<Vec<usize>>) -> (found: Option<(usize, usize)>)
    ensures
        found is None ==> graph_wf(graph_view(graph@)),
        found matches Some((node, slot)) ==> is_first_dangling(
            graph_view(graph@),
            node as int,
            slot as int,
        ),
{
    let ghost g = graph_view(graph@);
    let n: usize = graph.len();
    let mut node: usize = 0;
    while node < n
        invariant
            n == graph.len(),
            g == graph_view(graph@),
            node <= n,
            forall|a: int, b: int| 0 <= a < node ==> !#[trigger] dangling(g, a, b),
        decreases n - node,
    {
        let deps = &graph[node];
        let mut slot: usize = 0;
        while slot < deps.len()
            invariant
                n == graph.len(),
                g == graph_view(graph@),
                node < n,
                deps@ == g[node as int],
                slot <= deps.len(),
                forall|a: int, b: int| 0 <= a < node ==> !#[trigger] dangling(g, a, b),
                forall|b: int| 0 <= b < slot ==> !#[trigger] dangling(g, node as int, b),
            decreases deps.len() - slot,
        {
            if deps[slot] >= n {
                assert(dangling(g, node as int, slot as int));
                return Some((node, slot));
            }
            slot += 1;
        }
        node += 1;
    }
    None
}

/// `(node, slot)` is a dangling reference and none comes before it, rows first.
pub open spec fn is_first_dangling(g: Seq<Seq<usize>>, node: int, slot: int) -> bool {
    &&& dangling(g, node, slot)
    &&& forall|a: int, b: int| 0 <= a < node ==> !#[trigger] dangling(g, a, b)
    &&& forall|b: int| 0 <= b < slot ==> !#[trigger] dangling(g, node, b)
}

fn dependencies_flagged(graph: &Vec<Vec<usize>>, flags: &Vec<bool>, node: usize) -> (all: bool)
    requires
        graph_wf(graph_view(graph@)),
        flags.len() == graph.len(),
        node < graph.len(),
    ensures
        all == flags_ready(graph_view(graph@), flags@, node as int),
{
    let ghost g = graph_view(graph@);
    let deps = &graph[node];
    let mut slot: usize = 0;
    while slot < deps.len()
        invariant
            graph_wf(g),
            g == graph_view(graph@),
            flags.len() == graph.len(),
            node < graph.len(),
            deps@ == g[node as int],
            slot <= deps.len(),
            forall|b: int| 0 <= b < slot ==> flags@[#[trigger] g[node as int][b] as int],
        decreases deps.len() - slot,
    {
        assert(!dangling(g, node as int, slot as int));
        if !flags[deps[slot]] {
            return false;
        }
        slot += 1;
    }
    true
}

/// The first unflagged node whose dependencies are all flagged.
fn first_ready(graph: &Vec<Vec<usize>>, flags: &Vec<bool>) -> (found: Option<usize>)
    requires
        graph_wf(graph_view(graph@)),
        flags.len() == graph.len(),
    ensures
        found matches Some(node) ==> {
            &&& node < graph.len()
            &&& !flags@[node as int]
            &&& flags_ready(graph_view(graph@), flags@, node as int)
            &&& forall|m: int|
                0 <= m < node && !flags@[m] ==> !#[trigger] flags_ready(graph_view(graph@), flags@, m)
        },
        found is None ==> forall|m: int|
            0 <= m < graph.len() && !flags@[m] ==> !#[trigger] flags_ready(graph_view(graph@), flags@, m),
{
    let ghost g = graph_view(graph@);
    let n: usize = graph.len();
    let mut node: usize = 0;
    while node < n
        invariant
            graph_wf(g),
            g == graph_view(graph@),
            n == graph.len(),
            flags.len() == n,
            node <= n,
            forall|m: int| 0 <= m < node && !flags@[m] ==> !#[trigger] flags_ready(g, flags@, m),
        decreases n - node,
    {
        if !flags[node] && dependencies_flagged(graph, flags, node) {
            return Some(node);
        }
        node += 1;
    }
    None
}

/// The unflagged nodes in ascending order.
fn unflagged(flags: &Vec<bool>) -> (rest: Vec<usize>)
    ensures
        forall|a: int, b: int| 0 <= a < b < rest.len() ==> rest[a] < rest[b],
        forall|m: usize| rest@.contains(m) <==> (m < flags.len() && !flags@[m as int]),
{
    let mut rest: Vec<usize> = Vec::new();
    let mut node: usize = 0;
    while node < flags.len()
        invariant
            node <= flags.len(),
            forall|a: int, b: int| 0 <= a < b < rest.len() ==> rest[a] < rest[b],
            forall|a: int| 0 <= a < rest.len() ==> rest[a] < node,
            forall|m: usize| rest@.contains(m) <==> (m < node && !flags@[m as int]),
        decreases flags.len() - node,
    {
        if !flags[node] {
            let ghost before = rest@;
            rest.push(node);
            proof {
                assert(rest@[before.len() as int] == node);
                assert forall|m: usize| rest@.contains(m) <==> (m < node + 1 && !flags@[m as int]) by {
                    if rest@.contains(m) {
                        let i = choose|i: int| 0 <= i < rest@.len() && rest@[i] == m;
                        if i < before.len() {
                            assert(before[i] == m);
                            assert(before.contains(m));
                        }
                    }
                    if m < node && !flags@[m as int] {
                        assert(before.contains(m));
                        let i = choose|i: int| 0 <= i < before.len() && before[i] == m;
                        assert(rest@[i] == m);
                    }
                }
            }
        }
        node += 1;
    }
    rest
}

proof fn lemma_prefix_bounded(g: Seq<Seq<usize>>, order: Seq<usize>)
    requires
        is_stable_prefix(g, order),
    ensures
        order.len() <= g.len(),
{
    lemma_prefix_entries(g, order);
    order.unique_seq_to_set();
    let range = Set::new(|m: usize| m < g.len());
    let ints = vstd::set_lib::set_int_range(0, g.len() as int);
    vstd::set_lib::lemma_int_range(0, g.len() as int);
    let image = order.to_set().map(|m: usize| m as int);
    assert(order.to_set().finite());
    vstd::set_lib::lemma_map_size(order.to_set(), image, |m: usize| m as int);
    assert(image.subset_of(ints)) by {
        assert forall|i: int| image.contains(i) implies ints.contains(i) by {
            let m = choose|m: usize| order.to_set().contains(m) && i == m as int;
            let k = choose|k: int| 0 <= k < order.len() && order[k] == m;
            assert(order[k] < g.len());
        }
    }
    vstd::set_lib::lemma_len_subset(image, ints);
}

/// Computes the order in which the nodes of `graph` may be started: every
/// node after its dependencies, and wherever several nodes are free to go,
/// the one declared first. Fails on a reference to a missing node, and on a
/// cycle with the nodes that it blocks.
pub fn resolve_order(graph: &Vec<Vec<usize>>) -> (result: Result<Vec<usize>, OrderError>)
    ensures
        match result {
            Ok(order) => {
                &&& graph_wf(graph_view(graph@))
                &&& is_dependency_order(graph_view(graph@), order@)
                &&& order@ == dependency_order(graph_view(graph@))
            },
            Err(OrderError::UnknownDependency { node, slot }) => is_first_dangling(
                graph_view(graph@),
                node as int,
                slot as int,
            ),
            Err(OrderError::Cycle { members }) => graph_wf(graph_view(graph@)) && is_cycle_core(
                graph_view(graph@),
                members@,
            ),
        },
        graph_wf(graph_view(graph@)) ==> (result is Ok <==> !has_cycle(graph_view(graph@))),
{
    let ghost g = graph_view(graph@);
    match first_dangling(graph) {
        Some((node, slot)) => {
            assert(dangling(g, node as int, slot as int));
            return Err(OrderError::UnknownDependency { node, slot });
        },
        None => {},
    }
    let n: usize = graph.len();
    let mut flags: Vec<bool> = Vec::new();
    while flags.len() < n
        invariant
            flags.len() <= n,
            forall|i: int| 0 <= i < flags.len() ==> !flags@[i],
        decreases n - flags.len(),
    {
        flags.push(false);
    }
    let mut order: Vec<usize> = Vec::new();
    assert(flags_mark(flags@, order@)) by {
        assert forall|node: usize| node < flags.len() implies flags@[node as int]
            == #[trigger] order@.contains(node) by {}
    }
    loop
        invariant
            g == graph_view(graph@),
            graph_wf(g),
            n == graph.len(),
            flags.len() == n,
            flags_mark(flags@, order@),
            is_stable_prefix(g, order@),
        decreases n - order.len(),
    {
        proof {
            lemma_prefix_bounded(g, order@);
        }
        match first_ready(graph, &flags) {
            Some(node) => {
                let ghost before = order@;
                let ghost marks = flags@;
                proof {
                    assert(least_ready(g, before, node)) by {
                        lemma_flags_ready(g, marks, before, node as int);
                        assert forall|m: usize| m < node && !before.contains(m) implies !#[trigger] ready(
                            g,
                            before,
                            m as int,
                        ) by {
                            lemma_flags_ready(g, marks, before, m as int);
                            assert(!marks[m as int]);
                        }
                    }
                }
                flags.set(node, true);
                order.push(node);
                proof {
                    assert forall|k: int| 0 <= k < order@.len() implies least_ready(
                        g,
                        #[trigger] order@.take(k),
                        order@[k],
                    ) by {
                        if k < before.len() {
                            assert(order@.take(k) =~= before.take(k));
                        } else {
                            assert(order@.take(k) =~= before);
                        }
                    }
                    assert forall|m: usize| m < flags.len() implies flags@[m as int]
                        == #[trigger] order@.contains(m) by {
                        if m == node {
                            assert(order@[before.len() as int] == node);
                        } else {
                            if before.contains(m) {
                                let i = choose|i: int| 0 <= i < before.len() && before[i] == m;
                                assert(order@[i] == m);
                            }
                            if order@.contains(m) {
                                let i = choose|i: int| 0 <= i < order@.len() && order@[i] == m;
                                assert(before[i] == m);
                            }
                        }
                    }
                    lemma_prefix_bounded(g, order@);
                }
            },
            None => {
                let rest = unflagged(&flags);
                proof {
                    assert forall|m: usize| m < n && !order@.contains(m) implies !#[trigger] ready(
                        g,
                        order@,
                        m as int,
                    ) by {
                        lemma_flags_ready(g, flags@, order@, m as int);
                    }
                }
                if rest.len() == 0 {
                    proof {
                        assert forall|m: usize| m < n implies order@.contains(m) by {
                            if !order@.contains(m) {
                                assert(!flags@[m as int]);
                                assert(rest@.contains(m));
                            }
                        }
                        lemma_covers_all(g, order@);
                        lemma_complete_order_acyclic(g, order@);
                        lemma_dependency_order_unique(g, order@, dependency_order(g));
                    }
                    return Ok(order);
                } else {
                    proof {
                        lemma_stuck_is_cycle_core(g, order@, rest@);
                        assert(rest@.to_set().contains(rest@[0]));
                    }
                    return Err(OrderError::Cycle { members: rest });
                }
            },
        }
    }
}

/// A stable prefix that holds every node has the length of the graph.
proof fn lemma_covers_all(g: Seq<Seq<usize>>, order: Seq<usize>)
    requires
        is_stable_prefix(g, order),
        g.len() <= usize::MAX,
        forall|m: usize| m < g.len() ==> order.contains(m),
    ensures
        order.len() == g.len(),
{
    lemma_prefix_bounded(g, order);
    lemma_prefix_entries(g, order);
    order.unique_seq_to_set();
    let ints = vstd::set_lib::set_int_range(0, g.len() as int);
    vstd::set_lib::lemma_int_range(0, g.len() as int);
    let image = order.to_set().map(|m: usize| m as int);
    vstd::set_lib::lemma_map_size(order.to_set(), image, |m: usize| m as int);
    assert(ints.subset_of(image)) by {
        assert forall|i: int| ints.contains(i) implies image.contains(i) by {
            let m = i as usize;
            assert(order.contains(m));
            assert(order.to_set().contains(m) && i == m as int);
        }
    }
    assert(image.finite());
    vstd::set_lib::lemma_len_subset(ints, image);
}

/// A graph with a complete order has no cycle.
pub proof fn lemma_complete_order_acyclic(g: Seq<Seq<usize>>, order: Seq<usize>)
    requires
        is_dependency_order(g, order),
        forall|m: usize| m < g.len() ==> order.contains(m),
    ensures
        !has_cycle(g),
{
    assert forall|s: Set<usize>, m: usize| #[trigger] self_dependent(g, s) implies !#[trigger] s.contains(m) by {
        if s.contains(m) {
            assert(order.contains(m));
            let k = choose|k: int| 0 <= k < order.len() && order[k] == m;
            lemma_placed_outside_cycles(g, order, s, k);
        }
    }
}

/// Where no unplaced node is ready, the unplaced nodes are the greatest
/// self-dependent set.
proof fn lemma_stuck_is_cycle_core(g: Seq<Seq<usize>>, order: Seq<usize>, rest: Seq<usize>)
    requires
        graph_wf(g),
        is_stable_prefix(g, order),
        rest.len() > 0,
        forall|a: int, b: int| 0 <= a < b < rest.len() ==> rest[a] < rest[b],
        forall|m: usize| rest.contains(m) <==> (m < g.len() && !order.contains(m)),
        forall|m: usize| m < g.len() && !order.contains(m) ==> !#[trigger] ready(g, order, m as int),
    ensures
        is_cycle_core(g, rest),
        has_cycle(g),
{
    let s = rest.to_set();
    assert forall|m: usize| #[trigger] s.contains(m) implies m < g.len() && exists|slot: int|
        0 <= slot < g[m as int].len() && s.contains(#[trigger] g[m as int][slot]) by {
        assert(rest.contains(m));
        assert(!ready(g, order, m as int));
        let slot = choose|slot: int| 0 <= slot < g[m as int].len() && !order.contains(#[trigger] g[m as int][slot]);
        assert(!dangling(g, m as int, slot));
        assert(rest.contains(g[m as int][slot]));
    }
    assert(self_dependent(g, s));
    assert forall|t: Set<usize>, m: usize| #[trigger] self_dependent(g, t) && #[trigger] t.contains(m) implies rest.contains(m) by {
        if order.contains(m) {
            let k = choose|k: int| 0 <= k < order.len() && order[k] == m;
            lemma_placed_outside_cycles(g, order, t, k);
        }
    }
    assert(s.contains(rest[0]));
}

} // verus!
