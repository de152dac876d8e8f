//! The integer side of routing every origin to the school: the reverse
//! adjacency the search runs on, and reading a route back off the
//! shortest-path tree that the search leaves behind.
use vstd::prelude::*;
use crate::graph::{edges_by_end, edges_ending, end_of, EdgeLink};
use crate::text::{prefixed_number, spec_decimal};

verus! {

/// For each node, the ids of the edges that reach it, in edge order.
pub fn reverse_incoming(n_nodes: usize, edges: &Vec<EdgeLink>) -> (r: Vec<Vec<usize>>)
    requires
        forall|i: int| 0 <= i < edges@.len() ==> (#[trigger] edges@[i]).to_node < n_nodes,
    ensures
        r@.len() == n_nodes,
        forall|v: int|
            0 <= v < n_nodes ==> (#[trigger] r@[v])@ == edges_ending(edges@, v, false, edges@.len() as int),
{
    assert forall|i: int| 0 <= i < edges@.len() implies end_of(#[trigger] edges@[i], false) < n_nodes by {
        assert(edges@[i].to_node < n_nodes);
    }
    edges_by_end(n_nodes, edges, false)
}

/// Walk from `curr` towards `dest` along the tree edges `prev[u]` (the edge to
/// take out of `u`), for at most `steps` edges: the edges taken and the node reached.
/// The walk stops at `dest`, at a node with no tree edge, or when the steps run out.
pub open spec fn spec_walk(
    prev: Seq<Option<usize>>,
    edges: Seq<EdgeLink>,
    curr: int,
    dest: int,
    steps: int,
) -> (Seq<usize>, int)
    decreases steps,
{
    if steps <= 0 || curr == dest || !(0 <= curr < prev.len()) {
        (seq![], curr)
    } else {
        match prev[curr] {
            Some(e) => if e < edges.len() {
                let (rest, end) = spec_walk(prev, edges, edges[e as int].to_node as int, dest, steps - 1);
                (seq![e] + rest, end)
            } else {
                (seq![], curr)
            },
            None => (seq![], curr),
        }
    }
}

/// Tree edges point into the edge list and edges end at nodes of the tree.
pub open spec fn tree_ok(prev: Seq<Option<usize>>, edges: Seq<EdgeLink>) -> bool {
    &&& forall|u: int|
        0 <= u < prev.len() && #[trigger] prev[u] is Some ==> prev[u]->0 < edges.len()
    &&& forall|i: int| 0 <= i < edges.len() ==> (#[trigger] edges[i]).to_node < prev.len()
}

/// The tree edge of each node leaves that node.
pub open spec fn tree_edges_leave(prev: Seq<Option<usize>>, edges: Seq<EdgeLink>) -> bool {
    forall|u: int|
        0 <= u < prev.len() && #[trigger] prev[u] is Some ==> edges[prev[u]->0 as int].from_node == u
}

/// Follows the tree edges from `start` towards `dest`, taking at most
/// `max_steps` edges: the edge ids taken, in order, and the node where the walk ended.
pub fn trace_route(
    prev_edge: &Vec<Option<usize>>,
    edges: &Vec<EdgeLink>,
    start: usize,
    dest: usize,
    max_steps: usize,
) -> (r: (Vec<usize>, usize))
    requires
        start < prev_edge@.len(),
        tree_ok(prev_edge@, edges@),
    ensures
        (r.0@, r.1 as int) == spec_walk(prev_edge@, edges@, start as int, dest as int, max_steps as int),
{
    let ghost whole = spec_walk(prev_edge@, edges@, start as int, dest as int, max_steps as int);
    let mut path: Vec<usize> = Vec::new();
    let mut curr = start;
    let mut taken: usize = 0;
    while curr != dest && taken < max_steps
        invariant
            tree_ok(prev_edge@, edges@),
            curr < prev_edge@.len(),
            taken <= max_steps,
            whole == spec_walk(prev_edge@, edges@, start as int, dest as int, max_steps as int),
            ({
                let (rest, end) = spec_walk(
                    prev_edge@,
                    edges@,
                    curr as int,
                    dest as int,
                    (max_steps - taken) as int,
                );
                path@ + rest == whole.0 && end == whole.1
            }),
        decreases max_steps - taken,
    {
        taken = taken + 1;
        match prev_edge[curr] {
            Some(e) => {
                assert(prev_edge@[curr as int] is Some);
                let ghost old_path = path@;
                path.push(e);
                curr = edges[e].to_node;
                assert(path@ =~= old_path + seq![e]);
                proof {
                    let (rest, end) = spec_walk(
                        prev_edge@,
                        edges@,
                        curr as int,
                        dest as int,
                        (max_steps - taken) as int,
                    );
                    assert(path@ + rest =~= old_path + (seq![e] + rest));
                }
            },
            None => {
                return (path, curr);
            },
        }
    }
    assert(path@ + seq![] =~= path@);
    (path, curr)
}

/// Where the tree edges leave their nodes, the walk is a path: each edge
/// starts where the previous one ended, the first leaves `curr`, the last
/// reaches the end node, and the walk stops at `dest`, at a node without a
/// tree edge, or after `steps` edges.
pub proof fn lemma_walk_is_path(
    prev: Seq<Option<usize>>,
    edges: Seq<EdgeLink>,
    curr: int,
    dest: int,
    steps: int,
)
    requires
        tree_ok(prev, edges),
        tree_edges_leave(prev, edges),
        0 <= curr < prev.len(),
        steps >= 0,
    ensures
        ({
            let (p, end) = spec_walk(prev, edges, curr, dest, steps);
            &&& p.len() <= steps
            &&& 0 <= end < prev.len()
            &&& p.len() == 0 ==> end == curr
            &&& p.len() > 0 ==> edges[p[0] as int].from_node == curr
                && edges[p.last() as int].to_node == end
            &&& forall|i: int|
                0 <= i < p.len() - 1 ==> edges[#[trigger] p[i] as int].to_node == edges[p[i
                    + 1] as int].from_node
            &&& forall|i: int| 0 <= i < p.len() ==> #[trigger] p[i] < edges.len()
            &&& end == dest || p.len() == steps || prev[end] is None
        }),
    decreases steps,
{
    if steps > 0 && curr != dest {
        match prev[curr] {
            Some(e) => {
                let next = edges[e as int].to_node as int;
                lemma_walk_is_path(prev, edges, next, dest, steps - 1);
                let (rest, end) = spec_walk(prev, edges, next, dest, steps - 1);
                let p = seq![e] + rest;
                assert forall|i: int| 0 <= i < p.len() - 1 implies edges[#[trigger] p[i] as int].to_node
                    == edges[p[i + 1] as int].from_node by {
                    if i > 0 {
                        assert(p[i] == rest[i - 1]);
                        assert(p[i + 1] == rest[i]);
                    }
                }
                assert forall|i: int| 0 <= i < p.len() implies #[trigger] p[i] < edges.len() by {
                    if i > 0 {
                        assert(p[i] == rest[i - 1]);
                    }
                }
                if rest.len() > 0 {
                    assert(p.last() == rest.last());
                }
            },
            None => {},
        }
    }
}

/// Identifier of the school destination: `school_` and its node index.
pub fn school_id(dest_node: usize) -> (s: String)
    ensures
        s@ == "school_"@ + spec_decimal(dest_node as nat),
{
    prefixed_number("school_", dest_node)
}

} // verus!
