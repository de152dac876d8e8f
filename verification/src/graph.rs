//! The topology of the street graph: which OSM nodes become graph nodes, which
//! consecutive node pairs of a way become street segments, and the directed
//! edges (one per direction a cyclist may ride) laid over the segments.
use vstd::prelude::*;
use std::collections::{HashMap, HashSet};
use crate::cost::{classify_tags, spec_highway, spec_is_one_way};
use crate::osm::{spec_tag, tag_value, OsmWay};
use crate::text::str_eq;

verus! {

broadcast use vstd::std_specs::hash::group_hash_axioms;

/// The graph nodes: the OSM id of each node, by index, and the index of each OSM id.
pub struct GraphNodes {
    pub osm_ids: Vec<i64>,
    pub index_of: HashMap<i64, usize>,
}

/// A street segment: two consecutive nodes of a way, by graph node index.
#[derive(Debug, Clone, Copy, PartialEq, Eq, Structural)]
pub struct Segment {
    /// Index of the way in the way list.
    pub way: usize,
    pub from_node: usize,
    pub to_node: usize,
}

/// A directed edge of the graph, laid over a segment.
#[derive(Debug, Clone, Copy, PartialEq, Eq, Structural)]
pub struct EdgeLink {
    /// Position of the edge in the edge list.
    pub id: usize,
    /// Index of the segment the edge runs along.
    pub segment: usize,
    pub from_node: usize,
    pub to_node: usize,
}

/// A way takes part in routing unless its `highway` tag is absent or empty,
/// or marks a street under construction, a proposed street, a corridor or steps.
pub open spec fn spec_is_routable(tags: Seq<(String, String)>) -> bool {
    let hw = spec_highway(tags);
    !(hw.len() == 0 || hw == "construction"@ || hw == "proposed"@ || hw == "corridor"@ || hw
        == "steps"@)
}

/// A way takes part in routing exactly when it has a non-empty `highway` tag
/// other than `construction`, `proposed`, `corridor` and `steps`; in
/// particular every cycleway, path, footway, residential street or motorway
/// is routable.
pub proof fn lemma_routable_highways(tags: Seq<(String, String)>)
    ensures
        spec_is_routable(tags) <==> match spec_tag(tags, "highway"@) {
            Some(h) => h.len() > 0 && h != "construction"@ && h != "proposed"@ && h != "corridor"@
                && h != "steps"@,
            None => false,
        },
        spec_tag(tags, "highway"@) == Some("cycleway"@) ==> spec_is_routable(tags),
        spec_tag(tags, "highway"@) == Some("path"@) ==> spec_is_routable(tags),
        spec_tag(tags, "highway"@) == Some("footway"@) ==> spec_is_routable(tags),
        spec_tag(tags, "highway"@) == Some("residential"@) ==> spec_is_routable(tags),
        spec_tag(tags, "highway"@) == Some("motorway"@) ==> spec_is_routable(tags),
{
    broadcast use vstd::string::group_string_axioms;

    reveal_strlit("construction");
    reveal_strlit("proposed");
    reveal_strlit("corridor");
    reveal_strlit("steps");
    reveal_strlit("cycleway");
    reveal_strlit("path");
    reveal_strlit("footway");
    reveal_strlit("residential");
    reveal_strlit("motorway");
    assert("cycleway"@[0] != "proposed"@[0]);
    assert("cycleway"@[1] != "corridor"@[1]);
    assert("motorway"@[0] != "proposed"@[0]);
    assert("motorway"@[0] != "corridor"@[0]);
    assert("cycleway"@.len() != "construction"@.len() && "cycleway"@.len() != "steps"@.len());
    assert("motorway"@.len() != "construction"@.len() && "motorway"@.len() != "steps"@.len());
    assert("path"@.len() != "construction"@.len() && "path"@.len() != "steps"@.len()
        && "path"@.len() != "proposed"@.len() && "path"@.len() != "corridor"@.len());
    assert("footway"@.len() != "construction"@.len() && "footway"@.len() != "steps"@.len()
        && "footway"@.len() != "proposed"@.len() && "footway"@.len() != "corridor"@.len());
    assert("residential"@.len() != "construction"@.len() && "residential"@.len() != "steps"@.len()
        && "residential"@.len() != "proposed"@.len() && "residential"@.len() != "corridor"@.len());
    assert("cycleway"@.len() > 0 && "path"@.len() > 0 && "footway"@.len() > 0
        && "residential"@.len() > 0 && "motorway"@.len() > 0);
}

/// The routable ways among the first `k` are exactly those whose index is listed.
pub proof fn lemma_routable_prefix_members(ways: Seq<OsmWay>, k: int, w: int)
    requires
        0 <= k <= ways.len(),
        ways.len() <= usize::MAX,
    ensures
        routable_prefix(ways, k).contains(w as usize) && 0 <= w <= usize::MAX <==> (0 <= w < k
            && spec_is_routable(ways[w].tags@)),
    decreases k,
{
    if k > 0 {
        lemma_routable_prefix_members(ways, k - 1, w);
        lemma_routable_prefix_bounds(ways, k - 1);
        let prev = routable_prefix(ways, k - 1);
        let cur = routable_prefix(ways, k);
        if spec_is_routable(ways[k - 1].tags@) {
            assert(cur == prev.push((k - 1) as usize));
            if prev.contains(w as usize) && 0 <= w <= usize::MAX {
                let i = choose|i: int| 0 <= i < prev.len() && prev[i] == w as usize;
                assert(cur[i] == w as usize);
            }
            if cur.contains(w as usize) && 0 <= w <= usize::MAX && w != k - 1 {
                let i = choose|i: int| 0 <= i < cur.len() && cur[i] == w as usize;
                assert(i < prev.len());
                assert(prev[i] == w as usize);
            }
            if w == k - 1 {
                assert(cur[prev.len() as int] == w as usize);
            }
        } else {
            if cur.contains(w as usize) && 0 <= w <= usize::MAX && w == k - 1 {
                let i = choose|i: int| 0 <= i < prev.len() && prev[i] == w as usize;
                assert(prev[i] < k - 1);
            }
        }
    }
}

/// Indices, in order, of the routable ways among the first `k` ways.
pub open spec fn routable_prefix(ways: Seq<OsmWay>, k: int) -> Seq<usize>
    decreases k,
{
    if k <= 0 {
        seq![]
    } else if spec_is_routable(ways[k - 1].tags@) {
        routable_prefix(ways, k - 1).push((k - 1) as usize)
    } else {
        routable_prefix(ways, k - 1)
    }
}

/// Whether the way's `highway` tag makes it part of the routable network.
pub fn is_routable_way(tags: &Vec<(String, String)>) -> (r: bool)
    ensures
        r == spec_is_routable(tags@),
        r <==> match spec_tag(tags@, "highway"@) {
            Some(h) => h.len() > 0 && h != "construction"@ && h != "proposed"@ && h != "corridor"@
                && h != "steps"@,
            None => false,
        },
        spec_tag(tags@, "highway"@) == Some("cycleway"@) ==> r,
{
    proof {
        lemma_routable_highways(tags@);
    }
    match tag_value(tags, "highway") {
        Some(h) => {
            let hw = h.as_str();
            !(hw.unicode_len() == 0 || str_eq(hw, "construction") || str_eq(hw, "proposed")
                || str_eq(hw, "corridor") || str_eq(hw, "steps"))
        },
        None => false,
    }
}

/// Indices of the routable ways, in order.
pub fn routable_ways(ways: &Vec<OsmWay>) -> (r: Vec<usize>)
    ensures
        r@ == routable_prefix(ways@, ways@.len() as int),
        forall|j: int| 0 <= j < r@.len() ==> #[trigger] r@[j] < ways@.len(),
        forall|w: int|
            0 <= w < ways@.len() ==> (r@.contains(w as usize) <==> spec_is_routable(
                #[trigger] ways@[w].tags@,
            )),
        forall|w: int|
            0 <= w < ways@.len() && spec_tag(#[trigger] ways@[w].tags@, "highway"@) == Some(
                "cycleway"@,
            ) ==> r@.contains(w as usize),
{
    let mut r: Vec<usize> = Vec::new();
    let n = ways.len();
    let mut k: usize = 0;
    while k < n
        invariant
            n == ways@.len(),
            k <= n,
            r@ == routable_prefix(ways@, k as int),
        decreases n - k,
    {
        if is_routable_way(&ways[k].tags) {
            r.push(k);
        }
        k = k + 1;
    }
    proof {
        lemma_routable_prefix_bounds(ways@, n as int);
        assert forall|w: int| 0 <= w < ways@.len() implies (r@.contains(w as usize)
            <==> spec_is_routable(#[trigger] ways@[w].tags@)) by {
            lemma_routable_prefix_members(ways@, n as int, w);
        }
        assert forall|w: int|
            0 <= w < ways@.len() && spec_tag(#[trigger] ways@[w].tags@, "highway"@) == Some(
                "cycleway"@,
            ) implies r@.contains(w as usize) by {
            lemma_routable_prefix_members(ways@, n as int, w);
            lemma_routable_highways(ways@[w].tags@);
        }
    }
    r
}

/// Every entry of `routable_prefix` is a valid way index.
pub proof fn lemma_routable_prefix_bounds(ways: Seq<OsmWay>, k: int)
    requires
        0 <= k <= ways.len(),
    ensures
        forall|j: int|
            0 <= j < routable_prefix(ways, k).len() ==> #[trigger] routable_prefix(ways, k)[j] < k,
    decreases k,
{
    if k > 0 {
        lemma_routable_prefix_bounds(ways, k - 1);
        let prev = routable_prefix(ways, k - 1);
        let cur = routable_prefix(ways, k);
        assert forall|j: int| 0 <= j < cur.len() implies #[trigger] cur[j] < k by {
            if j < prev.len() {
                assert(cur[j] == prev[j]);
            }
        }
    }
}

/// `id` is a node of one of the listed ways.
pub open spec fn used_by(ways: Seq<OsmWay>, routable: Seq<usize>, id: i64) -> bool {
    exists|j: int, k: int|
        0 <= j < routable.len() && 0 <= k < ways[routable[j] as int].nodes@.len()
            && #[trigger] ways[routable[j] as int].nodes@[k] == id
}

/// The ids among the first `k` raw node ids that some listed way uses, in order.
pub open spec fn used_prefix(raw: Seq<i64>, ways: Seq<OsmWay>, routable: Seq<usize>, k: int) -> Seq<
    i64,
>
    decreases k,
{
    if k <= 0 {
        seq![]
    } else if used_by(ways, routable, raw[k - 1]) {
        used_prefix(raw, ways, routable, k - 1).push(raw[k - 1])
    } else {
        used_prefix(raw, ways, routable, k - 1)
    }
}

/// The graph nodes are exactly the raw nodes that some listed way runs through.
pub proof fn lemma_used_prefix_members(raw: Seq<i64>, ways: Seq<OsmWay>, routable: Seq<usize>, k: int, id: i64)
    requires
        0 <= k <= raw.len(),
    ensures
        used_prefix(raw, ways, routable, k).contains(id) <==> (exists|r: int|
            0 <= r < k && #[trigger] raw[r] == id) && used_by(ways, routable, id),
    decreases k,
{
    if k > 0 {
        lemma_used_prefix_members(raw, ways, routable, k - 1, id);
        let prev = used_prefix(raw, ways, routable, k - 1);
        let cur = used_prefix(raw, ways, routable, k);
        if used_by(ways, routable, raw[k - 1]) {
            assert(cur == prev.push(raw[k - 1]));
            if prev.contains(id) {
                let i = choose|i: int| 0 <= i < prev.len() && prev[i] == id;
                assert(cur[i] == id);
            }
            if cur.contains(id) && id != raw[k - 1] {
                let i = choose|i: int| 0 <= i < cur.len() && cur[i] == id;
                assert(prev[i] == id);
            }
            if id == raw[k - 1] {
                assert(cur[prev.len() as int] == id);
            }
        }
        if (exists|r: int| 0 <= r < k && #[trigger] raw[r] == id) && used_by(ways, routable, id) {
            let r = choose|r: int| 0 <= r < k && #[trigger] raw[r] == id;
            if r < k - 1 {
                assert(raw[r] == id);
            }
        }
    }
}

/// The pair of nodes `i`, `i + 1` of a way are both graph nodes.
pub open spec fn pair_joined(nodes: Seq<i64>, index_of: Map<i64, usize>, i: int) -> bool {
    index_of.contains_key(nodes[i]) && index_of.contains_key(nodes[i + 1])
}

/// The segment between nodes `i` and `i + 1` of way `w`.
pub open spec fn pair_segment(nodes: Seq<i64>, w: usize, index_of: Map<i64, usize>, i: int) -> Segment {
    Segment { way: w, from_node: index_of[nodes[i]], to_node: index_of[nodes[i + 1]] }
}

/// Every consecutive pair of graph nodes along a way gives a segment of that
/// way, and the way's segments all belong to it.
pub proof fn lemma_pair_segments_exact(nodes: Seq<i64>, w: usize, index_of: Map<i64, usize>, k: int)
    requires
        0 <= k < nodes.len(),
    ensures
        forall|j: int|
            0 <= j < pair_segments(nodes, w, index_of, k).len() ==> (#[trigger] pair_segments(
                nodes,
                w,
                index_of,
                k,
            )[j]).way == w,
        forall|i: int|
            0 <= i < k && #[trigger] pair_joined(nodes, index_of, i) ==> pair_segments(
                nodes,
                w,
                index_of,
                k,
            ).contains(pair_segment(nodes, w, index_of, i)),
    decreases k,
{
    if k > 0 {
        lemma_pair_segments_exact(nodes, w, index_of, k - 1);
        let prev = pair_segments(nodes, w, index_of, k - 1);
        let cur = pair_segments(nodes, w, index_of, k);
        assert forall|j: int| 0 <= j < cur.len() implies (#[trigger] cur[j]).way == w by {
            if j < prev.len() {
                assert(cur[j] == prev[j]);
            }
        }
        assert forall|i: int|
            0 <= i < k && #[trigger] pair_joined(nodes, index_of, i) implies cur.contains(
            pair_segment(nodes, w, index_of, i),
        ) by {
            let sg = pair_segment(nodes, w, index_of, i);
            if i < k - 1 {
                let j = choose|j: int| 0 <= j < prev.len() && prev[j] == sg;
                assert(cur[j] == sg);
            } else {
                assert(cur[prev.len() as int] == sg);
            }
        }
    }
}

/// `index_of` numbers the ids of `osm_ids` by position, and nothing else.
pub open spec fn numbers_nodes(osm_ids: Seq<i64>, index_of: Map<i64, usize>) -> bool {
    &&& forall|i: int|
        0 <= i < osm_ids.len() ==> #[trigger] index_of.contains_key(osm_ids[i])
            && index_of[osm_ids[i]] == i
    &&& forall|id: i64|
        #[trigger] index_of.contains_key(id) ==> index_of[id] < osm_ids.len() && osm_ids[index_of[id] as int] == id
}

/// Ids of every node of the listed ways.
fn collect_used(ways: &Vec<OsmWay>, routable: &Vec<usize>) -> (used: HashSet<i64>)
    requires
        forall|j: int| 0 <= j < routable@.len() ==> #[trigger] routable@[j] < ways@.len(),
    ensures
        forall|id: i64| #[trigger] used@.contains(id) <==> used_by(ways@, routable@, id),
{
    let mut used: HashSet<i64> = HashSet::new();
    let nr = routable.len();
    let mut j: usize = 0;
    while j < nr
        invariant
            nr == routable@.len(),
            j <= nr,
            forall|jj: int| 0 <= jj < routable@.len() ==> #[trigger] routable@[jj] < ways@.len(),
            forall|id: i64|
                #[trigger] used@.contains(id) <==> exists|a: int, k: int|
                    0 <= a < j && 0 <= k < ways@[routable@[a] as int].nodes@.len()
                        && #[trigger] ways@[routable@[a] as int].nodes@[k] == id,
        decreases nr - j,
    {
        let w = routable[j];
        let nodes = &ways[w].nodes;
        let nn = nodes.len();
        let mut k: usize = 0;
        while k < nn
            invariant
                nr == routable@.len(),
                j < nr,
                w == routable@[j as int],
                w < ways@.len(),
                nodes@ == ways@[w as int].nodes@,
                nn == nodes@.len(),
                k <= nn,
                forall|id: i64|
                    #[trigger] used@.contains(id) <==> (exists|a: int, kk: int|
                        0 <= a < j && 0 <= kk < ways@[routable@[a] as int].nodes@.len()
                            && #[trigger] ways@[routable@[a] as int].nodes@[kk] == id) || (exists|
                        kk: int,
                    | 0 <= kk < k && #[trigger] nodes@[kk] == id),
            decreases nn - k,
        {
            used.insert(nodes[k]);
            proof {
                assert forall|id: i64| #[trigger] used@.contains(id) <==> (exists|a: int, kk: int|
                    0 <= a < j && 0 <= kk < ways@[routable@[a] as int].nodes@.len()
                        && #[trigger] ways@[routable@[a] as int].nodes@[kk] == id) || (exists|
                    kk: int,
                | 0 <= kk < k + 1 && #[trigger] nodes@[kk] == id) by {
                    if id == nodes@[k as int] {
                    }
                }
            }
            k = k + 1;
        }
        proof {
            assert forall|id: i64| #[trigger] used@.contains(id) <==> exists|a: int, kk: int|
                0 <= a < j + 1 && 0 <= kk < ways@[routable@[a] as int].nodes@.len()
                    && #[trigger] ways@[routable@[a] as int].nodes@[kk] == id by {
                if used@.contains(id) {
                    if exists|kk: int| 0 <= kk < nn && #[trigger] nodes@[kk] == id {
                        let kk = choose|kk: int| 0 <= kk < nn && #[trigger] nodes@[kk] == id;
                        assert(ways@[routable@[j as int] as int].nodes@[kk] == id);
                    }
                }
                if exists|a: int, kk: int|
                    0 <= a < j + 1 && 0 <= kk < ways@[routable@[a] as int].nodes@.len()
                        && #[trigger] ways@[routable@[a] as int].nodes@[kk] == id {
                    let (a, kk) = choose|a: int, kk: int|
                        0 <= a < j + 1 && 0 <= kk < ways@[routable@[a] as int].nodes@.len()
                            && #[trigger] ways@[routable@[a] as int].nodes@[kk] == id;
                    if a == j {
                        assert(nodes@[kk] == id);
                    }
                }
            }
        }
        j = j + 1;
    }
    used
}

/// Picks the graph nodes: the raw OSM nodes, in the given order, that some
/// routable way runs through, numbered by position.
pub fn select_graph_nodes(raw_ids: &Vec<i64>, ways: &Vec<OsmWay>, routable: &Vec<usize>) -> (g:
    GraphNodes)
    requires
        raw_ids@.no_duplicates(),
        forall|j: int| 0 <= j < routable@.len() ==> #[trigger] routable@[j] < ways@.len(),
    ensures
        g.osm_ids@ == used_prefix(raw_ids@, ways@, routable@, raw_ids@.len() as int),
        numbers_nodes(g.osm_ids@, g.index_of@),
{
    let used = collect_used(ways, routable);
    let mut osm_ids: Vec<i64> = Vec::new();
    let mut index_of: HashMap<i64, usize> = HashMap::new();
    let n = raw_ids.len();
    let mut k: usize = 0;
    while k < n
        invariant
            n == raw_ids@.len(),
            k <= n,
            raw_ids@.no_duplicates(),
            forall|id: i64| #[trigger] used@.contains(id) <==> used_by(ways@, routable@, id),
            osm_ids@ == used_prefix(raw_ids@, ways@, routable@, k as int),
            numbers_nodes(osm_ids@, index_of@),
            forall|i: int| 0 <= i < osm_ids@.len() ==> exists|r: int| 0 <= r < k && #[trigger] osm_ids@[i] == raw_ids@[r],
        decreases n - k,
    {
        let id = raw_ids[k];
        if used.contains(&id) {
            let idx = osm_ids.len();
            proof {
                assert(!index_of@.contains_key(id)) by {
                    if index_of@.contains_key(id) {
                        let i = index_of@[id] as int;
                        assert(osm_ids@[i] == id);
                        let r = choose|r: int| 0 <= r < k && #[trigger] osm_ids@[i] == raw_ids@[r];
                        assert(raw_ids@[r] == raw_ids@[k as int]);
                    }
                }
            }
            osm_ids.push(id);
            index_of.insert(id, idx);
            proof {
                assert forall|i: int| 0 <= i < osm_ids@.len() implies exists|r: int| 0 <= r < k + 1 && #[trigger] osm_ids@[i] == raw_ids@[r] by {
                    if i == idx {
                        assert(osm_ids@[i] == raw_ids@[k as int]);
                    } else {
                        let r = choose|r: int| 0 <= r < k && #[trigger] osm_ids@[i] == raw_ids@[r];
                        assert(osm_ids@[i] == raw_ids@[r]);
                    }
                }
            }
        }
        k = k + 1;
    }
    GraphNodes { osm_ids, index_of }
}

/// Segments over the consecutive node pairs `(nodes[i-1], nodes[i])`, `i < k`,
/// whose two nodes are both graph nodes.
pub open spec fn pair_segments(nodes: Seq<i64>, w: usize, index_of: Map<i64, usize>, k: int) -> Seq<
    Segment,
>
    decreases k,
{
    if k <= 0 {
        seq![]
    } else {
        let prev = pair_segments(nodes, w, index_of, k - 1);
        let a = nodes[k - 1];
        let b = nodes[k];
        if index_of.contains_key(a) && index_of.contains_key(b) {
            prev.push(Segment { way: w, from_node: index_of[a], to_node: index_of[b] })
        } else {
            prev
        }
    }
}

/// Number of consecutive node pairs in a way of `n` nodes.
pub open spec fn pair_count(n: int) -> int {
    if n >= 2 {
        n - 1
    } else {
        0
    }
}

/// Segments of the first `j` listed ways, way after way.
pub open spec fn segments_prefix(
    ways: Seq<OsmWay>,
    routable: Seq<usize>,
    index_of: Map<i64, usize>,
    j: int,
) -> Seq<Segment>
    decreases j,
{
    if j <= 0 {
        seq![]
    } else {
        let w = routable[j - 1];
        let nodes = ways[w as int].nodes@;
        segments_prefix(ways, routable, index_of, j - 1) + pair_segments(
            nodes,
            w,
            index_of,
            pair_count(nodes.len() as int),
        )
    }
}

/// A segment lies on a listed way and joins two graph nodes.
pub open spec fn segment_ok(s: Segment, n_ways: int, n_nodes: int) -> bool {
    s.way < n_ways && s.from_node < n_nodes && s.to_node < n_nodes
}

/// The street segments: for each listed way in turn, each pair of consecutive
/// nodes that are both graph nodes.
pub fn way_segments(ways: &Vec<OsmWay>, routable: &Vec<usize>, g: &GraphNodes) -> (r: Vec<Segment>)
    requires
        forall|j: int| 0 <= j < routable@.len() ==> #[trigger] routable@[j] < ways@.len(),
        numbers_nodes(g.osm_ids@, g.index_of@),
    ensures
        r@ == segments_prefix(ways@, routable@, g.index_of@, routable@.len() as int),
        forall|i: int|
            0 <= i < r@.len() ==> segment_ok(#[trigger] r@[i], ways@.len() as int, g.osm_ids@.len() as int),
{
    let mut r: Vec<Segment> = Vec::new();
    let ghost n_ways = ways@.len() as int;
    let ghost n_nodes = g.osm_ids@.len() as int;
    let nr = routable.len();
    let mut j: usize = 0;
    while j < nr
        invariant
            nr == routable@.len(),
            j <= nr,
            n_ways == ways@.len(),
            n_nodes == g.osm_ids@.len(),
            forall|jj: int| 0 <= jj < routable@.len() ==> #[trigger] routable@[jj] < ways@.len(),
            numbers_nodes(g.osm_ids@, g.index_of@),
            r@ == segments_prefix(ways@, routable@, g.index_of@, j as int),
            forall|i: int| 0 <= i < r@.len() ==> segment_ok(#[trigger] r@[i], n_ways, n_nodes),
        decreases nr - j,
    {
        let w = routable[j];
        let nodes = &ways[w].nodes;
        let nn = nodes.len();
        let ghost base = r@;
        if nn >= 2 {
            let mut k: usize = 1;
            while k < nn
                invariant
                    nr == routable@.len(),
                    j < nr,
                    w == routable@[j as int],
                    w < n_ways,
                    n_ways == ways@.len(),
                    n_nodes == g.osm_ids@.len(),
                    nodes@ == ways@[w as int].nodes@,
                    nn == nodes@.len(),
                    1 <= k <= nn,
                    numbers_nodes(g.osm_ids@, g.index_of@),
                    r@ == base + pair_segments(nodes@, w, g.index_of@, k - 1),
                    forall|i: int| 0 <= i < r@.len() ==> segment_ok(#[trigger] r@[i], n_ways, n_nodes),
                decreases nn - k,
            {
                let a = nodes[k - 1];
                let b = nodes[k];
                let ia = g.index_of.get(&a);
                let ib = g.index_of.get(&b);
                match (ia, ib) {
                    (Some(x), Some(y)) => {
                        let seg = Segment { way: w, from_node: *x, to_node: *y };
                        proof {
                            assert(g.index_of@.contains_key(a));
                            assert(g.index_of@.contains_key(b));
                        }
                        r.push(seg);
                        assert(r@ =~= base + pair_segments(nodes@, w, g.index_of@, k as int));
                    },
                    _ => {
                        assert(r@ =~= base + pair_segments(nodes@, w, g.index_of@, k as int));
                    },
                }
                k = k + 1;
            }
        } else {
            assert(r@ =~= base + pair_segments(nodes@, w, g.index_of@, 0));
        }
        assert(r@ =~= segments_prefix(ways@, routable@, g.index_of@, j + 1));
        j = j + 1;
    }
    r
}

/// The directed edges over the first `k` segments: none for a segment that is
/// not kept; otherwise the edge in the way's direction and, unless the way is
/// one-way for bicycles, the reverse edge right after it.
pub open spec fn spec_edge_links(ways: Seq<OsmWay>, segs: Seq<Segment>, keep: Seq<bool>, k: int) -> Seq<
    EdgeLink,
>
    decreases k,
{
    if k <= 0 {
        seq![]
    } else {
        let prev = spec_edge_links(ways, segs, keep, k - 1);
        let s = segs[k - 1];
        if !keep[k - 1] {
            prev
        } else {
            let fwd = EdgeLink {
                id: prev.len() as usize,
                segment: (k - 1) as usize,
                from_node: s.from_node,
                to_node: s.to_node,
            };
            if spec_is_one_way(ways[s.way as int].tags@) {
                prev.push(fwd)
            } else {
                prev.push(fwd).push(
                    EdgeLink {
                        id: (prev.len() + 1) as usize,
                        segment: (k - 1) as usize,
                        from_node: s.to_node,
                        to_node: s.from_node,
                    },
                )
            }
        }
    }
}

/// Edges are numbered by position, lie on one of `n_segs` segments and join
/// two of `n_nodes` graph nodes.
pub open spec fn edges_ok(edges: Seq<EdgeLink>, n_segs: int, n_nodes: int) -> bool {
    forall|i: int|
        0 <= i < edges.len() ==> {
            &&& #[trigger] edges[i].id == i
            &&& edges[i].segment < n_segs
            &&& edges[i].from_node < n_nodes
            &&& edges[i].to_node < n_nodes
        }
}

/// Lays directed edges over the kept segments (`keep[i]` says whether segment
/// `i` is long enough to be a street).
#[verifier::rlimit(40)]
pub fn build_edges(ways: &Vec<OsmWay>, segs: &Vec<Segment>, keep: &Vec<bool>, n_nodes: usize) -> (edges:
    Vec<EdgeLink>)
    requires
        keep@.len() == segs@.len(),
        forall|i: int|
            0 <= i < segs@.len() ==> segment_ok(#[trigger] segs@[i], ways@.len() as int, n_nodes as int),
    ensures
        edges@ == spec_edge_links(ways@, segs@, keep@, segs@.len() as int),
        edges_ok(edges@, segs@.len() as int, n_nodes as int),
{
    let mut edges: Vec<EdgeLink> = Vec::new();
    let n = segs.len();
    let mut k: usize = 0;
    while k < n
        invariant
            n == segs@.len(),
            keep@.len() == n,
            k <= n,
            forall|i: int|
                0 <= i < segs@.len() ==> segment_ok(#[trigger] segs@[i], ways@.len() as int, n_nodes as int),
            edges@ == spec_edge_links(ways@, segs@, keep@, k as int),
            edges_ok(edges@, n as int, n_nodes as int),
        decreases n - k,
    {
        if keep[k] {
            let s = segs[k];
            assert(segment_ok(segs@[k as int], ways@.len() as int, n_nodes as int));
            let one_way = classify_tags(&ways[s.way].tags).is_one_way;
            let id = edges.len();
            edges.push(EdgeLink { id, segment: k, from_node: s.from_node, to_node: s.to_node });
            if !one_way {
                let id2 = edges.len();
                edges.push(EdgeLink { id: id2, segment: k, from_node: s.to_node, to_node: s.from_node });
            }
        }
        k = k + 1;
    }
    edges
}

/// Edge `e` runs along segment `s`, in the way's direction or, on a way that
/// is not one-way for bicycles, against it.
pub open spec fn runs_along(ways: Seq<OsmWay>, e: EdgeLink, s: Segment) -> bool {
    (e.from_node == s.from_node && e.to_node == s.to_node) || (!spec_is_one_way(
        ways[s.way as int].tags@,
    ) && e.from_node == s.to_node && e.to_node == s.from_node)
}

/// Every edge lies along a kept segment, in a direction that bicycles may ride.
pub proof fn lemma_edges_follow_segments(ways: Seq<OsmWay>, segs: Seq<Segment>, keep: Seq<bool>, k: int)
    requires
        0 <= k <= segs.len(),
        segs.len() <= usize::MAX,
        keep.len() == segs.len(),
    ensures
        forall|i: int|
            0 <= i < spec_edge_links(ways, segs, keep, k).len() ==> {
                let e = #[trigger] spec_edge_links(ways, segs, keep, k)[i];
                &&& e.segment < k
                &&& keep[e.segment as int]
                &&& runs_along(ways, e, segs[e.segment as int])
            },
    decreases k,
{
    if k > 0 {
        lemma_edges_follow_segments(ways, segs, keep, k - 1);
        let prev = spec_edge_links(ways, segs, keep, k - 1);
        let cur = spec_edge_links(ways, segs, keep, k);
        assert forall|i: int| 0 <= i < cur.len() implies {
            let e = #[trigger] cur[i];
            &&& e.segment < k
            &&& keep[e.segment as int]
            &&& runs_along(ways, e, segs[e.segment as int])
        } by {
            if i < prev.len() {
                assert(cur[i] == prev[i]);
            }
        }
    }
}

/// Every kept segment carries an edge in the way's direction, and also one
/// against it exactly when its way is not one-way for bicycles.
pub proof fn lemma_segments_carry_edges(
    ways: Seq<OsmWay>,
    segs: Seq<Segment>,
    keep: Seq<bool>,
    k: int,
    s: int,
)
    requires
        0 <= s < k <= segs.len(),
        segs.len() <= usize::MAX,
        keep.len() == segs.len(),
        keep[s],
    ensures
        ({
            let edges = spec_edge_links(ways, segs, keep, k);
            let seg = segs[s];
            &&& exists|i: int|
                0 <= i < edges.len() && (#[trigger] edges[i]).segment == s && edges[i].from_node
                    == seg.from_node && edges[i].to_node == seg.to_node
            &&& !spec_is_one_way(ways[seg.way as int].tags@) ==> exists|i: int|
                0 <= i < edges.len() && (#[trigger] edges[i]).segment == s && edges[i].from_node
                    == seg.to_node && edges[i].to_node == seg.from_node
            &&& spec_is_one_way(ways[seg.way as int].tags@) ==> forall|i: int|
                0 <= i < edges.len() && (#[trigger] edges[i]).segment == s ==> edges[i].from_node
                    == seg.from_node && edges[i].to_node == seg.to_node
        }),
    decreases k,
{
    let edges = spec_edge_links(ways, segs, keep, k);
    let seg = segs[s];
    let prev = spec_edge_links(ways, segs, keep, k - 1);
    lemma_edges_follow_segments(ways, segs, keep, k - 1);
    if s < k - 1 {
        lemma_segments_carry_edges(ways, segs, keep, k - 1, s);
        let i = choose|i: int|
            0 <= i < prev.len() && (#[trigger] prev[i]).segment == s && prev[i].from_node
                == seg.from_node && prev[i].to_node == seg.to_node;
        assert(edges[i] == prev[i]);
        if !spec_is_one_way(ways[seg.way as int].tags@) {
            let j = choose|j: int|
                0 <= j < prev.len() && (#[trigger] prev[j]).segment == s && prev[j].from_node
                    == seg.to_node && prev[j].to_node == seg.from_node;
            assert(edges[j] == prev[j]);
        }
        assert forall|i: int|
            0 <= i < edges.len() && (#[trigger] edges[i]).segment == s implies i < prev.len()
            && edges[i] == prev[i] by {
            if i >= prev.len() {
                assert(edges[i].segment == k - 1);
            }
        }
    } else {
        assert(edges[prev.len() as int].segment == s);
        if !spec_is_one_way(ways[seg.way as int].tags@) {
            assert(edges[prev.len() as int + 1].segment == s);
        } else {
            assert forall|i: int|
                0 <= i < edges.len() && (#[trigger] edges[i]).segment == s implies edges[i].from_node
                == seg.from_node && edges[i].to_node == seg.to_node by {
                if i < prev.len() {
                    assert(edges[i] == prev[i]);
                }
            }
        }
    }
}

/// The node an edge leaves (`at_tail`) or reaches.
pub open spec fn end_of(e: EdgeLink, at_tail: bool) -> usize {
    if at_tail {
        e.from_node
    } else {
        e.to_node
    }
}

/// Ids, in order, of the edges among the first `k` that leave (`at_tail`) or reach `node`.
pub open spec fn edges_ending(edges: Seq<EdgeLink>, node: int, at_tail: bool, k: int) -> Seq<usize>
    decreases k,
{
    if k <= 0 {
        seq![]
    } else {
        let prev = edges_ending(edges, node, at_tail, k - 1);
        if end_of(edges[k - 1], at_tail) == node {
            prev.push(edges[k - 1].id)
        } else {
            prev
        }
    }
}

/// For each node, the ids of the edges that leave it (`at_tail`) or reach it, in edge order.
pub fn edges_by_end(n_nodes: usize, edges: &Vec<EdgeLink>, at_tail: bool) -> (r: Vec<Vec<usize>>)
    requires
        forall|i: int| 0 <= i < edges@.len() ==> end_of(#[trigger] edges@[i], at_tail) < n_nodes,
    ensures
        r@.len() == n_nodes,
        forall|v: int|
            0 <= v < n_nodes ==> (#[trigger] r@[v])@ == edges_ending(edges@, v, at_tail, edges@.len() as int),
{
    let mut r: Vec<Vec<usize>> = Vec::new();
    let mut v: usize = 0;
    while v < n_nodes
        invariant
            v <= n_nodes,
            r@.len() == v,
            forall|u: int| 0 <= u < v ==> (#[trigger] r@[u])@ == Seq::<usize>::empty(),
        decreases n_nodes - v,
    {
        r.push(Vec::new());
        v = v + 1;
    }
    let n = edges.len();
    let mut k: usize = 0;
    while k < n
        invariant
            n == edges@.len(),
            k <= n,
            r@.len() == n_nodes,
            forall|i: int| 0 <= i < edges@.len() ==> end_of(#[trigger] edges@[i], at_tail) < n_nodes,
            forall|u: int|
                0 <= u < n_nodes ==> (#[trigger] r@[u])@ == edges_ending(edges@, u, at_tail, k as int),
        decreases n - k,
    {
        let e = edges[k];
        let end = if at_tail {
            e.from_node
        } else {
            e.to_node
        };
        assert(end_of(edges@[k as int], at_tail) < n_nodes);
        let ghost before = r@;
        r[end].push(e.id);
        proof {
            assert forall|u: int| 0 <= u < n_nodes implies (#[trigger] r@[u])@ == edges_ending(
                edges@,
                u,
                at_tail,
                k + 1,
            ) by {
                if u != end {
                    assert(r@[u] == before[u]);
                }
            }
        }
        k = k + 1;
    }
    r
}

/// For each node, the ids of the edges that leave it, in edge order.
pub fn outgoing_edges(n_nodes: usize, edges: &Vec<EdgeLink>) -> (r: Vec<Vec<usize>>)
    requires
        forall|i: int| 0 <= i < edges@.len() ==> (#[trigger] edges@[i]).from_node < n_nodes,
    ensures
        r@.len() == n_nodes,
        forall|v: int|
            0 <= v < n_nodes ==> (#[trigger] r@[v])@ == edges_ending(edges@, v, true, edges@.len() as int),
{
    assert forall|i: int| 0 <= i < edges@.len() implies end_of(#[trigger] edges@[i], true) < n_nodes by {
        assert(edges@[i].from_node < n_nodes);
    }
    edges_by_end(n_nodes, edges, true)
}

/// An edge id is listed for a node exactly when the edge leaves (`at_tail`) or
/// reaches that node.
pub proof fn lemma_edges_ending_exact(edges: Seq<EdgeLink>, node: int, at_tail: bool, k: int, e: usize)
    requires
        0 <= k <= edges.len(),
        forall|i: int| 0 <= i < edges.len() ==> (#[trigger] edges[i]).id == i,
    ensures
        edges_ending(edges, node, at_tail, k).contains(e) <==> (e < k && end_of(
            edges[e as int],
            at_tail,
        ) == node),
    decreases k,
{
    if k > 0 {
        lemma_edges_ending_exact(edges, node, at_tail, k - 1, e);
        let prev = edges_ending(edges, node, at_tail, k - 1);
        let cur = edges_ending(edges, node, at_tail, k);
        assert(edges[k - 1].id == k - 1);
        if end_of(edges[k - 1], at_tail) == node {
            assert(cur == prev.push(edges[k - 1].id));
            if prev.contains(e) {
                let i = choose|i: int| 0 <= i < prev.len() && prev[i] == e;
                assert(cur[i] == e);
            }
            if cur.contains(e) && e != k - 1 {
                let i = choose|i: int| 0 <= i < cur.len() && cur[i] == e;
                assert(prev[i] == e);
            }
            if e == k - 1 {
                assert(cur[prev.len() as int] == e);
            }
        }
    }
}

/// The street segments of an OSM extract, before their lengths are known.
pub struct SegmentPlan {
    /// Indices of the routable ways.
    pub routable: Vec<usize>,
    pub nodes: GraphNodes,
    pub segments: Vec<Segment>,
}

/// Finds the routable ways, the graph nodes among `raw_ids` (in that order)
/// and the segments between consecutive graph nodes of the routable ways.
pub fn plan_segments(raw_ids: &Vec<i64>, ways: &Vec<OsmWay>) -> (p: SegmentPlan)
    requires
        raw_ids@.no_duplicates(),
    ensures
        p.routable@ == routable_prefix(ways@, ways@.len() as int),
        forall|w: int|
            0 <= w < ways@.len() ==> (p.routable@.contains(w as usize) <==> spec_is_routable(
                #[trigger] ways@[w].tags@,
            )),
        p.nodes.osm_ids@ == used_prefix(raw_ids@, ways@, p.routable@, raw_ids@.len() as int),
        numbers_nodes(p.nodes.osm_ids@, p.nodes.index_of@),
        p.segments@ == segments_prefix(ways@, p.routable@, p.nodes.index_of@, p.routable@.len() as int),
        forall|i: int|
            0 <= i < p.segments@.len() ==> segment_ok(
                #[trigger] p.segments@[i],
                ways@.len() as int,
                p.nodes.osm_ids@.len() as int,
            ),
{
    let routable = routable_ways(ways);
    let nodes = select_graph_nodes(raw_ids, ways, &routable);
    let segments = way_segments(ways, &routable, &nodes);
    SegmentPlan { routable, nodes, segments }
}

/// Directed edges of the graph and, for each node, the edges leaving it.
pub struct EdgeTable {
    pub edges: Vec<EdgeLink>,
    pub outgoing: Vec<Vec<usize>>,
}

/// Lays the directed edges over the kept segments of a plan (`keep[i]` says
/// whether segment `i` is long enough to be a street) and lists each node's
/// outgoing edges.
pub fn link_segments(ways: &Vec<OsmWay>, plan: &SegmentPlan, keep: &Vec<bool>) -> (t: EdgeTable)
    requires
        keep@.len() == plan.segments@.len(),
        forall|i: int|
            0 <= i < plan.segments@.len() ==> segment_ok(
                #[trigger] plan.segments@[i],
                ways@.len() as int,
                plan.nodes.osm_ids@.len() as int,
            ),
    ensures
        t.edges@ == spec_edge_links(ways@, plan.segments@, keep@, plan.segments@.len() as int),
        edges_ok(t.edges@, plan.segments@.len() as int, plan.nodes.osm_ids@.len() as int),
        t.outgoing@.len() == plan.nodes.osm_ids@.len(),
        forall|v: int|
            0 <= v < plan.nodes.osm_ids@.len() ==> (#[trigger] t.outgoing@[v])@ == edges_ending(
                t.edges@,
                v,
                true,
                t.edges@.len() as int,
            ),
{
    let n_nodes = plan.nodes.osm_ids.len();
    let edges = build_edges(ways, &plan.segments, keep, n_nodes);
    assert forall|i: int| 0 <= i < edges@.len() implies (#[trigger] edges@[i]).from_node < n_nodes by {
        assert(edges@[i].id == i);
    }
    let outgoing = outgoing_edges(n_nodes, &edges);
    EdgeTable { edges, outgoing }
}

} // verus!
