//! Aggregating individual routes into a route network (as `stplanr::overline`
//! does): which street edges the routes use, and which routes use each edge.
use vstd::prelude::*;

verus! {

/// How a set of routes uses one street edge.
pub struct EdgeUsage {
    pub edge_id: usize,
    /// Number of times the routes traverse the edge.
    pub route_count: usize,
    /// Index of the route behind each traversal, in route order.
    pub routes: Vec<usize>,
}

/// The edge-id lists of the routes, as sequences.
pub open spec fn edge_lists(route_edges: Seq<Vec<usize>>) -> Seq<Seq<usize>> {
    route_edges.map_values(|v: Vec<usize>| v@)
}

/// Every traversal `(route index, edge id)` of the routes, route after route.
pub open spec fn occurrences(re: Seq<Seq<usize>>) -> Seq<(usize, usize)>
    decreases re.len(),
{
    if re.len() == 0 {
        seq![]
    } else {
        occurrences(re.drop_last()) + re.last().map_values(|e: usize| ((re.len() - 1) as usize, e))
    }
}

/// The route behind each traversal of edge `e`, in order.
pub open spec fn routes_using(occ: Seq<(usize, usize)>, e: usize) -> Seq<usize>
    decreases occ.len(),
{
    if occ.len() == 0 {
        seq![]
    } else {
        let rest = routes_using(occ.drop_last(), e);
        if occ.last().1 == e {
            rest.push(occ.last().0)
        } else {
            rest
        }
    }
}

/// The distinct edge ids below `n_edges` that the traversals use, in order of first use.
pub open spec fn first_seen(occ: Seq<(usize, usize)>, n_edges: int) -> Seq<usize>
    decreases occ.len(),
{
    if occ.len() == 0 {
        seq![]
    } else {
        let prev = first_seen(occ.drop_last(), n_edges);
        let e = occ.last().1;
        if e < n_edges && !prev.contains(e) {
            prev.push(e)
        } else {
            prev
        }
    }
}

/// `usage` lists, for the traversals `occ`, each used edge below `n_edges` in
/// order of first use, with the routes behind its traversals.
pub open spec fn usage_matches(usage: Seq<EdgeUsage>, occ: Seq<(usize, usize)>, n_edges: int) -> bool {
    let seen = first_seen(occ, n_edges);
    &&& usage.len() == seen.len()
    &&& forall|i: int|
        0 <= i < usage.len() ==> {
            &&& (#[trigger] usage[i]).edge_id == seen[i]
            &&& usage[i].routes@ == routes_using(occ, usage[i].edge_id)
            &&& usage[i].route_count == usage[i].routes@.len()
        }
}

proof fn lemma_occurrences_take(re: Seq<Seq<usize>>, r: int)
    requires
        0 <= r < re.len(),
    ensures
        occurrences(re.take(r + 1)) == occurrences(re.take(r)) + re[r].map_values(
            |e: usize| (r as usize, e),
        ),
{
    assert(re.take(r + 1).drop_last() =~= re.take(r));
    assert(re.take(r + 1).last() == re[r]);
}

/// Groups the traversals of the routes by edge. Edge ids at or above `n_edges`
/// (not edges of the graph) are left out.
pub fn aggregate_edge_usage(route_edges: &Vec<Vec<usize>>, n_edges: usize) -> (usage: Vec<EdgeUsage>)
    ensures
        usage_matches(usage@, occurrences(edge_lists(route_edges@)), n_edges as int),
{
    let ghost re = edge_lists(route_edges@);
    let mut slot: Vec<Option<usize>> = Vec::new();
    let mut i: usize = 0;
    while i < n_edges
        invariant
            i <= n_edges,
            slot@.len() == i,
            forall|e: int| 0 <= e < i ==> #[trigger] slot@[e] is None,
        decreases n_edges - i,
    {
        slot.push(None);
        i = i + 1;
    }
    let mut usage: Vec<EdgeUsage> = Vec::new();
    let nr = route_edges.len();
    let mut r: usize = 0;
    while r < nr
        invariant
            nr == route_edges@.len(),
            re == edge_lists(route_edges@),
            r <= nr,
            slot@.len() == n_edges,
            usage_matches(usage@, occurrences(re.take(r as int)), n_edges as int),
            forall|e: int|
                0 <= e < n_edges ==> match #[trigger] slot@[e] {
                    Some(k) => k < usage@.len() && usage@[k as int].edge_id == e,
                    None => !first_seen(occurrences(re.take(r as int)), n_edges as int).contains(
                        e as usize,
                    ),
                },
        decreases nr - r,
    {
        let edges_r = &route_edges[r];
        let ne = edges_r.len();
        let ghost base = occurrences(re.take(r as int));
        assert(re[r as int] == edges_r@);
        let mut j: usize = 0;
        while j < ne
            invariant
                nr == route_edges@.len(),
                r < nr,
                re == edge_lists(route_edges@),
                edges_r@ == re[r as int],
                ne == edges_r@.len(),
                j <= ne,
                base == occurrences(re.take(r as int)),
                slot@.len() == n_edges,
                usage_matches(
                    usage@,
                    base + edges_r@.take(j as int).map_values(|e: usize| (r, e)),
                    n_edges as int,
                ),
                forall|e: int|
                    0 <= e < n_edges ==> match #[trigger] slot@[e] {
                        Some(k) => k < usage@.len() && usage@[k as int].edge_id == e,
                        None => !first_seen(
                            base + edges_r@.take(j as int).map_values(|e: usize| (r, e)),
                            n_edges as int,
                        ).contains(e as usize),
                    },
            decreases ne - j,
        {
            let ghost p = base + edges_r@.take(j as int).map_values(|e: usize| (r, e));
            let ghost p2 = base + edges_r@.take(j + 1).map_values(|e: usize| (r, e));
            let e = edges_r[j];
            assert(p2.drop_last() =~= p);
            assert(p2.last() == (r, e));
            let ghost seen = first_seen(p, n_edges as int);
            let ghost seen2 = first_seen(p2, n_edges as int);
            let ghost old_usage = usage@;
            if e < n_edges {
                match slot[e] {
                    Some(k) => {
                        assert(seen.contains(e)) by {
                            assert(old_usage[k as int].edge_id == seen[k as int]);
                        }
                        assert(seen2 == seen);
                        proof {
                            lemma_first_seen_distinct(p, n_edges as int);
                        }
                        assert(routes_using(p2, e) == routes_using(p, e).push(r));
                        usage[k].routes.push(r);
                        let c = usage[k].routes.len();
                        usage[k].route_count = c;
                        proof {
                            assert forall|i: int| 0 <= i < usage@.len() implies {
                                &&& (#[trigger] usage@[i]).edge_id == seen2[i]
                                &&& usage@[i].routes@ == routes_using(p2, usage@[i].edge_id)
                                &&& usage@[i].route_count == usage@[i].routes@.len()
                            } by {
                                if i != k {
                                    assert(usage@[i] == old_usage[i]);
                                    assert(seen[i] != seen[k as int]);
                                } else {
                                    assert(usage@[i].routes@ =~= old_usage[i].routes@.push(r));
                                }
                            }
                        }
                    },
                    None => {
                        assert(!seen.contains(e));
                        assert(seen2 == seen.push(e));
                        let k = usage.len();
                        let mut rs: Vec<usize> = Vec::new();
                        rs.push(r);
                        assert(routes_using(p, e) =~= Seq::<usize>::empty()) by {
                            lemma_unseen_unused(p, n_edges as int, e);
                        }
                        usage.push(EdgeUsage { edge_id: e, route_count: 1, routes: rs });
                        slot.set(e, Some(k));
                        proof {
                            assert forall|i: int| 0 <= i < usage@.len() implies {
                                &&& (#[trigger] usage@[i]).edge_id == seen2[i]
                                &&& usage@[i].routes@ == routes_using(p2, usage@[i].edge_id)
                                &&& usage@[i].route_count == usage@[i].routes@.len()
                            } by {
                                if i != k {
                                    assert(usage@[i] == old_usage[i]);
                                    assert(seen[i] != e);
                                }
                            }
                            assert forall|x: int| 0 <= x < n_edges implies match #[trigger] slot@[x] {
                                Some(kk) => kk < usage@.len() && usage@[kk as int].edge_id == x,
                                None => !seen2.contains(x as usize),
                            } by {
                                if x != e {
                                    if slot@[x] is None {
                                        assert(!seen.contains(x as usize));
                                        if seen2.contains(x as usize) {
                                            let w = choose|w: int| 0 <= w < seen2.len() && seen2[w] == x as usize;
                                            if w < seen.len() {
                                                assert(seen[w] == x);
                                            }
                                        }
                                    }
                                }
                            }
                        }
                    },
                }
            } else {
                assert(seen2 == seen);
                proof {
                    assert forall|i: int| 0 <= i < usage@.len() implies {
                        &&& (#[trigger] usage@[i]).edge_id == seen2[i]
                        &&& usage@[i].routes@ == routes_using(p2, usage@[i].edge_id)
                        &&& usage@[i].route_count == usage@[i].routes@.len()
                    } by {
                        assert(seen[i] < n_edges) by {
                            lemma_first_seen_bounded(p, n_edges as int);
                        }
                    }
                }
            }
            j = j + 1;
        }
        proof {
            assert(edges_r@.take(ne as int) =~= edges_r@);
            lemma_occurrences_take(re, r as int);
        }
        r = r + 1;
    }
    proof {
        assert(re.take(nr as int) =~= re);
    }
    usage
}

/// `first_seen` lists each edge once.
pub proof fn lemma_first_seen_distinct(occ: Seq<(usize, usize)>, n_edges: int)
    ensures
        first_seen(occ, n_edges).no_duplicates(),
    decreases occ.len(),
{
    if occ.len() > 0 {
        lemma_first_seen_distinct(occ.drop_last(), n_edges);
    }
}

/// Every edge below `n_edges` that some traversal uses is listed.
pub proof fn lemma_first_seen_complete(occ: Seq<(usize, usize)>, n_edges: int, k: int)
    requires
        0 <= k < occ.len(),
        occ[k].1 < n_edges,
    ensures
        first_seen(occ, n_edges).contains(occ[k].1),
    decreases occ.len(),
{
    let prev = first_seen(occ.drop_last(), n_edges);
    let cur = first_seen(occ, n_edges);
    if k < occ.len() - 1 {
        assert(occ.drop_last()[k] == occ[k]);
        lemma_first_seen_complete(occ.drop_last(), n_edges, k);
        let w = choose|w: int| 0 <= w < prev.len() && prev[w] == occ[k].1;
        assert(cur[w] == occ[k].1);
    } else if prev.contains(occ[k].1) {
        let w = choose|w: int| 0 <= w < prev.len() && prev[w] == occ[k].1;
        assert(cur[w] == occ[k].1);
    } else {
        assert(cur[prev.len() as int] == occ[k].1);
    }
}

/// Edge ids in `first_seen` are below `n_edges`.
pub proof fn lemma_first_seen_bounded(occ: Seq<(usize, usize)>, n_edges: int)
    ensures
        forall|i: int| 0 <= i < first_seen(occ, n_edges).len() ==> #[trigger] first_seen(occ, n_edges)[i] < n_edges,
    decreases occ.len(),
{
    if occ.len() > 0 {
        lemma_first_seen_bounded(occ.drop_last(), n_edges);
        let prev = first_seen(occ.drop_last(), n_edges);
        let cur = first_seen(occ, n_edges);
        assert forall|i: int| 0 <= i < cur.len() implies #[trigger] cur[i] < n_edges by {
            if i < prev.len() {
                assert(cur[i] == prev[i]);
            }
        }
    }
}

/// An edge below `n_edges` that `first_seen` does not list is not used at all.
pub proof fn lemma_unseen_unused(occ: Seq<(usize, usize)>, n_edges: int, e: usize)
    requires
        e < n_edges,
        !first_seen(occ, n_edges).contains(e),
    ensures
        routes_using(occ, e).len() == 0,
        forall|k: int| 0 <= k < occ.len() ==> (#[trigger] occ[k]).1 != e,
    decreases occ.len(),
{
    if occ.len() > 0 {
        let prev = first_seen(occ.drop_last(), n_edges);
        let cur = first_seen(occ, n_edges);
        if prev.contains(e) {
            let w = choose|w: int| 0 <= w < prev.len() && prev[w] == e;
            assert(cur[w] == e);
        }
        lemma_unseen_unused(occ.drop_last(), n_edges, e);
        if occ.last().1 == e {
            assert(cur[prev.len() as int] == e);
        }
        assert forall|k: int| 0 <= k < occ.len() implies (#[trigger] occ[k]).1 != e by {
            if k < occ.len() - 1 {
                assert(occ[k] == occ.drop_last()[k]);
            }
        }
    }
}

} // verus!
