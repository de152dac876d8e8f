use bicischools_core::graph::{
    build_edges, link_segments, plan_segments, outgoing_edges, routable_ways, select_graph_nodes, way_segments, EdgeLink, Segment,
};
use bicischools_core::osm::OsmWay;
use bicischools_core::router::{reverse_incoming, school_id, trace_route};

fn way(id: i64, nodes: &[i64], tags: &[(&str, &str)]) -> OsmWay {
    OsmWay {
        id,
        nodes: nodes.to_vec(),
        tags: tags.iter().map(|(k, v)| (k.to_string(), v.to_string())).collect(),
    }
}

fn sample_ways() -> Vec<OsmWay> {
    vec![
        way(100, &[1, 2, 3], &[("highway", "residential")]),
        way(101, &[3, 4], &[("highway", "primary"), ("oneway", "yes")]),
        way(102, &[4, 5], &[("highway", "steps")]),
        way(103, &[5, 9, 6], &[("highway", "path")]),
        way(104, &[7], &[("highway", "service")]),
        way(105, &[8, 2], &[("building", "yes")]),
    ]
}

#[test]
fn routable_ways_skip_steps_and_untagged() {
    assert_eq!(routable_ways(&sample_ways()), vec![0, 1, 3, 4]);
}

#[test]
fn graph_nodes_keep_raw_order() {
    let ways = sample_ways();
    let routable = routable_ways(&ways);
    let g = select_graph_nodes(&vec![6, 5, 8, 4, 3, 2, 1, 7], &ways, &routable);
    assert_eq!(g.osm_ids, vec![6, 5, 4, 3, 2, 1, 7]);
    assert_eq!(g.index_of.get(&4), Some(&2));
    assert_eq!(g.index_of.get(&8), None);
    assert_eq!(g.index_of.get(&9), None);
}

#[test]
fn segments_edges_and_adjacency() {
    let ways = sample_ways();
    let routable = routable_ways(&ways);
    let g = select_graph_nodes(&vec![1, 2, 3, 4, 5, 6, 7], &ways, &routable);
    let segs = way_segments(&ways, &routable, &g);
    assert_eq!(
        segs,
        vec![
            Segment { way: 0, from_node: 0, to_node: 1 },
            Segment { way: 0, from_node: 1, to_node: 2 },
            Segment { way: 1, from_node: 2, to_node: 3 },
        ]
    );
    let keep = vec![true, false, true];
    let edges = build_edges(&ways, &segs, &keep, g.osm_ids.len());
    assert_eq!(
        edges,
        vec![
            EdgeLink { id: 0, segment: 0, from_node: 0, to_node: 1 },
            EdgeLink { id: 1, segment: 0, from_node: 1, to_node: 0 },
            EdgeLink { id: 2, segment: 2, from_node: 2, to_node: 3 },
        ]
    );
    let out = outgoing_edges(g.osm_ids.len(), &edges);
    assert_eq!(out[0], vec![0]);
    assert_eq!(out[1], vec![1]);
    assert_eq!(out[2], vec![2]);
    assert!(out[3].is_empty());
    let rev = reverse_incoming(g.osm_ids.len(), &edges);
    assert_eq!(rev[0], vec![1]);
    assert_eq!(rev[1], vec![0]);
    assert_eq!(rev[3], vec![2]);
    assert!(rev[2].is_empty());
}

fn chain_edges() -> Vec<EdgeLink> {
    vec![
        EdgeLink { id: 0, segment: 0, from_node: 0, to_node: 1 },
        EdgeLink { id: 1, segment: 1, from_node: 1, to_node: 2 },
        EdgeLink { id: 2, segment: 2, from_node: 2, to_node: 3 },
        EdgeLink { id: 3, segment: 3, from_node: 4, to_node: 4 },
    ]
}

#[test]
fn trace_route_follows_tree_to_school() {
    let edges = chain_edges();
    let prev = vec![Some(0), Some(1), Some(2), None, Some(3)];
    assert_eq!(trace_route(&prev, &edges, 0, 3, 5), (vec![0, 1, 2], 3));
    assert_eq!(trace_route(&prev, &edges, 3, 3, 5), (vec![], 3));
    assert_eq!(trace_route(&prev, &edges, 0, 3, 2), (vec![0, 1], 2));
}

#[test]
fn trace_route_stops_on_missing_edge_or_loop() {
    let edges = chain_edges();
    let prev = vec![Some(0), None, Some(2), None, Some(3)];
    assert_eq!(trace_route(&prev, &edges, 0, 3, 5), (vec![0], 1));
    assert_eq!(trace_route(&prev, &edges, 4, 3, 3), (vec![3, 3, 3], 4));
}

#[test]
fn school_ids() {
    assert_eq!(school_id(0), "school_0");
    assert_eq!(school_id(1234), "school_1234");
}

#[test]
fn planned_segments_link_into_edges() {
    let ways = sample_ways();
    let plan = plan_segments(&vec![7, 6, 5, 4, 3, 2, 1], &ways);
    assert_eq!(plan.routable, vec![0, 1, 3, 4]);
    assert_eq!(plan.nodes.osm_ids, vec![7, 6, 5, 4, 3, 2, 1]);
    assert_eq!(plan.segments.len(), 3);
    let table = link_segments(&ways, &plan, &vec![true, true, true]);
    assert_eq!(table.edges.len(), 5);
    assert_eq!(table.outgoing.len(), 7);
    let out_of_node_3 = &table.outgoing[plan.nodes.index_of[&3]];
    assert_eq!(out_of_node_3.len(), 2);
    for &e in out_of_node_3 {
        assert_eq!(table.edges[e].from_node, plan.nodes.index_of[&3]);
    }
}
