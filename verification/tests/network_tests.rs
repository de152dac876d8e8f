use bicischools_core::overline::aggregate_edge_usage;
use bicischools_core::synthetic::{is_residential_highway, synthetic_cluster_count, synthetic_origin_id};
use bicischools_core::text::decimal_string;
use bicischools_core::timetable::{stop_id, stop_label, stop_name};

#[test]
fn edge_usage_groups_routes_by_edge() {
    let routes = vec![vec![3, 1, 2], vec![1, 9, 2, 1], vec![], vec![2]];
    let usage = aggregate_edge_usage(&routes, 5);
    let summary: Vec<(usize, usize, Vec<usize>)> =
        usage.iter().map(|u| (u.edge_id, u.route_count, u.routes.clone())).collect();
    assert_eq!(
        summary,
        vec![(3, 1, vec![0]), (1, 3, vec![0, 1, 1]), (2, 3, vec![0, 1, 3])]
    );
}

#[test]
fn edge_usage_of_no_routes_is_empty() {
    assert!(aggregate_edge_usage(&vec![], 10).is_empty());
    assert!(aggregate_edge_usage(&vec![vec![4, 5]], 0).is_empty());
}

#[test]
fn stop_labels_names_and_ids() {
    assert_eq!(stop_label(2, 0, 4), "2A");
    assert_eq!(stop_label(2, 2, 4), "2C");
    assert_eq!(stop_label(2, 3, 4), "Arr");
    assert_eq!(stop_label(1, 25, 40), "1Z");
    assert_eq!(stop_label(1, 26, 40), "1S");
    assert_eq!(stop_label(1, 30, 40), "1S");
    assert_eq!(stop_name("2A", 0, 4), "Stop 2A (Origin Start)");
    assert_eq!(stop_name("2B", 1, 4), "Stop 2B");
    assert_eq!(stop_name("Arr", 3, 4), "School Arrival");
    assert_eq!(stop_id(12, "12B"), "R12_12B");
    assert_eq!(stop_id(3, "Arr"), "R3_Arr");
}

#[test]
fn synthetic_origin_helpers() {
    assert!(is_residential_highway("living_street"));
    assert!(is_residential_highway("tertiary"));
    assert!(!is_residential_highway("tertiary_link"));
    assert!(!is_residential_highway("primary"));
    assert_eq!(synthetic_cluster_count(120, 500), 40);
    assert_eq!(synthetic_cluster_count(12, 500), 10);
    assert_eq!(synthetic_cluster_count(120, 7), 7);
    assert_eq!(synthetic_origin_id(0), "synthetic_1");
    assert_eq!(synthetic_origin_id(41), "synthetic_42");
}

#[test]
fn decimal_rendering() {
    assert_eq!(decimal_string(0), "0");
    assert_eq!(decimal_string(7), "7");
    assert_eq!(decimal_string(1050), "1050");
    assert_eq!(decimal_string(usize::MAX), usize::MAX.to_string());
}

#[test]
fn first_stops_have_distinct_ids() {
    let n = 28;
    let ids: Vec<String> = (0..26).map(|i| stop_id(4, &stop_label(4, i, n))).collect();
    for i in 0..ids.len() {
        for j in (i + 1)..ids.len() {
            assert_ne!(ids[i], ids[j]);
        }
    }
    // from the 27th stop on, every stop before the school is lettered `S`
    assert_eq!(stop_label(4, 26, n), stop_label(4, 25 + 1, n));
    assert_eq!(stop_id(4, &stop_label(4, 26, n)), "R4_4S");
}
