use wren_core::cycles::find_cycle;
use wren_core::routes::{find_route, Edge, Route, Step};

fn edge(left: usize, right: usize) -> Edge {
    Edge { left, right }
}

#[test]
fn a_node_reaches_itself_by_the_empty_route() {
    assert_eq!(find_route(&vec![edge(0, 1)], 2, 1, 1), Route::Unique(vec![]));
}

#[test]
fn finds_the_one_route_over_several_edges() {
    // 0 - 1 - 2, and 3 apart
    let edges = vec![edge(0, 1), edge(2, 1)];
    assert_eq!(
        find_route(&edges, 4, 0, 2),
        Route::Unique(vec![Step { edge: 0, forward: true }, Step { edge: 1, forward: false }])
    );
    assert_eq!(
        find_route(&edges, 4, 2, 0),
        Route::Unique(vec![Step { edge: 1, forward: true }, Step { edge: 0, forward: false }])
    );
    assert_eq!(find_route(&edges, 4, 0, 3), Route::Unconnected);
}

#[test]
fn two_parallel_edges_are_ambiguous() {
    let edges = vec![edge(0, 1), edge(1, 0)];
    assert_eq!(find_route(&edges, 2, 0, 1), Route::Ambiguous);
    assert_eq!(find_route(&edges, 2, 1, 0), Route::Ambiguous);
}

#[test]
fn a_detour_makes_a_route_ambiguous() {
    // 0 - 1 directly and over 2
    let edges = vec![edge(0, 1), edge(0, 2), edge(2, 1)];
    assert_eq!(find_route(&edges, 3, 0, 1), Route::Ambiguous);
}

#[test]
fn a_loop_on_a_node_adds_no_route() {
    let edges = vec![edge(0, 0), edge(0, 1)];
    assert_eq!(find_route(&edges, 2, 0, 1), Route::Unique(vec![Step { edge: 1, forward: true }]));
}

#[test]
fn a_graph_without_cycle_has_none() {
    // 0 -> 1 -> 2, 0 -> 2
    assert_eq!(find_cycle(&vec![vec![1, 2], vec![2], vec![]]), None);
    assert_eq!(find_cycle(&Vec::new()), None);
}

#[test]
fn finds_a_cycle_of_two() {
    assert_eq!(find_cycle(&vec![vec![1], vec![0]]), Some(vec![0, 1]));
}

#[test]
fn finds_a_cycle_behind_a_tail() {
    // 0 -> 1 -> 2 -> 3 -> 1
    assert_eq!(find_cycle(&vec![vec![1], vec![2], vec![3], vec![1]]), Some(vec![1, 2, 3]));
}

#[test]
fn finds_a_loop_on_one_node() {
    assert_eq!(find_cycle(&vec![vec![], vec![1]]), Some(vec![1]));
}
