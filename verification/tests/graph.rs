use cerebro::engines::association::LinkEngine;
use cerebro::graph::{GraphError, GraphStore};
use cerebro::spreading::reachable_frontier;
use cerebro::types::MemoryId;

fn make_graph(nodes: &[&str], edges: &[(&str, &str)]) -> GraphStore {
    let mut g = GraphStore::new();
    for &n in nodes {
        g.add_node(MemoryId(n.to_string()));
    }
    for &(src, tgt) in edges {
        g.add_edge(&MemoryId(src.to_string()), &MemoryId(tgt.to_string())).unwrap();
    }
    g
}

fn names(path: Option<Vec<MemoryId>>) -> Option<Vec<String>> {
    path.map(|p| p.into_iter().map(|m| m.0).collect())
}

#[test]
fn find_path_direct_edge() {
    let g = make_graph(&["a", "b"], &[("a", "b")]);
    let engine = LinkEngine::new();
    let path = engine.find_path(&g, &MemoryId("a".into()), &MemoryId("b".into()));
    assert_eq!(names(path), Some(vec!["a".to_string(), "b".to_string()]));
}

#[test]
fn find_path_multi_hop() {
    let g = make_graph(&["a", "b", "c"], &[("a", "b"), ("b", "c")]);
    let engine = LinkEngine::new();
    let path = engine.find_path(&g, &MemoryId("a".into()), &MemoryId("c".into()));
    assert_eq!(names(path), Some(vec!["a".to_string(), "b".to_string(), "c".to_string()]));
}

#[test]
fn find_path_returns_none_when_disconnected() {
    let g = make_graph(&["a", "b"], &[]); // no edges
    let engine = LinkEngine::new();
    assert!(engine.find_path(&g, &MemoryId("a".into()), &MemoryId("b".into())).is_none());
}

#[test]
fn find_path_self_returns_single() {
    let g = make_graph(&["a"], &[]);
    let engine = LinkEngine::new();
    let path = engine.find_path(&g, &MemoryId("a".into()), &MemoryId("a".into()));
    assert_eq!(names(path), Some(vec!["a".to_string()]));
}

#[test]
fn find_path_follows_edge_direction_and_prefers_fewer_hops() {
    let g = make_graph(
        &["a", "b", "c", "d"],
        &[("a", "b"), ("b", "c"), ("c", "d"), ("a", "d")],
    );
    let engine = LinkEngine::new();
    let path = engine.find_path(&g, &MemoryId("a".into()), &MemoryId("d".into()));
    assert_eq!(names(path), Some(vec!["a".to_string(), "d".to_string()]));
    assert!(engine.find_path(&g, &MemoryId("d".into()), &MemoryId("a".into())).is_none());
    assert!(engine.find_path(&g, &MemoryId("a".into()), &MemoryId("zz".into())).is_none());
}

#[test]
fn get_common_neighbors_found() {
    // a->c, b->c  ⟹  common neighbor of a and b is c
    let g = make_graph(&["a", "b", "c"], &[("a", "c"), ("b", "c")]);
    let engine = LinkEngine::new();
    let common = engine.get_common_neighbors(&g, &MemoryId("a".into()), &MemoryId("b".into()));
    assert!(common.iter().any(|m| m.0 == "c"));
}

#[test]
fn get_common_neighbors_empty_when_none() {
    let g = make_graph(&["a", "b", "c", "d"], &[("a", "c"), ("b", "d")]);
    let engine = LinkEngine::new();
    let common = engine.get_common_neighbors(&g, &MemoryId("a".into()), &MemoryId("b".into()));
    assert!(common.is_empty());
}

#[test]
fn common_neighbors_are_listed_once() {
    let g = make_graph(&["a", "b", "c"], &[("a", "c"), ("a", "c"), ("b", "c")]);
    let common = LinkEngine::new().get_common_neighbors(&g, &MemoryId("a".into()), &MemoryId("b".into()));
    assert_eq!(common.len(), 1);
}

#[test]
fn adding_an_edge_needs_both_ends() {
    let mut g = make_graph(&["a"], &[]);
    assert_eq!(g.add_edge(&MemoryId("x".into()), &MemoryId("a".into())), Err(GraphError::MissingSource));
    assert_eq!(g.add_edge(&MemoryId("a".into()), &MemoryId("x".into())), Err(GraphError::MissingTarget));
}

#[test]
fn frontier_is_hop_bounded_and_undirected() {
    let g = make_graph(&["a", "b", "c", "d", "e"], &[("a", "b"), ("b", "c"), ("c", "d"), ("d", "e")]);
    let mut frontier: Vec<usize> = reachable_frontier(&g, &[0]).into_iter().collect();
    frontier.sort();
    assert_eq!(frontier, vec![0, 1, 2], "seed + 2 hops");
    // Undirected: seeding from the target side reaches back up the chain.
    let frontier = reachable_frontier(&g, &[4]);
    assert!(frontier.contains(&2), "incoming edges must be walked too");
    assert!(!frontier.contains(&1));
}

#[test]
fn frontier_empty_seeds_is_empty() {
    let g = GraphStore::new();
    assert!(reachable_frontier(&g, &[]).is_empty());
}

#[test]
fn default_graph_is_empty() {
    let g = GraphStore::default();
    assert_eq!(g.node_count(), 0);
}

#[test]
fn neighbors_lists_outgoing_targets() {
    let g = make_graph(&["a", "b", "c", "d"], &[("a", "b"), ("a", "c"), ("d", "a")]);
    let mut out: Vec<String> = g.neighbors(&MemoryId("a".into())).iter().map(|m| m.0.clone()).collect();
    out.sort();
    assert_eq!(out, vec!["b".to_string(), "c".to_string()]);
    // Edges point one way only.
    assert!(g.neighbors(&MemoryId("b".into())).is_empty());
    assert_eq!(g.neighbors(&MemoryId("d".into())).len(), 1);
    // An unregistered id has no neighbours.
    assert!(g.neighbors(&MemoryId("zzz".into())).is_empty());
}

#[test]
fn refused_edges_name_the_missing_end() {
    let mut g = make_graph(&["a"], &[]);
    let a = MemoryId("a".into());
    let z = MemoryId("z".into());
    let e = g.add_edge(&z, &a).unwrap_err();
    assert_eq!(e, GraphError::MissingSource);
    assert_eq!(e.message(&z, &a), "source z not in graph");
    let e = g.add_edge(&a, &z).unwrap_err();
    assert_eq!(e.message(&a, &z), "target z not in graph");
}
