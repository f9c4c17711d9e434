use graph_editor::graph::Graph;

#[test]
fn empty_graph_has_nothing() {
    let g = Graph::new();
    assert!(!g.has_vertex(&1));
    assert!(!g.has_edge(&1));
    assert_eq!(g.incident_vertices(&1), None);
    assert_eq!(g.iter_edges(&1), Vec::<u64>::new());
}

#[test]
fn insert_vertex_and_edge_basics() {
    let mut g = Graph::new();
    g.insert_vertex(1);
    g.insert_vertex(2);
    assert!(g.has_vertex(&1));
    assert!(g.has_vertex(&2));
    assert!(!g.has_vertex(&3));

    g.insert_edge(10, 2, 1);
    assert!(g.has_edge(&10));
    // the endpoint pair is canonicalized to (min, max)
    assert_eq!(g.incident_vertices(&10), Some((1, 2)));
    assert_eq!(g.iter_edges(&1), vec![10]);
    assert_eq!(g.iter_edges(&2), vec![10]);
}

#[test]
fn get_edge_between_is_symmetric() {
    let mut g = Graph::new();
    g.insert_vertex(1);
    g.insert_vertex(2);
    g.insert_vertex(3);
    g.insert_edge(10, 1, 2);
    assert_eq!(g.get_edge_between(1, 2), Some(10));
    assert_eq!(g.get_edge_between(2, 1), Some(10));
    assert_eq!(g.get_edge_between(1, 3), None);
    assert_eq!(g.get_edge_between(3, 2), None);
}

#[test]
fn remove_edge_cleans_both_adjacency_lists() {
    let mut g = Graph::new();
    g.insert_vertex(1);
    g.insert_vertex(2);
    g.insert_edge(10, 1, 2);
    g.remove_edge(&10);
    assert!(!g.has_edge(&10));
    assert!(g.has_vertex(&1));
    assert!(g.has_vertex(&2));
    assert!(g.iter_edges(&1).is_empty());
    assert!(g.iter_edges(&2).is_empty());
    // removing an absent edge is a no-op
    g.remove_edge(&10);
    assert!(!g.has_edge(&10));
}

#[test]
fn remove_vertex_cascades_to_exactly_its_incident_edges() {
    let mut g = Graph::new();
    for v in 1..=4u64 {
        g.insert_vertex(v);
    }
    g.insert_edge(10, 1, 2);
    g.insert_edge(11, 1, 3);
    g.insert_edge(12, 2, 3);

    // vertex 1 has two incident edges; removing it must take exactly those
    g.remove_vertex(&1);
    assert!(!g.has_vertex(&1));
    assert!(!g.has_edge(&10));
    assert!(!g.has_edge(&11));
    // the third edge is untouched
    assert!(g.has_edge(&12));
    assert_eq!(g.incident_vertices(&12), Some((2, 3)));
    assert_eq!(g.iter_edges(&2), vec![12]);
    assert_eq!(g.iter_edges(&3), vec![12]);
    // the isolated vertex is untouched
    assert!(g.has_vertex(&4));
}

#[test]
fn remove_absent_vertex_is_a_no_op() {
    let mut g = Graph::new();
    g.insert_vertex(1);
    g.remove_vertex(&99);
    assert!(g.has_vertex(&1));
}

#[test]
fn iter_edges_of_isolated_or_absent_vertex_is_empty() {
    let mut g = Graph::new();
    g.insert_vertex(1);
    assert!(g.iter_edges(&1).is_empty());
    assert!(g.iter_edges(&2).is_empty());
}

#[test]
fn default_graph_is_empty() {
    let g: Graph = Default::default();
    assert!(!g.has_vertex(&0));
}
