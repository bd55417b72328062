use digraph::Edge;
use digraph::Graph;
use digraph::Vertex;

#[test]
fn it_works() {
    let mut g = Graph::new();
    let a = g.create_node(0);
    let b = g.create_node(1);
    let c = g.create_node(2);

    g.add_weighted_edge(a, c, 1);
    g.add_weighted_edge(b, c, 2);

    assert_eq!(g.get_mut_data(a).unwrap(), &mut 0);
    assert_eq!(g.get_mut_data(b).unwrap(), &mut 1);
    assert_eq!(g.get_mut_data(c).unwrap(), &mut 2);
}

#[test]
fn creation_issues_sequential_ids() {
    let mut g = Graph::new();
    for k in 0..10u32 {
        let id = g.create_node(k * 100);
        assert_eq!(id, k as usize);
    }
    assert_eq!(g.node_count(), 10);
    for k in 0..10u32 {
        assert_eq!(*g.get_mut_data(k as usize).unwrap(), k * 100);
    }
}

#[test]
fn add_weighted_edge_adds_one_pair() {
    let mut g = Graph::new();
    let a = g.create_node("a");
    let b = g.create_node("b");
    g.add_weighted_edge(a, b, 7);
    let before = g.export_edge_list();
    assert_eq!(before.iter().filter(|p| **p == (a, b)).count(), 1);

    let linked = g.add_weighted_edge(a, b, -3);
    assert!(linked);
    let after = g.export_edge_list();
    assert_eq!(after.iter().filter(|p| **p == (a, b)).count(), 2);
    assert_eq!(after.len(), before.len() + 1);
}

#[test]
fn insertion_populates_only_the_outgoing_list() {
    let mut v: Vertex<u8> = Vertex::new(0, 42);
    v.add_out(3, 5);
    assert_eq!(v.out_edges.len(), 1);
    assert_eq!(v.out_edges[0], Edge { wt: 5, other_id: 3 });
    // The incoming list is never populated by edge insertion.
    assert_eq!(v.in_edges.len(), 0);

    v.add_in(9, -1);
    assert_eq!(v.in_edges.len(), 1);
    assert_eq!(v.in_edges[0], Edge { wt: -1, other_id: 9 });
    assert_eq!(v.out_edges.len(), 1);
}

#[test]
fn add_edge_matches_weight_zero_insertion() {
    let mut g1 = Graph::new();
    let mut g2 = Graph::new();
    for k in 0..3u8 {
        g1.create_node(k);
        g2.create_node(k);
    }
    let l1 = g1.add_edge(0, 2);
    let l2 = g2.add_weighted_edge(0, 2, 0);
    assert_eq!(l1, l2);
    assert_eq!(g1.export_edge_list(), g2.export_edge_list());

    let l1 = g1.add_edge(5, 0);
    let l2 = g2.add_weighted_edge(5, 0, 0);
    assert_eq!(l1, l2);
    assert_eq!(g1.export_edge_list(), g2.export_edge_list());
}

#[test]
fn get_mut_data_out_of_bounds_is_none() {
    let mut g: Graph<i64> = Graph::new();
    assert!(g.get_mut_data(0).is_none());
    g.create_node(-5);
    assert!(g.get_mut_data(0).is_some());
    assert!(g.get_mut_data(1).is_none());
    assert!(g.get_mut_data(usize::MAX).is_none());
}

#[test]
fn get_mut_data_mutation_is_visible() {
    let mut g = Graph::new();
    let a = g.create_node(String::from("first"));
    {
        let d = g.get_mut_data(a).unwrap();
        assert_eq!(d, "first");
        *d = String::from("second");
    }
    assert_eq!(g.get_mut_data(a).unwrap(), "second");
}

#[test]
fn invalid_source_leaves_topology_unchanged() {
    let mut g = Graph::new();
    let a = g.create_node(1u8);
    let b = g.create_node(2u8);
    g.add_weighted_edge(a, b, 4);
    let before = g.export_edge_list();

    let linked = g.add_weighted_edge(2, 0, 9);
    assert!(!linked);
    assert_eq!(g.export_edge_list(), before);
    assert_eq!(g.node_count(), 2);
    assert!(g.get_mut_data(2).is_none());
}

#[test]
fn dangling_destination_is_recorded_unchecked() {
    let mut g = Graph::new();
    let a = g.create_node(0u8);
    let linked = g.add_weighted_edge(a, 17, 1);
    assert!(linked);
    assert_eq!(g.export_edge_list(), vec![(0, 17)]);
}

#[test]
fn export_orders_pairs_by_pool_then_insertion() {
    let mut g = Graph::new();
    let a = g.create_node('a');
    let b = g.create_node('b');
    let c = g.create_node('c');
    g.add_weighted_edge(b, a, 1);
    g.add_weighted_edge(a, c, 2);
    g.add_weighted_edge(b, c, 3);
    g.add_weighted_edge(a, b, 4);
    // Pool order first (all of a's edges before b's), insertion order within
    // one vertex.
    assert_eq!(g.export_edge_list(), vec![(a, c), (a, b), (b, a), (b, c)]);
}

#[test]
fn empty_graph_exports_nothing() {
    let g: Graph<u8> = Graph::new();
    assert_eq!(g.node_count(), 0);
    assert_eq!(g.export_edge_list(), vec![]);
}

#[test]
fn three_vertex_scenario() {
    let mut g = Graph::new();
    let ids = [g.create_node(0), g.create_node(1), g.create_node(2)];
    assert_eq!(ids, [0, 1, 2]);

    g.add_weighted_edge(0, 2, 1);
    g.add_weighted_edge(1, 2, 2);

    assert_eq!(*g.get_mut_data(0).unwrap(), 0);
    assert_eq!(*g.get_mut_data(1).unwrap(), 1);
    assert_eq!(*g.get_mut_data(2).unwrap(), 2);
    assert_eq!(g.export_edge_list(), vec![(0, 2), (1, 2)]);
}

#[test]
fn vertex_new_starts_empty() {
    let v: Vertex<&str> = Vertex::new(4, "payload");
    assert_eq!(v.id, 4);
    assert_eq!(v.data, "payload");
    assert!(v.out_edges.is_empty());
    assert!(v.in_edges.is_empty());
}
