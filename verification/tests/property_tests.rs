use arena_graph::EdgeIndex;
use arena_graph::Graph;
use arena_graph::NodeIndex;

#[test]
fn fresh_graph_is_empty() {
    let g: Graph<u32, u32> = Graph::new();
    assert_eq!((0, 0), g.size());
    assert!(!g.has_node(NodeIndex::from(0)));
    assert!(!g.has_edge(EdgeIndex::from(0)));
    assert!(g.get_node_from_index(NodeIndex::from(0)).is_none());
    assert!(g.get_edge_from_index(EdgeIndex::from(0)).is_none());
    assert!(g.get_edge_between_nodes(NodeIndex::from(0), NodeIndex::from(0)).is_none());
}

#[test]
fn add_node_returns_sequential_identifiers() {
    let mut g: Graph<usize, bool> = Graph::new();
    for k in 0..10 {
        let ind = g.add_node(k);
        assert_eq!(NodeIndex::from(k), ind);
        assert_eq!(k + 1, g.size().0);
    }
}

#[test]
fn add_edge_requires_live_endpoints() {
    let mut g: Graph<&str, u32> = Graph::new();
    let a = g.add_node("a");
    let b = g.add_node("b");
    assert!(g.add_edge(NodeIndex::from(9), b, 1).is_none());
    assert!(g.add_edge(a, NodeIndex::from(9), 1).is_none());
    assert_eq!((2, 0), g.size());
    let e = g.add_edge(a, b, 42).unwrap();
    assert_eq!(EdgeIndex::from(0), e);
    assert_eq!((2, 1), g.size());
    let found = g.get_edge_between_nodes(a, b).unwrap();
    assert_eq!(&42, found.data());
    assert_eq!(b, found.dest());
    // a tombstoned endpoint is as dead as an out-of-range one
    g.delete_node(b);
    assert!(g.add_edge(a, b, 7).is_none());
    assert_eq!((1, 0), g.size());
}

#[test]
fn delete_node_cascades() {
    let mut g: Graph<u8, u8> = Graph::new();
    let a = g.add_node(0);
    let b = g.add_node(1);
    let c = g.add_node(2);
    let ab = g.add_edge(a, b, 0).unwrap();
    let bc = g.add_edge(b, c, 1).unwrap();
    let cb = g.add_edge(c, b, 2).unwrap();
    let ca = g.add_edge(c, a, 3).unwrap();
    assert_eq!((3, 4), g.size());
    g.delete_node(b);
    assert!(!g.has_node(b));
    assert!(!g.has_edge(ab)); // pointed at b
    assert!(!g.has_edge(bc)); // owned by b's adjacency list
    assert!(!g.has_edge(cb)); // pointed at b
    assert!(g.has_edge(ca)); // touches neither end of b
    assert_eq!((2, 1), g.size());
    g.delete_node(b);
    assert_eq!((2, 1), g.size());
}

#[test]
fn delete_edge_between_nodes_first_live_wins() {
    let mut g: Graph<u8, u32> = Graph::new();
    let a = g.add_node(0);
    let b = g.add_node(1);
    g.add_edge(a, b, 10);
    g.add_edge(a, b, 20);
    assert_eq!(&10, g.get_edge_between_nodes(a, b).unwrap().data());
    g.delete_edge_between_nodes(a, b);
    assert_eq!((2, 1), g.size());
    // the parallel edge, inserted later, is now the first live one
    assert_eq!(&20, g.get_edge_between_nodes(a, b).unwrap().data());
    g.delete_edge_between_nodes(a, b);
    assert_eq!((2, 0), g.size());
    assert!(g.get_edge_between_nodes(a, b).is_none());
    g.delete_edge_between_nodes(a, b);
    assert_eq!((2, 0), g.size());
}

#[test]
fn dead_deletes_are_noops() {
    let mut g: Graph<u8, u8> = Graph::new();
    let a = g.add_node(1);
    let b = g.add_node(2);
    let e = g.add_edge(a, b, 3).unwrap();
    g.delete_edge(e);
    let before = g.size();
    g.delete_edge(e); // already a tombstone
    assert_eq!(before, g.size());
    g.delete_edge(EdgeIndex::from(100)); // out of range
    assert_eq!(before, g.size());
    g.delete_node(NodeIndex::from(100));
    assert_eq!(before, g.size());
    g.delete_node(a);
    let after = g.size();
    g.delete_node(a);
    assert_eq!(after, g.size());
    g.delete_edge_between_nodes(a, b); // dead source
    assert_eq!(after, g.size());
}

#[test]
fn end_to_end_scenario() {
    let mut g: Graph<String, bool> = Graph::new();
    let bob = g.add_node(String::from("bob"));
    assert_eq!(NodeIndex::from(0), bob);
    let sally = g.add_node(String::from("sally"));
    assert_eq!(NodeIndex::from(1), sally);
    assert_eq!(Some(EdgeIndex::from(0)), g.add_edge(bob, sally, true));
    assert_eq!((2, 1), g.size());
    assert_eq!(Some(EdgeIndex::from(1)), g.add_edge(sally, bob, true));
    assert_eq!((2, 2), g.size());
    let zach = g.add_node(String::from("zach"));
    assert_eq!(NodeIndex::from(2), zach);
    g.add_edge(bob, zach, true);
    g.add_edge(zach, bob, true);
    assert_eq!((3, 4), g.size());
    g.delete_node(zach);
    assert_eq!((2, 2), g.size());
    assert!(!g.has_node(zach));
    g.delete_edge_between_nodes(bob, sally);
    g.delete_edge_between_nodes(sally, bob);
    assert_eq!((2, 0), g.size());
    g.delete_node(sally);
    assert_eq!((1, 0), g.size());
    g.delete_node(sally);
    assert_eq!((1, 0), g.size());
}

#[test]
fn payloads_mutate_in_place() {
    let mut g: Graph<u32, u32> = Graph::new();
    let a = g.add_node(1);
    let b = g.add_node(2);
    let e = g.add_edge(a, b, 5).unwrap();
    {
        let node = g.get_node_from_index_mut(a).unwrap();
        *node.data_mut() = 10;
    }
    assert_eq!(&10, g.get_node_from_index(a).unwrap().data());
    {
        let edge = g.get_edge_from_index_mut(e).unwrap();
        *edge.data_mut() = 50;
    }
    assert_eq!(&50, g.get_edge_from_index(e).unwrap().data());
    {
        let edge = g.get_edge_between_nodes_mut(a, b).unwrap();
        *edge.data_mut() = 60;
    }
    assert_eq!(&60, g.get_edge_between_nodes(a, b).unwrap().data());
    assert_eq!((2, 1), g.size());
    assert!(g.get_node_from_index_mut(NodeIndex::from(9)).is_none());
    assert!(g.get_edge_from_index_mut(EdgeIndex::from(9)).is_none());
    assert!(g.get_edge_between_nodes_mut(b, a).is_none());
}

#[test]
fn stale_adjacency_entries_are_skipped() {
    let mut g: Graph<u8, u32> = Graph::new();
    let a = g.add_node(0);
    let b = g.add_node(1);
    let e1 = g.add_edge(a, b, 1).unwrap();
    let e2 = g.add_edge(a, b, 2).unwrap();
    // tombstone the first edge directly: a's adjacency list still holds e1
    g.delete_edge(e1);
    assert_eq!(2, g.get_node_from_index(a).unwrap().out_edges().len());
    assert_eq!(Some(e2), g.get_edge_index_between_nodes(a, b));
    g.delete_edge(e2);
    assert_eq!(None, g.get_edge_index_between_nodes(a, b));
}
