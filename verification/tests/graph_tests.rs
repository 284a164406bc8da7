use arena_graph::EdgeIndex;
use arena_graph::Graph;
use arena_graph::NodeIndex;
use std::collections::HashMap;

#[derive(Debug)]
struct Person {
    name: String,
    age: u8,
}

type HasFriend = bool;
type FriendGraph = Graph<Person, HasFriend>;

fn are_friends(g: &FriendGraph, a: NodeIndex, b: NodeIndex) -> bool {
    g.get_edge_between_nodes(a, b).is_some()
}

#[test]
fn test_graph() {
    // test empty graph
    let mut g: FriendGraph = Graph::new();
    assert_eq!((0, 0), g.size());
    assert!(!g.has_node(NodeIndex::from(0)));
    assert!(!g.has_edge(EdgeIndex::from(0)));

    // test add bogus edge to empty graph
    assert!(g.add_edge(NodeIndex::from(2), NodeIndex::from(5), true).is_none());
    assert_eq!((0, 0), g.size());

    let bob = Person {
        name: "bob".to_string(),
        age: 37,
    };

    // test add node
    g.add_node(bob);
    assert_eq!((1, 0), g.size());

    let sally = Person {
        name: "sally".to_string(),
        age: 24,
    };

    // test add second node
    g.add_node(sally);
    assert_eq!((2, 0), g.size());

    // test add edges
    g.add_edge(NodeIndex::from(0), NodeIndex::from(1), true);
    g.add_edge(NodeIndex::from(1), NodeIndex::from(0), true);
    assert_eq!((2, 2), g.size());

    // test edges between nodes
    assert!(are_friends(&g, NodeIndex::from(0), NodeIndex::from(1)));
    assert!(are_friends(&g, NodeIndex::from(1), NodeIndex::from(0)));

    let zach = Person {
        name: "zach".to_string(),
        age: 33,
    };

    // test add more nodes and edges
    g.add_node(zach);
    g.add_edge(NodeIndex::from(0), NodeIndex::from(2), true);
    g.add_edge(NodeIndex::from(2), NodeIndex::from(0), true);
    assert_eq!((3, 4), g.size());
    assert!(are_friends(&g, NodeIndex::from(0), NodeIndex::from(2)));
    assert!(are_friends(&g, NodeIndex::from(2), NodeIndex::from(0)));

    // test delete node
    g.delete_node(NodeIndex::from(2));
    assert_eq!((2, 2), g.size());
    assert!(!g.has_node(NodeIndex::from(2)));

    g.delete_edge_between_nodes(NodeIndex::from(0), NodeIndex::from(1));
    g.delete_edge_between_nodes(NodeIndex::from(1), NodeIndex::from(0));
    assert_eq!((2, 0), g.size());
    assert!(!g.has_edge(EdgeIndex::from(2)));
    assert!(!g.has_edge(EdgeIndex::from(3)));

    g.delete_node(NodeIndex::from(1));
    assert_eq!((1, 0), g.size());

    // test double delete -- shouldn't change anything
    g.delete_node(NodeIndex::from(1));
    assert_eq!((1, 0), g.size());
}

#[test]
fn test_hash_map() {
    let mut m1: HashMap<String, String> = HashMap::new();
    let mut m2: HashMap<&str, &str> = HashMap::new();
    m1.insert("banana".to_string(), "split".to_string());
    let k = "banana".to_string();
    let v = m1.get(&k).unwrap();
    m2.insert(&k, v);
}
