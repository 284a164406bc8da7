use arena_graph::interning::Graph;

#[derive(PartialEq, Eq, Hash, Clone)]
struct Person {
    name: String,
    age: u8,
}

#[test]
fn test_new() {
    let g: Graph<i32, String> = Graph::new();
    assert!(g.core.is_empty());
}

#[test]
fn test_has_vertex() {
    let g: Graph<Person, bool> = Graph::new();
    let p = Person {
        name: String::from("William"),
        age: 35,
    };
    assert_eq!(false, g.has_vertex(&p));
}

#[test]
fn test_has_vertex_iden() {
    let g: Graph<String, usize> = Graph::new();
    assert_eq!(g.has_vertex_iden(2), false);
}

#[test]
fn interned_vertices_get_sequential_identifiers() {
    let mut g: Graph<String, u32> = Graph::new();
    g.add_vertex(String::from("a"));
    g.add_vertex(String::from("b"));
    assert!(g.has_vertex(&String::from("a")));
    assert!(g.has_vertex(&String::from("b")));
    assert!(!g.has_vertex(&String::from("c")));
    assert!(g.has_vertex_iden(0));
    assert!(g.has_vertex_iden(1));
    assert!(!g.has_vertex_iden(2));
    // interning alone never touches the edge sets
    assert!(g.core.is_empty());
}

#[test]
fn re_adding_a_vertex_resets_its_edge_set() {
    let mut g: Graph<String, u32> = Graph::new();
    g.add_vertex(String::from("a"));
    g.add_vertex(String::from("b"));
    g.add_vertex(String::from("a"));
    // "a" kept its identifier: nothing new was interned
    assert!(!g.has_vertex_iden(2));
    // and its edge set is now present and empty
    assert_eq!(1, g.core.len());
    let (key, edge_set) = &g.core[0];
    assert_eq!(0, key.0);
    assert!(edge_set.is_empty());
}
