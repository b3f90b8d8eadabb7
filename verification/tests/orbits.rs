//! Tests for the day-6 orbit graph.
use intcode::d06::{count_edges, d06a, d06b, parse_graph, Graph};

fn name(s: &str) -> Vec<u8> {
    s.as_bytes().to_vec()
}

fn get_test_graph() -> Graph {
    Graph::from_edges(
        vec![
            ("COM", "B"),
            ("B", "C"),
            ("C", "D"),
            ("D", "E"),
            ("E", "F"),
            ("B", "G"),
            ("G", "H"),
            ("D", "I"),
            ("E", "J"),
            ("J", "K"),
            ("K", "L"),
        ]
        .iter()
        .map(|(a, b)| (name(a), name(b)))
        .collect(),
    )
}

#[test]
fn test_graph_example() {
    assert_eq!(count_edges(&get_test_graph(), &name("COM")), Some(42))
}

#[test]
fn test_graph_shared() {
    let b = name("B");
    let e = name("E");
    let h = name("H");
    assert_eq!(get_test_graph().shared(&e, &h), Some(b));
}

#[test]
fn test_graph_distance() {
    let e = name("E");
    let h = name("H");
    assert_eq!(get_test_graph().distance(&e, &h), Some(5))
}

#[test]
fn test_graph_text() {
    let text = "COM)B\nB)C\nC)D\nD)E\nE)F\nB)G\nG)H\nD)I\nE)J\nJ)K\nK)L\n";
    assert_eq!(d06a(text), Some(42));
    let text2 = "COM)B\nB)C\nC)D\nD)E\nE)F\nB)G\nG)H\nD)I\nE)J\nJ)K\nK)L\nK)YOU\nI)SAN\n";
    assert_eq!(d06b(text2), Some(4));
    assert!(parse_graph("COM(B").is_err());
}
