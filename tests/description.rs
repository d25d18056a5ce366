use quirky_view::dot::{
    build_description, node_name_to_dot_id, write_decimal, BuildError, Edge, GraphModel,
    NodeStatus, StatusSnapshot,
};

fn edge(tail: &str, tail_port: u32, head: &str, head_port: u32) -> Edge {
    Edge { tail: tail.to_string(), tail_port, head: head.to_string(), head_port }
}

fn status(name: &str, output_written: Vec<u64>, input_read: Vec<u64>) -> NodeStatus {
    NodeStatus { name: name.to_string(), output_written, input_read }
}

fn two_nodes() -> GraphModel {
    GraphModel {
        nodes: vec!["A".to_string(), "B".to_string()],
        edges: vec![edge("A", 0, "B", 0)],
    }
}

#[test]
fn both_labels_on_one_edge() {
    let snap = StatusSnapshot { entries: vec![status("A", vec![5], vec![]), status("B", vec![], vec![3])] };
    let d = build_description(&two_nodes(), &snap).unwrap();
    assert!(d.contains("\"A\" -> \"B\" [taillabel=\"5\", headlabel=\"3\"]"));
    assert_eq!(
        d,
        "digraph G {\n\"A\"\n\"B\"\n\"A\" -> \"B\" [taillabel=\"5\", headlabel=\"3\"]\n}\n"
    );
}

#[test]
fn empty_snapshot_gives_no_labels() {
    let snap = StatusSnapshot { entries: vec![] };
    let d = build_description(&two_nodes(), &snap).unwrap();
    assert_eq!(d, "digraph G {\n\"A\"\n\"B\"\n\"A\" -> \"B\"\n}\n");
    assert!(!d.contains("label"));
}

#[test]
fn absent_tail_gives_head_label_only() {
    let snap = StatusSnapshot { entries: vec![status("B", vec![], vec![7, 11])] };
    let g = GraphModel {
        nodes: vec!["A".to_string(), "B".to_string()],
        edges: vec![edge("A", 0, "B", 1)],
    };
    let d = build_description(&g, &snap).unwrap();
    assert!(d.contains("\"A\" -> \"B\" [headlabel=\"11\"]\n"));
    assert!(!d.contains("taillabel"));
}

#[test]
fn absent_head_gives_tail_label_only() {
    let snap = StatusSnapshot { entries: vec![status("A", vec![1, 2, 30], vec![])] };
    let g = GraphModel { nodes: vec!["A".to_string()], edges: vec![edge("A", 2, "Z", 0)] };
    let d = build_description(&g, &snap).unwrap();
    assert!(d.contains("\"A\" -> \"Z\" [taillabel=\"30\"]\n"));
    assert!(!d.contains("headlabel"));
}

#[test]
fn later_report_of_a_name_stands() {
    let snap = StatusSnapshot {
        entries: vec![status("A", vec![1], vec![]), status("A", vec![2], vec![])],
    };
    let d = build_description(&two_nodes(), &snap).unwrap();
    assert!(d.contains("[taillabel=\"2\"]"));
}

#[test]
fn building_twice_gives_identical_text() {
    let snap = StatusSnapshot { entries: vec![status("A", vec![5], vec![]), status("B", vec![], vec![3])] };
    let g = two_nodes();
    let first = build_description(&g, &snap).unwrap();
    let second = build_description(&g, &snap).unwrap();
    assert_eq!(first.as_bytes(), second.as_bytes());
}

#[test]
fn missing_port_is_reported_with_its_edge() {
    let snap = StatusSnapshot { entries: vec![status("A", vec![5], vec![]), status("B", vec![], vec![3])] };
    let g = GraphModel {
        nodes: vec!["A".to_string(), "B".to_string()],
        edges: vec![edge("A", 0, "B", 0), edge("A", 4, "B", 0), edge("A", 0, "B", 9)],
    };
    assert_eq!(build_description(&g, &snap), Err(BuildError::PortOutOfRange { edge: 1 }));
}

#[test]
fn empty_graph() {
    let g = GraphModel { nodes: vec![], edges: vec![] };
    let snap = StatusSnapshot { entries: vec![] };
    assert_eq!(build_description(&g, &snap).unwrap(), "digraph G {\n}\n");
}

#[test]
fn identifier_is_quoted() {
    assert_eq!(node_name_to_dot_id("source"), "\"source\"");
    assert_eq!(node_name_to_dot_id("my node"), "\"my node\"");
    assert_eq!(node_name_to_dot_id(""), "\"\"");
}

#[test]
fn identifier_quotes_and_backslashes_are_escaped() {
    assert_eq!(node_name_to_dot_id("say \"hi\""), "\"say \\\"hi\\\"\"");
    assert_eq!(node_name_to_dot_id("a\\"), "\"a\\\\\"");
    assert_eq!(node_name_to_dot_id("é \"x\""), "\"é \\\"x\\\"\"");
}

#[test]
fn special_names_keep_the_description_well_formed() {
    let g = GraphModel {
        nodes: vec!["a \"b\"".to_string(), "c d".to_string()],
        edges: vec![edge("a \"b\"", 0, "c d", 0)],
    };
    let snap = StatusSnapshot { entries: vec![] };
    let d = build_description(&g, &snap).unwrap();
    assert_eq!(
        d,
        "digraph G {\n\"a \\\"b\\\"\"\n\"c d\"\n\"a \\\"b\\\"\" -> \"c d\"\n}\n"
    );
}

#[test]
fn decimal_notation() {
    let mut s = String::new();
    write_decimal(&mut s, 0);
    assert_eq!(s, "0");
    let mut s = String::from("n=");
    write_decimal(&mut s, 1234567890);
    assert_eq!(s, "n=1234567890");
    let mut s = String::new();
    write_decimal(&mut s, u64::MAX);
    assert_eq!(s, "18446744073709551615");
}
