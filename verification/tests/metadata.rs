use intel_crashlog::metadata::{Metadata, Time};
use intel_crashlog::node::{Node, NodeType};

#[test]
fn metadata_display_forms() {
    let mut metadata = Metadata::new();
    assert_eq!(metadata.display_string(), "unnamed");

    metadata.computer = Some("host".to_string());
    assert_eq!(metadata.display_string(), "host");

    metadata.time = Some(Time {
        year: 2024,
        month: 3,
        day: 7,
        hour: 9,
        minute: 5,
    });
    assert_eq!(metadata.display_string(), "host-2024-03-07-09-05");

    metadata.computer = None;
    assert_eq!(metadata.display_string(), "2024-03-07-09-05");
}

#[test]
fn node_merge_is_right_biased() {
    let mut left = Node::root();
    left.add(Node::field("shared", 1));
    left.add(Node::section("only_left"));

    let mut right = Node::root();
    right.add(Node::field("shared", 2));
    right.add(Node::field("only_right", 3));

    left.merge(&right);
    assert_eq!(
        left.get("shared").unwrap().kind,
        NodeType::Field { value: 2 }
    );
    assert_eq!(left.get("only_left").unwrap().kind, NodeType::Section);
    assert_eq!(
        left.get("only_right").unwrap().kind,
        NodeType::Field { value: 3 }
    );
    // Insertion order is preserved: matched children stay in place,
    // new ones are appended.
    let names: Vec<&str> = left.children.iter().map(|c| c.name.as_str()).collect();
    assert_eq!(names, ["shared", "only_left", "only_right"]);
}

#[test]
fn record_nodes_fold_ascii_capitals() {
    let node = Node::record("MCA");
    assert_eq!(node.name, "mca");
    assert_eq!(node.kind, NodeType::Record);

    let section = Node::section("PCORE");
    assert_eq!(section.name, "PCORE");
}

#[test]
fn get_by_path_misses() {
    let mut root = Node::root();
    root.add(Node::section("a"));
    assert!(root.get_by_path("a").is_some());
    assert!(root.get_by_path("a.b").is_none());
    assert!(root.get_by_path("b").is_none());
    assert!(root.get_value_by_path("a").is_none());
}
