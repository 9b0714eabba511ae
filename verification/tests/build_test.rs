use seqgraph::{Graph, Handle};

fn h(node_id: u64, is_forward: bool) -> Handle {
    Handle { node_id, is_forward }
}

#[test]
fn test_build_empty() {
    let graph = Graph::build(Vec::new(), Vec::new(), Vec::new()).expect("no records, no fault");
    assert_eq!(graph.node_count(), 0);
    assert!(graph.get_path_names().is_empty());
    assert_eq!(graph.get_node_sequence(1), "");
    assert!(graph.project("x", 0).is_none());
}

#[test]
fn test_build_duplicate_node_id() {
    let nodes = vec![(1u64, "GAT".to_string()), (1u64, "TACA".to_string())];
    let err = Graph::build(nodes, Vec::new(), Vec::new()).err().expect("duplicate id refused");
    assert_eq!(err.0, "duplicate node id");
}

#[test]
fn test_build_duplicate_path_name() {
    let nodes = vec![(1u64, "GAT".to_string())];
    let paths = vec![
        ("x".to_string(), vec![h(1, true)]),
        ("x".to_string(), vec![h(1, false)]),
    ];
    let err = Graph::build(nodes, Vec::new(), paths).err().expect("duplicate name refused");
    assert_eq!(err.0, "duplicate path name");
    assert_eq!(err.message(), "duplicate path name");
}

/// Edges and steps may refer to ids with no node record: such nodes read as
/// empty, with length 0, and contribute nothing to path lengths.
#[test]
fn test_build_accepts_unknown_references() {
    let nodes = vec![(1u64, "GAT".to_string())];
    let edges = vec![(h(1, true), h(7, true))];
    let paths = vec![("x".to_string(), vec![h(1, true), h(7, true)])];
    let graph = Graph::build(nodes, edges, paths).expect("unknown references are not a fault");
    assert_eq!(graph.get_node_len(7), 0);
    assert_eq!(graph.get_path_length("x"), Some(3));
    let succs = graph.get_successors(1);
    assert_eq!(succs.len(), 1);
    assert_eq!(succs[0].to_node, 7);
}
