use seqgraph::{Graph, Handle};

fn h(node_id: u64, is_forward: bool) -> Handle {
    Handle { node_id, is_forward }
}

fn setup_graph() -> Graph {
    let nodes = vec![
        (1u64, "GATTACA".to_string()),
        (2u64, "T".to_string()),
        (3u64, "A".to_string()),
        (4u64, "GTC".to_string()),
    ];
    let edges = vec![
        (h(1, true), h(2, true)),
        (h(1, true), h(3, true)),
        (h(2, true), h(4, true)),
        (h(3, true), h(4, true)),
    ];
    let paths = vec![
        ("x".to_string(), vec![h(1, true), h(2, true), h(4, true)]),
        ("y".to_string(), vec![h(1, true), h(3, true), h(4, true)]),
        ("z".to_string(), vec![h(1, true), h(2, true)]),
    ];
    Graph::build(nodes, edges, paths).expect("fixture records should build")
}

#[test]
fn test_node_count() {
    let graph = setup_graph();
    assert_eq!(graph.node_count(), 4);
}

/// For every known node, the sequence's character count equals the reported
/// length; an unknown id gives the empty sequence and length 0.
#[test]
fn test_sequence_length_agreement() {
    let graph = setup_graph();
    for id in [1u64, 2, 3, 4, 999] {
        let seq = graph.get_node_sequence(id);
        let len = graph.get_node_len(id);
        assert_eq!(seq.chars().count() as u64, len);
    }
}

#[test]
fn test_handle_sequence_reverse_complement() {
    let graph = setup_graph();
    assert_eq!(graph.get_handle_sequence(h(1, true)), "GATTACA");
    assert_eq!(graph.get_handle_sequence(h(1, false)), "TGTAATC");
    assert_eq!(graph.get_handle_sequence(h(2, false)), "A");
    assert_eq!(graph.get_handle_sequence(h(4, false)), "GAC");
    assert_eq!(graph.get_handle_sequence(h(999, false)), "");
}

#[test]
fn test_follow_edges_both_strands() {
    let graph = setup_graph();
    assert_eq!(graph.follow_edges(h(1, true)), vec![h(2, true), h(3, true)]);
    // Nothing was stored leaving the reverse strand of node 1.
    assert_eq!(graph.follow_edges(h(1, false)), Vec::<Handle>::new());
    // The record 1+ -> 2+ surfaces from 2- as its reverse complement 2- -> 1-.
    assert_eq!(graph.follow_edges(h(2, false)), vec![h(1, false)]);
    assert_eq!(graph.follow_edges(h(4, true)), Vec::<Handle>::new());
    assert_eq!(graph.follow_edges(h(4, false)), vec![h(2, false), h(3, false)]);
    assert_eq!(graph.follow_edges(h(999, true)), Vec::<Handle>::new());
}

/// Every stored edge is discoverable as an incoming edge of its target, and
/// its reverse-complement equivalent as an incoming edge of its source.
#[test]
fn test_get_predecessors() {
    let graph = setup_graph();

    // Node 2 is entered by 1+ -> 2+ directly and by 4- -> 2- (the
    // reverse-complement view of 2+ -> 4+).
    let preds_2 = graph.get_predecessors(2);
    assert_eq!(preds_2.len(), 2);
    assert!(preds_2.iter().any(|e| e.to_node == 2 && e.from_orientation && e.to_orientation));
    assert!(preds_2.iter().any(|e| e.to_node == 2 && !e.from_orientation && !e.to_orientation));

    // Node 1 is entered only on its reverse strand, by 2- -> 1- and 3- -> 1-.
    let preds_1 = graph.get_predecessors(1);
    assert_eq!(preds_1.len(), 2);
    assert!(preds_1.iter().all(|e| e.to_node == 1 && !e.from_orientation && !e.to_orientation));

    // Node 4 is entered forward by both stored edges into it.
    let preds_4 = graph.get_predecessors(4);
    assert_eq!(preds_4.len(), 2);
    assert!(preds_4.iter().all(|e| e.to_node == 4 && e.from_orientation && e.to_orientation));

    assert!(graph.get_predecessors(999).is_empty());
}

/// Parallel edges are distinct records and are never deduplicated.
#[test]
fn test_parallel_edges_kept() {
    let nodes = vec![(1u64, "GAT".to_string()), (2u64, "T".to_string())];
    let edges = vec![(h(1, true), h(2, true)), (h(1, true), h(2, true))];
    let graph = Graph::build(nodes, edges, Vec::new()).expect("records should build");
    assert_eq!(graph.follow_edges(h(1, true)), vec![h(2, true), h(2, true)]);
    let succs = graph.get_successors(1);
    assert_eq!(succs.len(), 2);
    assert!(succs.iter().all(|e| e.to_node == 2 && e.from_orientation && e.to_orientation));
}

/// An edge from a node to its own opposite strand is its own
/// reverse-complement equivalent: each query direction reports it once.
#[test]
fn test_self_loop_across_strands() {
    let nodes = vec![(1u64, "GAT".to_string())];
    let edges = vec![(h(1, true), h(1, false))];
    let graph = Graph::build(nodes, edges, Vec::new()).expect("records should build");
    assert_eq!(graph.follow_edges(h(1, true)), vec![h(1, false)]);
    assert_eq!(graph.follow_edges(h(1, false)), Vec::<Handle>::new());
    let succs = graph.get_successors(1);
    assert_eq!(succs.len(), 1);
    assert_eq!((succs[0].to_node, succs[0].from_orientation, succs[0].to_orientation), (1, true, false));
    let preds = graph.get_predecessors(1);
    assert_eq!(preds.len(), 1);
    assert_eq!((preds[0].to_node, preds[0].from_orientation, preds[0].to_orientation), (1, true, false));
}

/// The reported path length is the sum of the step lengths.
#[test]
fn test_path_length_totals() {
    let graph = setup_graph();
    assert_eq!(graph.get_path_length("x"), Some(11)); // 7 + 1 + 3
    assert_eq!(graph.get_path_length("y"), Some(11)); // 7 + 1 + 3
    assert_eq!(graph.get_path_length("z"), Some(8)); // 7 + 1
    assert_eq!(graph.get_path_length("nonexistent_path"), None);
}

#[test]
fn test_get_path_steps() {
    let graph = setup_graph();
    assert_eq!(graph.get_path_steps("x"), vec![h(1, true), h(2, true), h(4, true)]);
    assert_eq!(graph.get_path_steps("nonexistent_path"), Vec::<Handle>::new());
}

#[test]
fn test_get_paths_on_edge() {
    let graph = setup_graph();
    assert_eq!(graph.get_paths_on_edge(h(1, true), h(2, true)), vec!["x", "z"]);
    assert_eq!(graph.get_paths_on_edge(h(2, true), h(4, true)), vec!["x"]);
    assert_eq!(graph.get_paths_on_edge(h(1, true), h(3, true)), vec!["y"]);
    // Only the exact oriented transition matches: no path walks 2- then 1-.
    assert!(graph.get_paths_on_edge(h(2, false), h(1, false)).is_empty());
    assert!(graph.get_paths_on_edge(h(9, true), h(1, true)).is_empty());
}

/// The offset of a reverse step counts along the node as traversed: path
/// position 3 of `w = 2+, 1-` is offset 2 within the reverse complement of
/// node 1, whose base there is `T`.
#[test]
fn test_project_reverse_step_offset() {
    let nodes = vec![(1u64, "GATTACA".to_string()), (2u64, "T".to_string())];
    let paths = vec![("w".to_string(), vec![h(2, true), h(1, false)])];
    let graph = Graph::build(nodes, Vec::new(), paths).expect("records should build");

    let p0 = graph.project("w", 0).expect("start of the path");
    assert_eq!((p0.node_id, p0.offset, p0.is_forward), (2, 0, true));

    let p1 = graph.project("w", 1).expect("start of the reverse step");
    assert_eq!((p1.node_id, p1.offset, p1.is_forward), (1, 0, false));

    let p3 = graph.project("w", 3).expect("inside the reverse step");
    assert_eq!((p3.node_id, p3.offset, p3.is_forward), (1, 2, false));
    let rc = graph.get_handle_sequence(h(1, false));
    assert_eq!(rc.chars().nth(p3.offset as usize), Some('T'));

    assert_eq!(graph.get_path_length("w"), Some(8));
    assert!(graph.project("w", 8).is_none());
}

/// A position at a step boundary belongs to the later step at offset 0; a
/// zero-length step (here: one on an id with no node record) is skipped in
/// favour of the next step with sequence.
#[test]
fn test_project_boundary_zero_length_step() {
    let nodes = vec![(1u64, "GATTACA".to_string()), (2u64, "T".to_string())];
    let paths = vec![("v".to_string(), vec![h(1, true), h(99, true), h(2, true)])];
    let graph = Graph::build(nodes, Vec::new(), paths).expect("records should build");

    assert_eq!(graph.get_path_length("v"), Some(8));

    let p6 = graph.project("v", 6).expect("last base of node 1");
    assert_eq!((p6.node_id, p6.offset), (1, 6));

    let p7 = graph.project("v", 7).expect("boundary resolves forward");
    assert_eq!((p7.node_id, p7.offset), (2, 0));

    assert!(graph.project("v", 8).is_none());
    assert!(graph.project("v", 100).is_none());
}

/// Building twice from the same records answers every query alike.
#[test]
fn test_reload_determinism() {
    let g1 = setup_graph();
    let g2 = setup_graph();

    let mut names_1 = g1.get_path_names();
    let mut names_2 = g2.get_path_names();
    names_1.sort();
    names_2.sort();
    assert_eq!(names_1, names_2);

    for id in [1u64, 2, 3, 4, 999] {
        assert_eq!(g1.get_node_sequence(id), g2.get_node_sequence(id));
        assert_eq!(g1.get_node_len(id), g2.get_node_len(id));
        assert_eq!(g1.get_successors(id), g2.get_successors(id));
        assert_eq!(g1.get_predecessors(id), g2.get_predecessors(id));
        assert_eq!(g1.get_paths_on_node(id), g2.get_paths_on_node(id));
    }
    for name in ["x", "y", "z", "nonexistent_path"] {
        assert_eq!(g1.get_path_length(name), g2.get_path_length(name));
        for pos in [0u64, 5, 7, 8, 10, 11, 100] {
            assert_eq!(g1.project(name, pos), g2.project(name, pos));
        }
    }
}
