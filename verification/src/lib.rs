//! An in-memory, query-only engine for bidirected sequence graphs:
//! DNA fragments as nodes, orientation-aware adjacencies as edges, and
//! named linear walks (haplotypes or references) as paths.
//!
//! A [`Graph`] is built once from plain records by [`Graph::build`] and is
//! immutable afterwards. Every query is a pure read, specified against a
//! mathematical view ([`GraphView`]): a map from node id to its forward
//! sequence, the sequence of stored edge records, and the named paths.
//! An edge is stored once per physical adjacency but is queryable from both
//! strands: the record `(u, ou) -> (v, ov)` also surfaces as its
//! reverse-complement equivalent `(v, !ov) -> (u, !ou)`.
//!
//! Unknown names and ids are answered with empty or absent results, never
//! with an error: only [`Graph::build`] can fail.

mod builder;
mod graph;
mod handle;
mod laws;
mod model;
mod path_query;
mod sequence;
mod topology;

pub use graph::Graph;
pub use handle::{Edge, Error, Handle, PathPosition};
pub use laws::{
    lemma_edge_bidirected_predecessors, lemma_edge_bidirected_successors,
    lemma_node_sequence_length, lemma_project_out_of_range, lemma_project_path_start,
    lemma_project_step_boundary, lemma_project_within_range, lemma_reload_deterministic,
};
pub use model::{
    buildable, built_view, edge_sources_into, edge_targets_from, find_path, follow_of,
    handle_sequence_of, has_transition, node_len_of, node_map_of, node_sequence_of,
    nodes_input_view, path_len_of,
    path_names_of, paths_input_view, paths_on_edge_of, paths_on_node_of, predecessors_of,
    project_of, project_steps, reverse_complement_of, sequence_complement_of, sources_into_of,
    successors_of, unique_ids, unique_names, visits_node, GraphView,
};
