//! The library's laws, stated and proved once over the graph view that all
//! query contracts speak of.

use vstd::prelude::*;

use crate::handle::{Edge, Handle, PathPosition};
use crate::model::{
    built_view, edge_sources_into, edge_targets_from, find_path, node_len_of, node_sequence_of,
    path_len_of, predecessors_of, project_of, successors_of, GraphView,
};
use crate::path_query::{lemma_project_at, lemma_project_none, lemma_project_some};
use crate::topology::{
    lemma_follow_contains, lemma_predecessors_contains, lemma_sources_contains,
    lemma_successors_contains,
};

verus! {

/// For every node, the reported length is the length of the reported
/// sequence; for an unknown id both are empty, so the two agree on every
/// input.
pub proof fn lemma_node_sequence_length(nodes: Map<u64, Seq<char>>, node_id: u64)
    ensures
        node_len_of(nodes, node_id) == node_sequence_of(nodes, node_id).len(),
{
}

/// Bidirectedness, seen through successor queries: the stored record
/// `(u, ou) -> (v, ov)` at index `i` is discovered from `u`'s node as the
/// successor record `(v, ou, ov)`, and its reverse-complement equivalent
/// `(v, !ov) -> (u, !ou)` from `v`'s node as `(u, !ov, !ou)`.
pub proof fn lemma_edge_bidirected_successors(edges: Seq<(Handle, Handle)>, i: int)
    requires
        0 <= i < edges.len(),
    ensures
        successors_of(edges, edges[i].0.node_id).contains(
            Edge {
                to_node: edges[i].1.node_id,
                from_orientation: edges[i].0.is_forward,
                to_orientation: edges[i].1.is_forward,
            },
        ),
        successors_of(edges, edges[i].1.node_id).contains(
            Edge {
                to_node: edges[i].0.node_id,
                from_orientation: !edges[i].1.is_forward,
                to_orientation: !edges[i].0.is_forward,
            },
        ),
{
    let u = edges[i].0;
    let v = edges[i].1;
    assert(edge_targets_from(edges[i], u)[0] == v);
    assert(edge_targets_from(edges[i], u).contains(v));
    lemma_follow_contains(edges, u, i, v);
    lemma_successors_contains(edges, u.node_id, u, v);
    let hq = v.flipped();
    if edges[i].0 == hq {
        assert(edge_targets_from(edges[i], hq)[0] == v);
        assert(edge_targets_from(edges[i], hq).contains(v));
        lemma_follow_contains(edges, hq, i, v);
        lemma_successors_contains(edges, v.node_id, hq, v);
        assert((Edge {
            to_node: v.node_id,
            from_orientation: hq.is_forward,
            to_orientation: v.is_forward,
        }) == (Edge {
            to_node: u.node_id,
            from_orientation: !v.is_forward,
            to_orientation: !u.is_forward,
        }));
    } else {
        assert(edges[i].1 == hq.flipped());
        assert(edge_targets_from(edges[i], hq)[0] == u.flipped());
        assert(edge_targets_from(edges[i], hq).contains(u.flipped()));
        lemma_follow_contains(edges, hq, i, u.flipped());
        lemma_successors_contains(edges, v.node_id, hq, u.flipped());
    }
}

/// Bidirectedness, seen through predecessor queries: the stored record
/// `(u, ou) -> (v, ov)` at index `i` is discovered as an incoming edge of
/// `v`'s node with orientations `(ou, ov)`, and its reverse-complement
/// equivalent as an incoming edge of `u`'s node with orientations
/// `(!ov, !ou)`.
pub proof fn lemma_edge_bidirected_predecessors(edges: Seq<(Handle, Handle)>, i: int)
    requires
        0 <= i < edges.len(),
    ensures
        predecessors_of(edges, edges[i].1.node_id).contains(
            Edge {
                to_node: edges[i].1.node_id,
                from_orientation: edges[i].0.is_forward,
                to_orientation: edges[i].1.is_forward,
            },
        ),
        predecessors_of(edges, edges[i].0.node_id).contains(
            Edge {
                to_node: edges[i].0.node_id,
                from_orientation: !edges[i].1.is_forward,
                to_orientation: !edges[i].0.is_forward,
            },
        ),
{
    let u = edges[i].0;
    let v = edges[i].1;
    assert(edge_sources_into(edges[i], v)[0] == u);
    assert(edge_sources_into(edges[i], v).contains(u));
    lemma_sources_contains(edges, v, i, u);
    lemma_predecessors_contains(edges, v.node_id, v, u);
    let tq = u.flipped();
    if edges[i].1 == tq {
        assert(edge_sources_into(edges[i], tq)[0] == u);
        assert(edge_sources_into(edges[i], tq).contains(u));
        lemma_sources_contains(edges, tq, i, u);
        lemma_predecessors_contains(edges, u.node_id, tq, u);
        assert((Edge {
            to_node: u.node_id,
            from_orientation: u.is_forward,
            to_orientation: tq.is_forward,
        }) == (Edge {
            to_node: u.node_id,
            from_orientation: !v.is_forward,
            to_orientation: !u.is_forward,
        }));
    } else {
        assert(edges[i].0 == tq.flipped());
        assert(edge_sources_into(edges[i], tq)[0] == v.flipped());
        assert(edge_sources_into(edges[i], tq).contains(v.flipped()));
        lemma_sources_contains(edges, tq, i, v.flipped());
        lemma_predecessors_contains(edges, u.node_id, tq, v.flipped());
    }
}

/// A position exactly at the cumulative length of a path's first `k` steps
/// — a step boundary — projects to step `k` at offset 0, provided step
/// `k`'s node has a nonempty sequence. (A boundary followed by zero-length
/// steps resolves to the first following step with sequence.)
pub proof fn lemma_project_step_boundary(
    nodes: Map<u64, Seq<char>>,
    paths: Seq<(Seq<char>, Seq<Handle>)>,
    name: Seq<char>,
    k: int,
)
    requires
        find_path(paths, name) is Some,
        0 <= k < find_path(paths, name).unwrap().len(),
        node_len_of(nodes, find_path(paths, name).unwrap()[k].node_id) > 0,
    ensures
        project_of(
            nodes,
            paths,
            name,
            path_len_of(nodes, find_path(paths, name).unwrap().take(k)),
        ) == Some(
            PathPosition {
                node_id: find_path(paths, name).unwrap()[k].node_id,
                offset: 0,
                is_forward: find_path(paths, name).unwrap()[k].is_forward,
            },
        ),
{
    let steps = find_path(paths, name).unwrap();
    let pos = path_len_of(nodes, steps.take(k));
    lemma_project_at(nodes, steps, pos, k);
}

/// Projection of coordinate 0 lands on the path's first step at offset 0,
/// provided the first step's node has a nonempty sequence.
pub proof fn lemma_project_path_start(
    nodes: Map<u64, Seq<char>>,
    paths: Seq<(Seq<char>, Seq<Handle>)>,
    name: Seq<char>,
)
    requires
        find_path(paths, name) is Some,
        find_path(paths, name).unwrap().len() > 0,
        node_len_of(nodes, find_path(paths, name).unwrap()[0].node_id) > 0,
    ensures
        project_of(nodes, paths, name, 0) == Some(
            PathPosition {
                node_id: find_path(paths, name).unwrap()[0].node_id,
                offset: 0,
                is_forward: find_path(paths, name).unwrap()[0].is_forward,
            },
        ),
{
    let steps = find_path(paths, name).unwrap();
    assert(steps.take(0) =~= Seq::<Handle>::empty());
    lemma_project_step_boundary(nodes, paths, name, 0);
}

/// Success is owed within bounds: every coordinate strictly below the
/// path's total length projects to a position.
pub proof fn lemma_project_within_range(
    nodes: Map<u64, Seq<char>>,
    paths: Seq<(Seq<char>, Seq<Handle>)>,
    name: Seq<char>,
    pos: nat,
)
    requires
        find_path(paths, name) is Some,
        pos < path_len_of(nodes, find_path(paths, name).unwrap()),
    ensures
        project_of(nodes, paths, name, pos) is Some,
{
    lemma_project_some(nodes, find_path(paths, name).unwrap(), pos);
}

/// A coordinate at or past the path's total length — or any coordinate on
/// an unknown name — projects to nothing.
pub proof fn lemma_project_out_of_range(
    nodes: Map<u64, Seq<char>>,
    paths: Seq<(Seq<char>, Seq<Handle>)>,
    name: Seq<char>,
    pos: nat,
)
    requires
        match find_path(paths, name) {
            None => true,
            Some(steps) => pos >= path_len_of(nodes, steps),
        },
    ensures
        project_of(nodes, paths, name, pos) is None,
{
    match find_path(paths, name) {
        None => {},
        Some(steps) => {
            lemma_project_none(nodes, steps, pos);
        },
    }
}

/// Reload determinism: the view of a built graph is a function of the
/// loader's records alone, so two graphs built from equal records are equal
/// as views and answer every query alike.
pub proof fn lemma_reload_deterministic(
    g1: GraphView,
    g2: GraphView,
    nodes: Seq<(u64, Seq<char>)>,
    edges: Seq<(Handle, Handle)>,
    paths: Seq<(Seq<char>, Seq<Handle>)>,
)
    requires
        g1 == built_view(nodes, edges, paths),
        g2 == built_view(nodes, edges, paths),
    ensures
        g1 == g2,
        forall|node_id: u64|
            node_sequence_of(g1.nodes, node_id) == node_sequence_of(g2.nodes, node_id),
        forall|node_id: u64| successors_of(g1.edges, node_id) == successors_of(g2.edges, node_id),
        forall|node_id: u64|
            predecessors_of(g1.edges, node_id) == predecessors_of(g2.edges, node_id),
        forall|name: Seq<char>, pos: nat|
            project_of(g1.nodes, g1.paths, name, pos) == project_of(g2.nodes, g2.paths, name, pos),
{
}

} // verus!
