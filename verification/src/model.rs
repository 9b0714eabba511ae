//! The mathematical model of a graph: the view type and the specification
//! functions that every query contract is stated against.

use vstd::prelude::*;

use crate::handle::{Edge, Handle, PathPosition};

verus! {

/// The abstract value of a [`crate::Graph`].
///
/// `nodes` maps each known node id to its forward-strand sequence. `edges`
/// holds the stored adjacency records, one per physical adjacency, in their
/// recorded order. `paths` holds each path's name and its ordered steps, in
/// their recorded order.
pub struct GraphView {
    pub nodes: Map<u64, Seq<char>>,
    pub edges: Seq<(Handle, Handle)>,
    pub paths: Seq<(Seq<char>, Seq<Handle>)>,
}

// ------------------------------------------------------------------
// Sequences
// ------------------------------------------------------------------

/// The forward sequence of a node; empty for an unknown id.
pub open spec fn node_sequence_of(nodes: Map<u64, Seq<char>>, node_id: u64) -> Seq<char> {
    if nodes.dom().contains(node_id) {
        nodes[node_id]
    } else {
        Seq::<char>::empty()
    }
}

/// The length of a node's sequence; zero for an unknown id.
pub open spec fn node_len_of(nodes: Map<u64, Seq<char>>, node_id: u64) -> nat {
    node_sequence_of(nodes, node_id).len()
}

/// The Watson–Crick complement of one base. `A`/`T` and `C`/`G` are swapped;
/// every other character (such as `N`) is its own complement.
pub open spec fn sequence_complement_of(c: char) -> char {
    if c == 'A' {
        'T'
    } else if c == 'T' {
        'A'
    } else if c == 'C' {
        'G'
    } else if c == 'G' {
        'C'
    } else {
        c
    }
}

/// The reverse complement of a sequence: reversed order, each base
/// complemented.
pub open spec fn reverse_complement_of(s: Seq<char>) -> Seq<char> {
    Seq::new(s.len(), |i: int| sequence_complement_of(s[s.len() - 1 - i]))
}

/// The sequence of a node as traversed through `h`: the stored sequence on
/// the forward strand, its reverse complement on the reverse strand.
pub open spec fn handle_sequence_of(nodes: Map<u64, Seq<char>>, h: Handle) -> Seq<char> {
    if h.is_forward {
        node_sequence_of(nodes, h.node_id)
    } else {
        reverse_complement_of(node_sequence_of(nodes, h.node_id))
    }
}

// ------------------------------------------------------------------
// Topology
// ------------------------------------------------------------------

/// The handles that one stored edge record makes reachable from `h`.
///
/// A record `from -> to` is traversed from `from` directly, and from
/// `to.flipped()` as its reverse-complement equivalent
/// `to.flipped() -> from.flipped()`. Each record contributes at most one
/// target per queried handle.
pub open spec fn edge_targets_from(e: (Handle, Handle), h: Handle) -> Seq<Handle> {
    if e.0 == h {
        seq![e.1]
    } else if e.1 == h.flipped() {
        seq![e.0.flipped()]
    } else {
        Seq::<Handle>::empty()
    }
}

/// All handles reachable from `h` across the stored edge records, in record
/// order.
pub open spec fn follow_of(edges: Seq<(Handle, Handle)>, h: Handle) -> Seq<Handle>
    decreases edges.len(),
{
    if edges.len() == 0 {
        Seq::<Handle>::empty()
    } else {
        follow_of(edges.drop_last(), h) + edge_targets_from(edges.last(), h)
    }
}

/// The source handles that one stored edge record sends into the handle `t`.
pub open spec fn edge_sources_into(e: (Handle, Handle), t: Handle) -> Seq<Handle> {
    if e.1 == t {
        seq![e.0]
    } else if e.0 == t.flipped() {
        seq![e.1.flipped()]
    } else {
        Seq::<Handle>::empty()
    }
}

/// All handles with an edge into `t` across the stored records, in record
/// order.
pub open spec fn sources_into_of(edges: Seq<(Handle, Handle)>, t: Handle) -> Seq<Handle>
    decreases edges.len(),
{
    if edges.len() == 0 {
        Seq::<Handle>::empty()
    } else {
        sources_into_of(edges.drop_last(), t) + edge_sources_into(edges.last(), t)
    }
}

/// The successor records of a node: the union of `follow_of` over both of
/// its strands, the forward strand first, each target reported with the
/// orientation of the handle that produced it.
pub open spec fn successors_of(edges: Seq<(Handle, Handle)>, node_id: u64) -> Seq<Edge> {
    follow_of(edges, Handle { node_id, is_forward: true }).map_values(
        |t: Handle| Edge { to_node: t.node_id, from_orientation: true, to_orientation: t.is_forward },
    ) + follow_of(edges, Handle { node_id, is_forward: false }).map_values(
        |t: Handle| Edge { to_node: t.node_id, from_orientation: false, to_orientation: t.is_forward },
    )
}

/// The predecessor records of a node: for each strand `h` of the node, the
/// sources of edges into `h.flipped()`, the forward strand of the node
/// queried first. Each discovered edge `s -> h.flipped()` is reported with
/// `to_node` the queried node, `from_orientation` the source's strand and
/// `to_orientation` the strand of the reached handle.
pub open spec fn predecessors_of(edges: Seq<(Handle, Handle)>, node_id: u64) -> Seq<Edge> {
    sources_into_of(edges, Handle { node_id, is_forward: false }).map_values(
        |s: Handle| Edge { to_node: node_id, from_orientation: s.is_forward, to_orientation: false },
    ) + sources_into_of(edges, Handle { node_id, is_forward: true }).map_values(
        |s: Handle| Edge { to_node: node_id, from_orientation: s.is_forward, to_orientation: true },
    )
}

// ------------------------------------------------------------------
// Paths
// ------------------------------------------------------------------

/// The steps of the first path with the given name, if any.
pub open spec fn find_path(paths: Seq<(Seq<char>, Seq<Handle>)>, name: Seq<char>) -> Option<
    Seq<Handle>,
>
    decreases paths.len(),
{
    if paths.len() == 0 {
        None
    } else if paths[0].0 == name {
        Some(paths[0].1)
    } else {
        find_path(paths.skip(1), name)
    }
}

/// The names of all paths, in recorded order.
pub open spec fn path_names_of(paths: Seq<(Seq<char>, Seq<Handle>)>) -> Seq<Seq<char>> {
    paths.map_values(|p: (Seq<char>, Seq<Handle>)| p.0)
}

/// The total length of a walk: the sum of the lengths of the nodes its steps
/// traverse.
pub open spec fn path_len_of(nodes: Map<u64, Seq<char>>, steps: Seq<Handle>) -> nat
    decreases steps.len(),
{
    if steps.len() == 0 {
        0
    } else {
        node_len_of(nodes, steps[0].node_id) + path_len_of(nodes, steps.skip(1))
    }
}

/// Projects a 0-based offset along a walk to the step it falls on.
///
/// The offset is consumed step by step, so a position exactly at a step
/// boundary belongs to the later step at offset 0, and a position at or past
/// the walk's total length is absent. The reported offset counts along the
/// node as traversed (see [`PathPosition`]).
pub open spec fn project_steps(
    nodes: Map<u64, Seq<char>>,
    steps: Seq<Handle>,
    pos: nat,
) -> Option<PathPosition>
    decreases steps.len(),
{
    if steps.len() == 0 {
        None
    } else if pos < node_len_of(nodes, steps[0].node_id) {
        Some(
            PathPosition {
                node_id: steps[0].node_id,
                offset: pos as u64,
                is_forward: steps[0].is_forward,
            },
        )
    } else {
        project_steps(nodes, steps.skip(1), (pos - node_len_of(nodes, steps[0].node_id)) as nat)
    }
}

/// Projects a 0-based path coordinate to a graph position; absent when the
/// name is unknown or the position is out of range.
pub open spec fn project_of(
    nodes: Map<u64, Seq<char>>,
    paths: Seq<(Seq<char>, Seq<Handle>)>,
    name: Seq<char>,
    pos: nat,
) -> Option<PathPosition> {
    match find_path(paths, name) {
        None => None,
        Some(steps) => project_steps(nodes, steps, pos),
    }
}

/// Whether a walk has a step on the given node, on either strand.
pub open spec fn visits_node(steps: Seq<Handle>, node_id: u64) -> bool {
    exists|i: int| 0 <= i < steps.len() && (#[trigger] steps[i]).node_id == node_id
}

/// The names of the paths with a step on the given node, in recorded order,
/// each name once per path.
pub open spec fn paths_on_node_of(
    paths: Seq<(Seq<char>, Seq<Handle>)>,
    node_id: u64,
) -> Seq<Seq<char>>
    decreases paths.len(),
{
    if paths.len() == 0 {
        Seq::<Seq<char>>::empty()
    } else {
        paths_on_node_of(paths.drop_last(), node_id) + (if visits_node(
            paths.last().1,
            node_id,
        ) {
            seq![paths.last().0]
        } else {
            Seq::<Seq<char>>::empty()
        })
    }
}

/// Whether a walk contains the exact consecutive oriented transition
/// `from` then `to`.
pub open spec fn has_transition(steps: Seq<Handle>, from: Handle, to: Handle) -> bool {
    exists|i: int|
        0 <= i && i + 1 < steps.len() && #[trigger] steps[i] == from && steps[i + 1] == to
}

/// The names of the paths containing the exact consecutive oriented
/// transition `from` then `to`, in recorded order, each name once per path.
pub open spec fn paths_on_edge_of(
    paths: Seq<(Seq<char>, Seq<Handle>)>,
    from: Handle,
    to: Handle,
) -> Seq<Seq<char>>
    decreases paths.len(),
{
    if paths.len() == 0 {
        Seq::<Seq<char>>::empty()
    } else {
        paths_on_edge_of(paths.drop_last(), from, to) + (if has_transition(
            paths.last().1,
            from,
            to,
        ) {
            seq![paths.last().0]
        } else {
            Seq::<Seq<char>>::empty()
        })
    }
}

// ------------------------------------------------------------------
// Construction
// ------------------------------------------------------------------

/// The node records of the builder's input, with sequences abstracted to
/// their character sequences.
pub open spec fn nodes_input_view(nodes: Seq<(u64, String)>) -> Seq<(u64, Seq<char>)> {
    nodes.map_values(|p: (u64, String)| (p.0, p.1@))
}

/// The path records of the builder's input, with names abstracted to their
/// character sequences.
pub open spec fn paths_input_view(paths: Seq<(String, Vec<Handle>)>) -> Seq<
    (Seq<char>, Seq<Handle>),
> {
    paths.map_values(|p: (String, Vec<Handle>)| (p.0@, p.1@))
}

/// The node map that a list of node records denotes.
pub open spec fn node_map_of(nodes: Seq<(u64, Seq<char>)>) -> Map<u64, Seq<char>>
    decreases nodes.len(),
{
    if nodes.len() == 0 {
        Map::<u64, Seq<char>>::empty()
    } else {
        node_map_of(nodes.drop_last()).insert(nodes.last().0, nodes.last().1)
    }
}

/// Whether the node records carry pairwise distinct ids.
pub open spec fn unique_ids(nodes: Seq<(u64, Seq<char>)>) -> bool {
    forall|i: int, j: int|
        0 <= i < j < nodes.len() ==> (#[trigger] nodes[i]).0 != (#[trigger] nodes[j]).0
}

/// Whether the path records carry pairwise distinct names.
pub open spec fn unique_names(paths: Seq<(Seq<char>, Seq<Handle>)>) -> bool {
    forall|i: int, j: int|
        0 <= i < j < paths.len() ==> (#[trigger] paths[i]).0 != (#[trigger] paths[j]).0
}

/// Whether [`crate::Graph::build`] accepts these records: node ids pairwise
/// distinct, path names pairwise distinct, and every path's total length
/// within `u64`.
pub open spec fn buildable(
    nodes: Seq<(u64, Seq<char>)>,
    edges: Seq<(Handle, Handle)>,
    paths: Seq<(Seq<char>, Seq<Handle>)>,
) -> bool {
    &&& unique_ids(nodes)
    &&& unique_names(paths)
    &&& forall|i: int|
        0 <= i < paths.len() ==> path_len_of(node_map_of(nodes), (#[trigger] paths[i]).1)
            <= u64::MAX
}

/// The view that [`crate::Graph::build`] gives a graph built from these
/// records: a pure function of the records alone.
pub open spec fn built_view(
    nodes: Seq<(u64, Seq<char>)>,
    edges: Seq<(Handle, Handle)>,
    paths: Seq<(Seq<char>, Seq<Handle>)>,
) -> GraphView {
    GraphView { nodes: node_map_of(nodes), edges, paths }
}

} // verus!
