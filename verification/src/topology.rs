//! Topology traversal: following edges from an oriented handle, and the
//! two-strand successor and predecessor sweeps.

use vstd::prelude::*;

use crate::graph::Graph;
use crate::handle::{Edge, Handle};
use crate::model::{
    edge_sources_into, edge_targets_from, follow_of, predecessors_of, sources_into_of,
    successors_of,
};

verus! {

/// Collects the handles reachable from `h` across the stored edge records.
fn collect_follow(edges: &Vec<(Handle, Handle)>, h: Handle) -> (r: Vec<Handle>)
    ensures
        r@ == follow_of(edges@, h),
{
    let hf = h.reverse();
    let mut out: Vec<Handle> = Vec::new();
    let mut i: usize = 0;
    while i < edges.len()
        invariant
            i <= edges.len(),
            hf == h.flipped(),
            out@ == follow_of(edges@.take(i as int), h),
        decreases edges.len() - i,
    {
        let e = edges[i];
        if e.0 == h {
            out.push(e.1);
        } else if e.1 == hf {
            out.push(e.0.reverse());
        }
        proof {
            assert(edges@.take(i + 1).drop_last() =~= edges@.take(i as int));
            assert(edges@.take(i + 1).last() == edges@[i as int]);
            assert(out@ =~= follow_of(edges@.take(i + 1), h));
        }
        i = i + 1;
    }
    proof {
        assert(edges@.take(edges@.len() as int) =~= edges@);
    }
    out
}

/// Collects the handles with an edge into `t` across the stored records.
fn collect_sources(edges: &Vec<(Handle, Handle)>, t: Handle) -> (r: Vec<Handle>)
    ensures
        r@ == sources_into_of(edges@, t),
{
    let tf = t.reverse();
    let mut out: Vec<Handle> = Vec::new();
    let mut i: usize = 0;
    while i < edges.len()
        invariant
            i <= edges.len(),
            tf == t.flipped(),
            out@ == sources_into_of(edges@.take(i as int), t),
        decreases edges.len() - i,
    {
        let e = edges[i];
        if e.1 == t {
            out.push(e.0);
        } else if e.0 == tf {
            out.push(e.1.reverse());
        }
        proof {
            assert(edges@.take(i + 1).drop_last() =~= edges@.take(i as int));
            assert(edges@.take(i + 1).last() == edges@[i as int]);
            assert(out@ =~= sources_into_of(edges@.take(i + 1), t));
        }
        i = i + 1;
    }
    proof {
        assert(edges@.take(edges@.len() as int) =~= edges@);
    }
    out
}

impl Graph {
    /// Returns the adjacency list recorded for exactly this oriented handle:
    /// the target of every record leaving `handle`, and the
    /// reverse-complement view of every record arriving at
    /// `handle.reverse()`, in record order.
    pub fn follow_edges(&self, handle: Handle) -> (r: Vec<Handle>)
        ensures
            r@ == follow_of(self@.edges, handle),
    {
        proof {
            self.lemma_view_parts();
        }
        collect_follow(&self.edges, handle)
    }

    /// Returns the successor records of a node: the union of
    /// [`Graph::follow_edges`] over both of its strands, forward strand
    /// first, each target reported with the orientation of the handle that
    /// produced it. Empty for an unknown id or an isolated node.
    pub fn get_successors(&self, node_id: u64) -> (r: Vec<Edge>)
        ensures
            r@ == successors_of(self@.edges, node_id),
    {
        proof {
            self.lemma_view_parts();
        }
        let fwd = collect_follow(&self.edges, Handle { node_id, is_forward: true });
        let bwd = collect_follow(&self.edges, Handle { node_id, is_forward: false });
        let mut out: Vec<Edge> = Vec::new();
        let mut i: usize = 0;
        while i < fwd.len()
            invariant
                i <= fwd.len(),
                out@.len() == i,
                forall|k: int|
                    0 <= k < i ==> out@[k] == (Edge {
                        to_node: fwd@[k].node_id,
                        from_orientation: true,
                        to_orientation: fwd@[k].is_forward,
                    }),
            decreases fwd.len() - i,
        {
            let t = fwd[i];
            out.push(Edge { to_node: t.node_id, from_orientation: true, to_orientation: t.is_forward });
            i = i + 1;
        }
        let mut j: usize = 0;
        while j < bwd.len()
            invariant
                j <= bwd.len(),
                out@.len() == fwd@.len() + j,
                forall|k: int|
                    0 <= k < fwd@.len() ==> out@[k] == (Edge {
                        to_node: fwd@[k].node_id,
                        from_orientation: true,
                        to_orientation: fwd@[k].is_forward,
                    }),
                forall|k: int|
                    0 <= k < j ==> out@[fwd@.len() + k] == (Edge {
                        to_node: bwd@[k].node_id,
                        from_orientation: false,
                        to_orientation: bwd@[k].is_forward,
                    }),
            decreases bwd.len() - j,
        {
            let t = bwd[j];
            out.push(Edge { to_node: t.node_id, from_orientation: false, to_orientation: t.is_forward });
            j = j + 1;
        }
        proof {
            assert(out@ =~= successors_of(self@.edges, node_id));
        }
        out
    }

    /// Returns the predecessor records of a node: for each strand of the
    /// node, forward first, every discovered incoming edge, reported with
    /// `to_node` the queried node and the orientations of the edge's source
    /// and target handles. Empty for an unknown id or an isolated node.
    pub fn get_predecessors(&self, node_id: u64) -> (r: Vec<Edge>)
        ensures
            r@ == predecessors_of(self@.edges, node_id),
    {
        proof {
            self.lemma_view_parts();
        }
        let into_rev = collect_sources(&self.edges, Handle { node_id, is_forward: false });
        let into_fwd = collect_sources(&self.edges, Handle { node_id, is_forward: true });
        let mut out: Vec<Edge> = Vec::new();
        let mut i: usize = 0;
        while i < into_rev.len()
            invariant
                i <= into_rev.len(),
                out@.len() == i,
                forall|k: int|
                    0 <= k < i ==> out@[k] == (Edge {
                        to_node: node_id,
                        from_orientation: into_rev@[k].is_forward,
                        to_orientation: false,
                    }),
            decreases into_rev.len() - i,
        {
            let s = into_rev[i];
            out.push(Edge { to_node: node_id, from_orientation: s.is_forward, to_orientation: false });
            i = i + 1;
        }
        let mut j: usize = 0;
        while j < into_fwd.len()
            invariant
                j <= into_fwd.len(),
                out@.len() == into_rev@.len() + j,
                forall|k: int|
                    0 <= k < into_rev@.len() ==> out@[k] == (Edge {
                        to_node: node_id,
                        from_orientation: into_rev@[k].is_forward,
                        to_orientation: false,
                    }),
                forall|k: int|
                    0 <= k < j ==> out@[into_rev@.len() + k] == (Edge {
                        to_node: node_id,
                        from_orientation: into_fwd@[k].is_forward,
                        to_orientation: true,
                    }),
            decreases into_fwd.len() - j,
        {
            let s = into_fwd[j];
            out.push(Edge { to_node: node_id, from_orientation: s.is_forward, to_orientation: true });
            j = j + 1;
        }
        proof {
            assert(out@ =~= predecessors_of(self@.edges, node_id));
        }
        out
    }
}

// ------------------------------------------------------------------
// Containment lemmas: what one stored record contributes is reachable
// ------------------------------------------------------------------

/// A target contributed by the record at index `i` appears in `follow_of`.
pub(crate) proof fn lemma_follow_contains(
    edges: Seq<(Handle, Handle)>,
    h: Handle,
    i: int,
    t: Handle,
)
    requires
        0 <= i < edges.len(),
        edge_targets_from(edges[i], h).contains(t),
    ensures
        follow_of(edges, h).contains(t),
    decreases edges.len(),
{
    if i == edges.len() - 1 {
        let a = follow_of(edges.drop_last(), h);
        let b = edge_targets_from(edges.last(), h);
        let k = choose|k: int| 0 <= k < b.len() && b[k] == t;
        assert(follow_of(edges, h)[a.len() + k] == t);
    } else {
        assert(edges.drop_last()[i] == edges[i]);
        lemma_follow_contains(edges.drop_last(), h, i, t);
        let a = follow_of(edges.drop_last(), h);
        let k = choose|k: int| 0 <= k < a.len() && a[k] == t;
        assert(follow_of(edges, h)[k] == t);
    }
}

/// A source contributed by the record at index `i` appears in
/// `sources_into_of`.
pub(crate) proof fn lemma_sources_contains(
    edges: Seq<(Handle, Handle)>,
    t: Handle,
    i: int,
    s: Handle,
)
    requires
        0 <= i < edges.len(),
        edge_sources_into(edges[i], t).contains(s),
    ensures
        sources_into_of(edges, t).contains(s),
    decreases edges.len(),
{
    if i == edges.len() - 1 {
        let a = sources_into_of(edges.drop_last(), t);
        let b = edge_sources_into(edges.last(), t);
        let k = choose|k: int| 0 <= k < b.len() && b[k] == s;
        assert(sources_into_of(edges, t)[a.len() + k] == s);
    } else {
        assert(edges.drop_last()[i] == edges[i]);
        lemma_sources_contains(edges.drop_last(), t, i, s);
        let a = sources_into_of(edges.drop_last(), t);
        let k = choose|k: int| 0 <= k < a.len() && a[k] == s;
        assert(sources_into_of(edges, t)[k] == s);
    }
}

/// A handle reachable from a strand of a node yields its successor record.
pub(crate) proof fn lemma_successors_contains(
    edges: Seq<(Handle, Handle)>,
    node_id: u64,
    hq: Handle,
    t: Handle,
)
    requires
        hq.node_id == node_id,
        follow_of(edges, hq).contains(t),
    ensures
        successors_of(edges, node_id).contains(
            Edge {
                to_node: t.node_id,
                from_orientation: hq.is_forward,
                to_orientation: t.is_forward,
            },
        ),
{
    let a = follow_of(edges, Handle { node_id, is_forward: true });
    let f = follow_of(edges, hq);
    let k = choose|k: int| 0 <= k < f.len() && f[k] == t;
    if hq.is_forward {
        assert(hq == Handle { node_id, is_forward: true });
        assert(successors_of(edges, node_id)[k] == Edge {
            to_node: t.node_id,
            from_orientation: hq.is_forward,
            to_orientation: t.is_forward,
        });
    } else {
        assert(hq == Handle { node_id, is_forward: false });
        assert(successors_of(edges, node_id)[a.len() + k] == Edge {
            to_node: t.node_id,
            from_orientation: hq.is_forward,
            to_orientation: t.is_forward,
        });
    }
}

/// A handle with an edge into a strand of a node yields its predecessor
/// record.
pub(crate) proof fn lemma_predecessors_contains(
    edges: Seq<(Handle, Handle)>,
    node_id: u64,
    tq: Handle,
    s: Handle,
)
    requires
        tq.node_id == node_id,
        sources_into_of(edges, tq).contains(s),
    ensures
        predecessors_of(edges, node_id).contains(
            Edge {
                to_node: node_id,
                from_orientation: s.is_forward,
                to_orientation: tq.is_forward,
            },
        ),
{
    let a = sources_into_of(edges, Handle { node_id, is_forward: false });
    let f = sources_into_of(edges, tq);
    let k = choose|k: int| 0 <= k < f.len() && f[k] == s;
    if tq.is_forward {
        assert(tq == Handle { node_id, is_forward: true });
        assert(predecessors_of(edges, node_id)[a.len() + k] == Edge {
            to_node: node_id,
            from_orientation: s.is_forward,
            to_orientation: tq.is_forward,
        });
    } else {
        assert(tq == Handle { node_id, is_forward: false });
        assert(predecessors_of(edges, node_id)[k] == Edge {
            to_node: node_id,
            from_orientation: s.is_forward,
            to_orientation: tq.is_forward,
        });
    }
}

} // verus!
