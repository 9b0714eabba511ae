//! The plain value types that queries take and return.

use vstd::prelude::*;

verus! {

/// An oriented reference to a node: the node's identifier together with the
/// strand on which the node is traversed. `is_forward` means the stored
/// sequence is read 5'→3'; the reverse strand reads its reverse complement.
#[derive(Clone, Copy, Debug, PartialEq, Eq, Structural)]
pub struct Handle {
    pub node_id: u64,
    pub is_forward: bool,
}

impl Handle {
    /// The same node on the opposite strand.
    pub open spec fn flipped(self) -> Handle {
        Handle { node_id: self.node_id, is_forward: !self.is_forward }
    }

    /// Returns the handle for the same node on the opposite strand.
    pub fn reverse(self) -> (r: Handle)
        ensures
            r == self.flipped(),
    {
        Handle { node_id: self.node_id, is_forward: !self.is_forward }
    }
}

/// One directed adjacency record, as reported by topology queries.
///
/// For successor queries `to_node` is the neighbour the edge points to; for
/// predecessor queries `to_node` is the queried node itself (the target of the
/// discovered incoming edge). In both cases `from_orientation` and
/// `to_orientation` are the strands of the edge's source and target handles.
#[derive(Clone, Copy, Debug, PartialEq, Eq, Structural)]
pub struct Edge {
    pub to_node: u64,
    pub from_orientation: bool,
    pub to_orientation: bool,
}

/// The result of projecting a linear path coordinate into the graph.
///
/// `offset` is 0-based and measured along the node *as traversed by the
/// path*: on a reverse step it counts positions within the node's reverse
/// complement, not within the stored forward sequence.
#[derive(Clone, Copy, Debug, PartialEq, Eq, Structural)]
pub struct PathPosition {
    pub node_id: u64,
    pub offset: u64,
    pub is_forward: bool,
}

/// The failure reported when a graph cannot be built from its records.
/// Queries never return it: unknown names and ids give empty results.
#[derive(Debug)]
pub struct Error(pub String);

impl Error {
    /// The diagnostic text carried by this error.
    pub fn message(&self) -> (r: &str)
        ensures
            r@ == self.0@,
    {
        self.0.as_str()
    }
}

} // verus!
