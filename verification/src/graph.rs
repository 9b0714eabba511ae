//! The graph value itself: its storage, its abstract view, and its
//! representation invariant.

use vstd::prelude::*;

use crate::handle::Handle;
use crate::model::{
    node_map_of, nodes_input_view, path_len_of, unique_ids, unique_names, GraphView,
};

verus! {

/// One stored path: its name, its steps, and the prefix sums of the lengths
/// of the nodes its steps traverse. `prefix[k]` is the total length of the
/// first `k` steps, so the table has one more entry than there are steps and
/// its last entry is the path's length; projection binary-searches it.
pub(crate) struct PathRecord {
    pub name: String,
    pub steps: Vec<Handle>,
    pub prefix: Vec<u64>,
}

impl PathRecord {
    /// The prefix-sum table agrees with the node lengths of `nodes`.
    pub(crate) open spec fn wf(self, nodes: Map<u64, Seq<char>>) -> bool {
        &&& self.prefix@.len() == self.steps@.len() + 1
        &&& forall|k: int|
            0 <= k <= self.steps@.len() ==> (#[trigger] self.prefix@[k]) as nat == path_len_of(
                nodes,
                self.steps@.take(k),
            )
    }
}

/// An immutable bidirected sequence graph, answering structural and
/// coordinate queries. Built once by [`Graph::build`]; every method is a
/// pure read whose contract is stated over the graph's [`GraphView`].
pub struct Graph {
    pub(crate) nodes: Vec<(u64, String)>,
    pub(crate) edges: Vec<(Handle, Handle)>,
    pub(crate) paths: Vec<PathRecord>,
}

impl View for Graph {
    type V = GraphView;

    closed spec fn view(&self) -> GraphView {
        GraphView {
            nodes: node_map_of(nodes_input_view(self.nodes@)),
            edges: self.edges@,
            paths: self.paths@.map_values(|p: PathRecord| (p.name@, p.steps@)),
        }
    }
}

impl Graph {
    /// What the view is made of, for the modules implementing the queries.
    pub(crate) proof fn lemma_view_parts(&self)
        ensures
            self@.nodes == node_map_of(nodes_input_view(self.nodes@)),
            self@.edges == self.edges@,
            self@.paths == self.paths@.map_values(|p: PathRecord| (p.name@, p.steps@)),
    {
    }

    /// The representation invariant: node ids and path names are pairwise
    /// distinct, and every stored prefix-sum table agrees with the node
    /// lengths. [`Graph::build`] establishes it; no method changes the graph.
    #[verifier::type_invariant]
    pub(crate) open spec fn wf(self) -> bool {
        &&& unique_ids(nodes_input_view(self.nodes@))
        &&& unique_names(self.paths@.map_values(|p: PathRecord| (p.name@, p.steps@)))
        &&& forall|i: int|
            0 <= i < self.paths@.len() ==> (#[trigger] self.paths@[i]).wf(
                node_map_of(nodes_input_view(self.nodes@)),
            )
    }
}

} // verus!
