//! Sequence access: node lookup, lengths, and reverse-complement
//! computation for reverse-strand handles.

use vstd::prelude::*;
use vstd::string::StrSliceExecFns;

use crate::graph::Graph;
use crate::handle::Handle;
use crate::model::{
    handle_sequence_of, node_len_of, node_map_of, node_sequence_of, nodes_input_view,
    reverse_complement_of, sequence_complement_of, unique_ids,
};

verus! {

/// Relies on `String::push`: appends the given character to the end of the
/// string.
pub assume_specification[ String::push ](s: &mut String, c: char)
    ensures
        final(s)@ == old(s)@.push(c),
;

/// Returns the Watson–Crick complement of one base: `A`/`T` and `C`/`G` are
/// swapped, every other character is returned unchanged.
pub(crate) fn complement_base(c: char) -> (r: char)
    ensures
        r == sequence_complement_of(c),
{
    match c {
        'A' => 'T',
        'T' => 'A',
        'C' => 'G',
        'G' => 'C',
        _ => c,
    }
}

/// Returns the reverse complement of a sequence: the characters in reverse
/// order, each complemented.
pub fn reverse_complement(s: &str) -> (r: String)
    ensures
        r@ == reverse_complement_of(s@),
{
    let n = s.unicode_len();
    let mut out = String::new();
    let mut i = n;
    while i > 0
        invariant
            i <= n,
            n == s@.len(),
            out@ == reverse_complement_of(s@).take(n - i),
        decreases i,
    {
        i = i - 1;
        let c = s.get_char(i);
        out.push(complement_base(c));
        proof {
            assert(out@ =~= reverse_complement_of(s@).take(n - i));
        }
    }
    proof {
        assert(out@ =~= reverse_complement_of(s@));
    }
    out
}

// ------------------------------------------------------------------
// The node map denoted by the stored records
// ------------------------------------------------------------------

/// An id is in the denoted map exactly when some record carries it.
pub(crate) proof fn lemma_node_map_dom(nodes: Seq<(u64, Seq<char>)>, node_id: u64)
    ensures
        node_map_of(nodes).dom().contains(node_id) <==> exists|i: int|
            0 <= i < nodes.len() && (#[trigger] nodes[i]).0 == node_id,
    decreases nodes.len(),
{
    if nodes.len() > 0 {
        lemma_node_map_dom(nodes.drop_last(), node_id);
        if node_map_of(nodes).dom().contains(node_id) {
            if nodes.last().0 == node_id {
                assert(nodes[nodes.len() - 1].0 == node_id);
            } else {
                let i = choose|i: int|
                    0 <= i < nodes.drop_last().len() && (#[trigger] nodes.drop_last()[i]).0
                        == node_id;
                assert(nodes[i].0 == node_id);
            }
        }
        if exists|i: int| 0 <= i < nodes.len() && (#[trigger] nodes[i]).0 == node_id {
            let i = choose|i: int| 0 <= i < nodes.len() && (#[trigger] nodes[i]).0 == node_id;
            if i < nodes.len() - 1 {
                assert(nodes.drop_last()[i].0 == node_id);
            }
        }
    }
}

/// Distinct ids restricted to a prefix of the records stay distinct.
pub(crate) proof fn lemma_unique_ids_drop_last(nodes: Seq<(u64, Seq<char>)>)
    requires
        unique_ids(nodes),
        nodes.len() > 0,
    ensures
        unique_ids(nodes.drop_last()),
{
    assert forall|i: int, j: int| 0 <= i < j < nodes.drop_last().len() implies (#[trigger] nodes
        .drop_last()[i]).0 != (#[trigger] nodes.drop_last()[j]).0 by {
        assert(nodes[i].0 != nodes[j].0);
    }
}

/// With distinct ids, the record at index `i` gives the denoted map's entry
/// for its id.
pub(crate) proof fn lemma_node_map_at(nodes: Seq<(u64, Seq<char>)>, i: int)
    requires
        unique_ids(nodes),
        0 <= i < nodes.len(),
    ensures
        node_map_of(nodes).dom().contains(nodes[i].0),
        node_map_of(nodes)[nodes[i].0] == nodes[i].1,
    decreases nodes.len(),
{
    if i < nodes.len() - 1 {
        lemma_unique_ids_drop_last(nodes);
        lemma_node_map_at(nodes.drop_last(), i);
        assert(nodes.last().0 != nodes[i].0);
    }
}

/// With distinct ids, the denoted map has exactly one entry per record.
pub(crate) proof fn lemma_node_map_len(nodes: Seq<(u64, Seq<char>)>)
    requires
        unique_ids(nodes),
    ensures
        node_map_of(nodes).dom().finite(),
        node_map_of(nodes).dom().len() == nodes.len(),
    decreases nodes.len(),
{
    if nodes.len() > 0 {
        lemma_unique_ids_drop_last(nodes);
        lemma_node_map_len(nodes.drop_last());
        lemma_node_map_dom(nodes.drop_last(), nodes.last().0);
        assert forall|i: int| 0 <= i < nodes.drop_last().len() implies (#[trigger] nodes
            .drop_last()[i]).0 != nodes.last().0 by {
            assert(nodes[i].0 != nodes[nodes.len() - 1].0);
        }
    }
}

/// Finds the stored record for a node id, if any.
pub(crate) fn scan_node(nodes: &Vec<(u64, String)>, node_id: u64) -> (r: Option<&String>)
    requires
        unique_ids(nodes_input_view(nodes@)),
    ensures
        ({
            let m = node_map_of(nodes_input_view(nodes@));
            match r {
                Some(s) => m.dom().contains(node_id) && s@ == m[node_id],
                None => !m.dom().contains(node_id),
            }
        }),
{
    let ghost nv = nodes_input_view(nodes@);
    let mut i: usize = 0;
    while i < nodes.len()
        invariant
            i <= nodes.len(),
            nv == nodes_input_view(nodes@),
            unique_ids(nv),
            forall|j: int| 0 <= j < i ==> (#[trigger] nv[j]).0 != node_id,
        decreases nodes.len() - i,
    {
        let rec = &nodes[i];
        if rec.0 == node_id {
            proof {
                lemma_node_map_at(nv, i as int);
            }
            return Some(&rec.1);
        }
        i = i + 1;
    }
    proof {
        lemma_node_map_dom(nv, node_id);
    }
    None
}

/// The length of the sequence stored for a node id, zero when absent.
pub(crate) fn scan_node_len(nodes: &Vec<(u64, String)>, node_id: u64) -> (r: u64)
    requires
        unique_ids(nodes_input_view(nodes@)),
    ensures
        r as nat == node_len_of(node_map_of(nodes_input_view(nodes@)), node_id),
{
    match scan_node(nodes, node_id) {
        Some(s) => s.as_str().unicode_len() as u64,
        None => 0,
    }
}

impl Graph {
    /// Returns the number of nodes in the graph.
    pub fn node_count(&self) -> (r: u64)
        ensures
            r as nat == self@.nodes.dom().len(),
    {
        proof {
            use_type_invariant(&*self);
            self.lemma_view_parts();
            lemma_node_map_len(nodes_input_view(self.nodes@));
        }
        self.nodes.len() as u64
    }

    /// Returns the forward-strand sequence of a node, or the empty string
    /// when the id is unknown.
    pub fn get_node_sequence(&self, node_id: u64) -> (r: String)
        ensures
            r@ == node_sequence_of(self@.nodes, node_id),
    {
        proof {
            use_type_invariant(&*self);
            self.lemma_view_parts();
        }
        match scan_node(&self.nodes, node_id) {
            Some(s) => s.clone(),
            None => String::new(),
        }
    }

    /// Returns the length of a node's sequence, or zero when the id is
    /// unknown.
    pub fn get_node_len(&self, node_id: u64) -> (r: u64)
        ensures
            r as nat == node_len_of(self@.nodes, node_id),
    {
        proof {
            use_type_invariant(&*self);
            self.lemma_view_parts();
        }
        scan_node_len(&self.nodes, node_id)
    }

    /// Returns the sequence of a node as traversed through `handle`: the
    /// stored sequence for a forward handle, its reverse complement for a
    /// reverse handle. Empty when the node id is unknown.
    pub fn get_handle_sequence(&self, handle: Handle) -> (r: String)
        ensures
            r@ == handle_sequence_of(self@.nodes, handle),
    {
        let s = self.get_node_sequence(handle.node_id);
        if handle.is_forward {
            s
        } else {
            reverse_complement(s.as_str())
        }
    }
}

} // verus!
