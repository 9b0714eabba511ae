//! Path queries: name enumeration, lengths, membership, and projection of
//! linear path coordinates to graph positions.

use vstd::prelude::*;

use crate::graph::Graph;
use crate::handle::{Handle, PathPosition};
use crate::model::{
    find_path, has_transition, node_len_of, path_len_of, path_names_of, paths_on_edge_of,
    paths_on_node_of, project_of, project_steps, visits_node,
};

verus! {

// ------------------------------------------------------------------
// Prefix sums of step lengths
// ------------------------------------------------------------------

/// Taking one more step adds that step's node length to the walk's length.
pub(crate) proof fn lemma_path_len_take_succ(
    nodes: Map<u64, Seq<char>>,
    steps: Seq<Handle>,
    k: int,
)
    requires
        0 <= k < steps.len(),
    ensures
        path_len_of(nodes, steps.take(k + 1)) == path_len_of(nodes, steps.take(k)) + node_len_of(
            nodes,
            steps[k].node_id,
        ),
    decreases k,
{
    if k == 0 {
        assert(steps.take(1)[0] == steps[0]);
        assert(steps.take(1).skip(1) =~= Seq::<Handle>::empty());
        assert(steps.take(0) =~= Seq::<Handle>::empty());
    } else {
        lemma_path_len_take_succ(nodes, steps.skip(1), k - 1);
        assert(steps.take(k + 1).skip(1) =~= steps.skip(1).take(k));
        assert(steps.take(k).skip(1) =~= steps.skip(1).take(k - 1));
        assert(steps.take(k + 1)[0] == steps[0]);
        assert(steps.take(k)[0] == steps[0]);
        assert(steps.skip(1)[k - 1] == steps[k]);
    }
}

/// A walk is at least as long as any of its prefixes.
pub(crate) proof fn lemma_path_len_take_le(nodes: Map<u64, Seq<char>>, steps: Seq<Handle>, k: int)
    requires
        0 <= k <= steps.len(),
    ensures
        path_len_of(nodes, steps.take(k)) <= path_len_of(nodes, steps),
    decreases steps.len() - k,
{
    if k == steps.len() {
        assert(steps.take(k) =~= steps);
    } else {
        lemma_path_len_take_succ(nodes, steps, k);
        lemma_path_len_take_le(nodes, steps, k + 1);
    }
}

// ------------------------------------------------------------------
// What projection resolves to
// ------------------------------------------------------------------

/// A position within the span of step `i` projects to step `i`, at the
/// position's distance from the step's start.
pub(crate) proof fn lemma_project_at(
    nodes: Map<u64, Seq<char>>,
    steps: Seq<Handle>,
    pos: nat,
    i: int,
)
    requires
        0 <= i < steps.len(),
        path_len_of(nodes, steps.take(i)) <= pos,
        pos < path_len_of(nodes, steps.take(i)) + node_len_of(nodes, steps[i].node_id),
    ensures
        project_steps(nodes, steps, pos) == Some(
            PathPosition {
                node_id: steps[i].node_id,
                offset: (pos - path_len_of(nodes, steps.take(i))) as u64,
                is_forward: steps[i].is_forward,
            },
        ),
    decreases i,
{
    if i == 0 {
        assert(steps.take(0) =~= Seq::<Handle>::empty());
    } else {
        assert(steps.take(i).skip(1) =~= steps.skip(1).take(i - 1));
        assert(steps.take(i)[0] == steps[0]);
        assert(steps.skip(1)[i - 1] == steps[i]);
        lemma_project_at(
            nodes,
            steps.skip(1),
            (pos - node_len_of(nodes, steps[0].node_id)) as nat,
            i - 1,
        );
    }
}

/// A position at or past the walk's total length projects to nothing.
pub(crate) proof fn lemma_project_none(nodes: Map<u64, Seq<char>>, steps: Seq<Handle>, pos: nat)
    requires
        pos >= path_len_of(nodes, steps),
    ensures
        project_steps(nodes, steps, pos) is None,
    decreases steps.len(),
{
    if steps.len() > 0 {
        lemma_project_none(
            nodes,
            steps.skip(1),
            (pos - node_len_of(nodes, steps[0].node_id)) as nat,
        );
    }
}

/// A position strictly below the walk's total length projects to some step.
pub(crate) proof fn lemma_project_some(nodes: Map<u64, Seq<char>>, steps: Seq<Handle>, pos: nat)
    requires
        pos < path_len_of(nodes, steps),
    ensures
        project_steps(nodes, steps, pos) is Some,
    decreases steps.len(),
{
    if steps.len() > 0 && pos >= node_len_of(nodes, steps[0].node_id) {
        lemma_project_some(
            nodes,
            steps.skip(1),
            (pos - node_len_of(nodes, steps[0].node_id)) as nat,
        );
    }
}

impl Graph {
    /// Finds the index of the stored record of the first path with this
    /// name, if any.
    fn find_record(&self, name: &str) -> (r: Option<usize>)
        ensures
            match r {
                Some(i) => {
                    &&& (i as int) < self.paths@.len()
                    &&& self@.paths[i as int].0 == name@
                    &&& find_path(self@.paths, name@) == Some(self@.paths[i as int].1)
                },
                None => find_path(self@.paths, name@) is None,
            },
    {
        proof {
            self.lemma_view_parts();
        }
        let ghost pv = self@.paths;
        proof {
            assert(pv.skip(0) =~= pv);
        }
        let owned = name.to_owned();
        let mut i: usize = 0;
        while i < self.paths.len()
            invariant
                i <= self.paths@.len(),
                pv == self@.paths,
                pv == self.paths@.map_values(
                    |p: crate::graph::PathRecord| (p.name@, p.steps@),
                ),
                owned@ == name@,
                find_path(pv, name@) == find_path(pv.skip(i as int), name@),
            decreases self.paths@.len() - i,
        {
            let rec = &self.paths[i];
            if rec.name == owned {
                proof {
                    assert(pv.skip(i as int)[0] == pv[i as int]);
                }
                return Some(i);
            }
            proof {
                assert(pv.skip(i as int)[0] == pv[i as int]);
                assert(pv.skip(i as int).skip(1) =~= pv.skip(i + 1));
            }
            i = i + 1;
        }
        proof {
            assert(pv.skip(pv.len() as int) =~= Seq::<(Seq<char>, Seq<Handle>)>::empty());
        }
        None
    }

    /// Returns the names of all paths, in recorded order.
    pub fn get_path_names(&self) -> (r: Vec<String>)
        ensures
            r@.map_values(|s: String| s@) == path_names_of(self@.paths),
    {
        proof {
            self.lemma_view_parts();
        }
        let mut out: Vec<String> = Vec::new();
        let mut i: usize = 0;
        while i < self.paths.len()
            invariant
                i <= self.paths@.len(),
                out@.len() == i,
                forall|k: int| 0 <= k < i ==> (#[trigger] out@[k])@ == self.paths@[k].name@,
            decreases self.paths@.len() - i,
        {
            let rec = &self.paths[i];
            out.push(rec.name.clone());
            i = i + 1;
        }
        proof {
            self.lemma_view_parts();
            assert(out@.map_values(|s: String| s@) =~= path_names_of(self@.paths));
        }
        out
    }

    /// Returns the total length of the named path — the sum of the lengths
    /// of the nodes its steps traverse — or nothing when the name is
    /// unknown.
    pub fn get_path_length(&self, name: &str) -> (r: Option<u64>)
        ensures
            match find_path(self@.paths, name@) {
                None => r is None,
                Some(steps) => r matches Some(l) && l as nat == path_len_of(self@.nodes, steps),
            },
    {
        proof {
            use_type_invariant(&*self);
            self.lemma_view_parts();
        }
        match self.find_record(name) {
            None => None,
            Some(i) => {
                let rec = &self.paths[i];
                proof {
                    assert(rec.steps@.take(rec.steps@.len() as int) =~= rec.steps@);
                }
                Some(rec.prefix[rec.prefix.len() - 1])
            },
        }
    }

    /// Returns the ordered steps of the named path, or an empty sequence
    /// when the name is unknown.
    pub fn get_path_steps(&self, name: &str) -> (r: Vec<Handle>)
        ensures
            match find_path(self@.paths, name@) {
                None => r@ == Seq::<Handle>::empty(),
                Some(steps) => r@ == steps,
            },
    {
        proof {
            self.lemma_view_parts();
        }
        match self.find_record(name) {
            None => Vec::new(),
            Some(i) => {
                let rec = &self.paths[i];
                let mut out: Vec<Handle> = Vec::new();
                let mut k: usize = 0;
                while k < rec.steps.len()
                    invariant
                        k <= rec.steps@.len(),
                        out@ == rec.steps@.take(k as int),
                    decreases rec.steps@.len() - k,
                {
                    out.push(rec.steps[k]);
                    proof {
                        assert(out@ =~= rec.steps@.take(k + 1));
                    }
                    k = k + 1;
                }
                proof {
                    assert(out@ =~= rec.steps@);
                }
                out
            },
        }
    }

    /// Returns the names of the paths with a step on this node, in recorded
    /// order, each once per path; empty for an unknown id or a node on no
    /// path.
    pub fn get_paths_on_node(&self, node_id: u64) -> (r: Vec<String>)
        ensures
            r@.map_values(|s: String| s@) == paths_on_node_of(self@.paths, node_id),
    {
        proof {
            self.lemma_view_parts();
        }
        let ghost pv = self@.paths;
        let mut out: Vec<String> = Vec::new();
        let mut i: usize = 0;
        while i < self.paths.len()
            invariant
                i <= self.paths@.len(),
                pv == self@.paths,
                pv == self.paths@.map_values(
                    |p: crate::graph::PathRecord| (p.name@, p.steps@),
                ),
                out@.map_values(|s: String| s@) == paths_on_node_of(pv.take(i as int), node_id),
            decreases self.paths@.len() - i,
        {
            let rec = &self.paths[i];
            let mut found = false;
            let mut k: usize = 0;
            while k < rec.steps.len()
                invariant
                    k <= rec.steps@.len(),
                    found <==> exists|t: int|
                        0 <= t < k && (#[trigger] rec.steps@[t]).node_id == node_id,
                decreases rec.steps@.len() - k,
            {
                if rec.steps[k].node_id == node_id {
                    found = true;
                }
                k = k + 1;
            }
            proof {
                assert(found == visits_node(rec.steps@, node_id));
            }
            if found {
                out.push(rec.name.clone());
            }
            proof {
                assert(pv.take(i + 1).drop_last() =~= pv.take(i as int));
                assert(pv.take(i + 1).last() == pv[i as int]);
                assert(out@.map_values(|s: String| s@) =~= paths_on_node_of(
                    pv.take(i + 1),
                    node_id,
                ));
            }
            i = i + 1;
        }
        proof {
            assert(pv.take(pv.len() as int) =~= pv);
        }
        out
    }

    /// Returns the names of the paths containing the exact consecutive
    /// oriented transition `from` then `to`, in recorded order, each once
    /// per path. The reverse-complement transition is a different
    /// transition and is not matched.
    pub fn get_paths_on_edge(&self, from: Handle, to: Handle) -> (r: Vec<String>)
        ensures
            r@.map_values(|s: String| s@) == paths_on_edge_of(self@.paths, from, to),
    {
        proof {
            self.lemma_view_parts();
        }
        let ghost pv = self@.paths;
        let mut out: Vec<String> = Vec::new();
        let mut i: usize = 0;
        while i < self.paths.len()
            invariant
                i <= self.paths@.len(),
                pv == self@.paths,
                pv == self.paths@.map_values(
                    |p: crate::graph::PathRecord| (p.name@, p.steps@),
                ),
                out@.map_values(|s: String| s@) == paths_on_edge_of(pv.take(i as int), from, to),
            decreases self.paths@.len() - i,
        {
            let rec = &self.paths[i];
            let mut found = false;
            if rec.steps.len() > 0 {
                let mut k: usize = 0;
                while k < rec.steps.len() - 1
                    invariant
                        rec.steps@.len() > 0,
                        k < rec.steps@.len(),
                        found <==> exists|t: int|
                            0 <= t < k && t + 1 < rec.steps@.len() && #[trigger] rec.steps@[t]
                                == from && rec.steps@[t + 1] == to,
                    decreases rec.steps@.len() - k,
                {
                    if rec.steps[k] == from && rec.steps[k + 1] == to {
                        found = true;
                    }
                    k = k + 1;
                }
            }
            proof {
                assert(found == has_transition(rec.steps@, from, to));
            }
            if found {
                out.push(rec.name.clone());
            }
            proof {
                assert(pv.take(i + 1).drop_last() =~= pv.take(i as int));
                assert(pv.take(i + 1).last() == pv[i as int]);
                assert(out@.map_values(|s: String| s@) =~= paths_on_edge_of(
                    pv.take(i + 1),
                    from,
                    to,
                ));
            }
            i = i + 1;
        }
        proof {
            assert(pv.take(pv.len() as int) =~= pv);
        }
        out
    }

    /// Projects a 0-based coordinate along the named path to the node,
    /// offset and orientation it falls on. Absent when the name is unknown
    /// or `pos` is at or past the path's length; a position exactly at a
    /// step boundary belongs to the later step at offset 0. The offset is
    /// measured along the node as traversed by the path (see
    /// [`PathPosition`]). The lookup binary-searches the stored prefix sums
    /// of step lengths.
    pub fn project(&self, name: &str, pos: u64) -> (r: Option<PathPosition>)
        ensures
            r == project_of(self@.nodes, self@.paths, name@, pos as nat),
    {
        proof {
            use_type_invariant(&*self);
            self.lemma_view_parts();
        }
        let ghost nodes = self@.nodes;
        match self.find_record(name) {
            None => None,
            Some(i) => {
                let rec = &self.paths[i];
                let ghost steps = rec.steps@;
                let n = rec.prefix.len();
                let total = rec.prefix[n - 1];
                if pos >= total {
                    proof {
                        assert(steps.take(steps.len() as int) =~= steps);
                        lemma_project_none(nodes, steps, pos as nat);
                    }
                    None
                } else {
                    proof {
                        assert(steps.take(0) =~= Seq::<Handle>::empty());
                    }
                    let mut lo: usize = 0;
                    let mut hi: usize = n - 1;
                    while hi - lo > 1
                        invariant
                            lo < hi < rec.prefix@.len(),
                            rec.wf(nodes),
                            steps == rec.steps@,
                            rec.prefix@[lo as int] <= pos,
                            pos < rec.prefix@[hi as int],
                        decreases hi - lo,
                    {
                        let mid = lo + (hi - lo) / 2;
                        if rec.prefix[mid] <= pos {
                            lo = mid;
                        } else {
                            hi = mid;
                        }
                    }
                    let offset = pos - rec.prefix[lo];
                    let step = rec.steps[lo];
                    proof {
                        lemma_path_len_take_succ(nodes, steps, lo as int);
                        lemma_project_at(nodes, steps, pos as nat, lo as int);
                    }
                    Some(
                        PathPosition {
                            node_id: step.node_id,
                            offset,
                            is_forward: step.is_forward,
                        },
                    )
                }
            },
        }
    }
}

} // verus!
