//! Construction: validating the loader's plain records and baking the
//! prefix-sum tables that projection binary-searches.

use vstd::prelude::*;

use crate::graph::{Graph, PathRecord};
use crate::handle::{Error, Handle};
use crate::model::{
    buildable, built_view, node_len_of, node_map_of, nodes_input_view, path_len_of,
    paths_input_view, unique_ids, unique_names,
};
use crate::path_query::{lemma_path_len_take_le, lemma_path_len_take_succ};
use crate::sequence::scan_node_len;

verus! {

impl Graph {
    /// Builds a graph from plain records: nodes as `(id, forward sequence)`
    /// pairs, edges as stored `(from, to)` handle pairs, and paths as
    /// `(name, steps)` pairs. The resulting view is a pure function of the
    /// records, so equal records always yield a graph answering every query
    /// alike.
    ///
    /// Building fails — and nothing else in the library ever fails — exactly
    /// when two node records share an id, two path records share a name, or
    /// a path's total length does not fit in `u64`. Edges and steps may
    /// refer to ids with no node record: such nodes read as the empty
    /// sequence with length 0.
    pub fn build(
        nodes: Vec<(u64, String)>,
        edges: Vec<(Handle, Handle)>,
        paths: Vec<(String, Vec<Handle>)>,
    ) -> (r: Result<Graph, Error>)
        ensures
            r is Ok <==> buildable(nodes_input_view(nodes@), edges@, paths_input_view(paths@)),
            r matches Ok(g) ==> g@ == built_view(
                nodes_input_view(nodes@),
                edges@,
                paths_input_view(paths@),
            ),
    {
        let ghost nv = nodes_input_view(nodes@);
        let ghost ev = edges@;
        let ghost pv = paths_input_view(paths@);
        let ghost m = node_map_of(nv);

        // Node ids must be pairwise distinct.
        let mut i: usize = 0;
        while i < nodes.len()
            invariant
                i <= nodes.len(),
                nv == nodes_input_view(nodes@),
                pv == paths_input_view(paths@),
                ev == edges@,
                forall|a: int, b: int|
                    0 <= a < b < i ==> (#[trigger] nv[a]).0 != (#[trigger] nv[b]).0,
            decreases nodes.len() - i,
        {
            let mut j: usize = 0;
            while j < i
                invariant
                    j <= i < nodes.len(),
                    nv == nodes_input_view(nodes@),
                    pv == paths_input_view(paths@),
                    ev == edges@,
                    forall|a: int| 0 <= a < j ==> (#[trigger] nv[a]).0 != nv[i as int].0,
                decreases i - j,
            {
                if nodes[j].0 == nodes[i].0 {
                    proof {
                        assert(nv[j as int].0 == nodes@[j as int].0);
                        assert(nv[i as int].0 == nodes@[i as int].0);
                        assert(!unique_ids(nv)) by {
                            if unique_ids(nv) {
                                assert((nv[j as int]).0 != (nv[i as int]).0);
                            }
                        }
                    }
                    return Err(Error("duplicate node id".to_owned()));
                }
                j = j + 1;
            }
            i = i + 1;
        }
        proof {
            assert(unique_ids(nv));
        }

        // Path names must be pairwise distinct.
        let mut i2: usize = 0;
        while i2 < paths.len()
            invariant
                i2 <= paths.len(),
                nv == nodes_input_view(nodes@),
                pv == paths_input_view(paths@),
                ev == edges@,
                unique_ids(nv),
                forall|a: int, b: int|
                    0 <= a < b < i2 ==> (#[trigger] pv[a]).0 != (#[trigger] pv[b]).0,
            decreases paths.len() - i2,
        {
            let mut j2: usize = 0;
            while j2 < i2
                invariant
                    j2 <= i2 < paths.len(),
                    nv == nodes_input_view(nodes@),
                    pv == paths_input_view(paths@),
                    ev == edges@,
                    unique_ids(nv),
                    forall|a: int| 0 <= a < j2 ==> (#[trigger] pv[a]).0 != pv[i2 as int].0,
                decreases i2 - j2,
            {
                let earlier = &paths[j2];
                let current = &paths[i2];
                if earlier.0 == current.0 {
                    proof {
                        assert(pv[j2 as int].0 == paths@[j2 as int].0@);
                        assert(pv[i2 as int].0 == paths@[i2 as int].0@);
                        assert(!unique_names(pv)) by {
                            if unique_names(pv) {
                                assert((pv[j2 as int]).0 != (pv[i2 as int]).0);
                            }
                        }
                    }
                    return Err(Error("duplicate path name".to_owned()));
                }
                j2 = j2 + 1;
            }
            i2 = i2 + 1;
        }
        proof {
            assert(unique_names(pv));
        }

        // Bake each path's record with its prefix sums of step lengths.
        let mut records: Vec<PathRecord> = Vec::new();
        let mut idx: usize = 0;
        while idx < paths.len()
            invariant
                idx <= paths.len(),
                nv == nodes_input_view(nodes@),
                pv == paths_input_view(paths@),
                ev == edges@,
                m == node_map_of(nv),
                unique_ids(nv),
                records@.len() == idx,
                forall|t: int| 0 <= t < idx ==> (#[trigger] records@[t]).wf(m),
                forall|t: int|
                    0 <= t < idx ==> (#[trigger] records@[t]).name@ == pv[t].0 && records@[t].steps@
                        == pv[t].1,
            decreases paths.len() - idx,
        {
            let p = &paths[idx];
            let name = p.0.clone();
            let mut steps_c: Vec<Handle> = Vec::new();
            let mut k: usize = 0;
            while k < p.1.len()
                invariant
                    k <= p.1@.len(),
                    steps_c@ == p.1@.take(k as int),
                decreases p.1@.len() - k,
            {
                steps_c.push(p.1[k]);
                proof {
                    assert(steps_c@ =~= p.1@.take(k + 1));
                }
                k = k + 1;
            }
            proof {
                assert(steps_c@ =~= p.1@);
            }
            let mut prefix: Vec<u64> = Vec::new();
            prefix.push(0);
            proof {
                assert(steps_c@.take(0) =~= Seq::<Handle>::empty());
            }
            let mut k2: usize = 0;
            while k2 < steps_c.len()
                invariant
                    k2 <= steps_c@.len(),
                    nv == nodes_input_view(nodes@),
                    pv == paths_input_view(paths@),
                    m == node_map_of(nv),
                    unique_ids(nv),
                    idx < pv.len(),
                    steps_c@ == pv[idx as int].1,
                    prefix@.len() == k2 + 1,
                    forall|t: int|
                        0 <= t <= k2 ==> (#[trigger] prefix@[t]) as nat == path_len_of(
                            m,
                            steps_c@.take(t),
                        ),
                decreases steps_c@.len() - k2,
            {
                let l = scan_node_len(&nodes, steps_c[k2].node_id);
                let prev = prefix[k2];
                proof {
                    lemma_path_len_take_succ(m, steps_c@, k2 as int);
                }
                match prev.checked_add(l) {
                    Some(nx) => {
                        prefix.push(nx);
                    },
                    None => {
                        proof {
                            lemma_path_len_take_le(m, steps_c@, k2 + 1);
                            assert(path_len_of(m, pv[idx as int].1) > u64::MAX);
                            assert(!buildable(nv, ev, pv));
                        }
                        return Err(Error("path length exceeds u64".to_owned()));
                    },
                }
                k2 = k2 + 1;
            }
            records.push(PathRecord { name, steps: steps_c, prefix });
            proof {
                assert(records@.last().wf(m));
            }
            idx = idx + 1;
        }

        proof {
            assert forall|t: int| 0 <= t < pv.len() implies path_len_of(
                m,
                (#[trigger] pv[t]).1,
            ) <= u64::MAX by {
                assert(records@[t].wf(m));
                let steps = records@[t].steps@;
                assert(steps.take(steps.len() as int) =~= steps);
                assert(records@[t].prefix@[steps.len() as int] as nat == path_len_of(m, steps));
            }
            assert(buildable(nv, ev, pv));
            assert(records@.map_values(|p: PathRecord| (p.name@, p.steps@)) =~= pv);
        }
        let g = Graph { nodes, edges, paths: records };
        proof {
            g.lemma_view_parts();
            assert(g@.paths =~= pv);
        }
        Ok(g)
    }
}

} // verus!
