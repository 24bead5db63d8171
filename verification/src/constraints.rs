//! Which constraint edges are worth handing to the triangulation.

use vstd::prelude::*;

verus! {

/// The constraint that an index pair stands for, as a pair of vertex handles.
///
/// `handles[i]` is the handle that the triangulation gave input point `i`;
/// points with equal coordinates share one handle. A pair yields no
/// constraint when it names the same point twice, when it names a point that
/// has no handle, or when its two points were merged into one vertex.
pub open spec fn resolve_edge(handles: Seq<usize>, edge: (usize, usize)) -> Option<
    (usize, usize),
> {
    if edge.0 != edge.1 && edge.0 < handles.len() && edge.1 < handles.len() && handles[edge.0 as int]
        != handles[edge.1 as int] {
        Some((handles[edge.0 as int], handles[edge.1 as int]))
    } else {
        None
    }
}

/// The constraints of all index pairs, in their order, degenerate ones left
/// out.
pub open spec fn resolved_constraints(edges: Seq<(usize, usize)>, handles: Seq<usize>) -> Seq<
    (usize, usize),
> {
    edges.filter_map(|edge: (usize, usize)| resolve_edge(handles, edge))
}

/// Translates index pairs into pairs of vertex handles and drops, without
/// complaint, every pair that would be a constraint from a vertex to itself.
pub fn resolve_constraints(edges: &Vec<(usize, usize)>, handles: &Vec<usize>) -> (out: Vec<
    (usize, usize),
>)
    ensures
        out@ == resolved_constraints(edges@, handles@),
{
    let ghost pick = |edge: (usize, usize)| resolve_edge(handles@, edge);
    let mut out: Vec<(usize, usize)> = Vec::new();
    let mut k: usize = 0;
    while k < edges.len()
        invariant
            k <= edges.len(),
            pick == |edge: (usize, usize)| resolve_edge(handles@, edge),
            out@ == edges@.take(k as int).filter_map(pick),
        decreases edges.len() - k,
    {
        let (i, j) = edges[k];
        proof {
            edges@.lemma_filter_map_take_succ(pick, k as int);
        }
        if i != j && i < handles.len() && j < handles.len() {
            let vi: usize = handles[i];
            let vj: usize = handles[j];
            if vi != vj {
                out.push((vi, vj));
            }
        }
        k += 1;
    }
    proof {
        assert(edges@.take(edges@.len() as int) == edges@);
    }
    out
}

/// No resolved constraint joins a vertex to itself, and both its ends are
/// handles of input points.
pub proof fn lemma_constraints_proper(edges: Seq<(usize, usize)>, handles: Seq<usize>)
    ensures
        forall|c: (usize, usize)| #[trigger]
            resolved_constraints(edges, handles).contains(c) ==> c.0 != c.1 && handles.contains(c.0)
                && handles.contains(c.1),
{
    let pick = |edge: (usize, usize)| resolve_edge(handles, edge);
    assert forall|c: (usize, usize)| #[trigger]
        resolved_constraints(edges, handles).contains(c) implies c.0 != c.1 && handles.contains(c.0)
        && handles.contains(c.1) by {
        edges.lemma_filter_map_contains(pick, c);
    }
}

/// Where no two points were merged and every pair names two different points
/// that have handles, nothing is dropped: constraint `k` joins the handles
/// of the points of pair `k`.
pub proof fn lemma_distinct_points_keep_all(edges: Seq<(usize, usize)>, handles: Seq<usize>)
    requires
        handles.no_duplicates(),
        forall|k: int|
            0 <= k < edges.len() ==> (#[trigger] edges[k]).0 != edges[k].1 && edges[k].0
                < handles.len() && edges[k].1 < handles.len(),
    ensures
        resolved_constraints(edges, handles).len() == edges.len(),
        forall|k: int|
            0 <= k < edges.len() ==> #[trigger] resolved_constraints(edges, handles)[k] == (
                handles[edges[k].0 as int],
                handles[edges[k].1 as int],
            ),
    decreases edges.len(),
{
    if edges.len() > 0 {
        let rest = edges.drop_last();
        assert forall|k: int| 0 <= k < rest.len() implies (#[trigger] rest[k]).0 != rest[k].1
            && rest[k].0 < handles.len() && rest[k].1 < handles.len() by {
            assert(rest[k] == edges[k]);
        }
        lemma_distinct_points_keep_all(rest, handles);
        assert(resolve_edge(handles, edges.last()) is Some);
        assert forall|k: int| 0 <= k < edges.len() implies #[trigger] resolved_constraints(
            edges,
            handles,
        )[k] == (handles[edges[k].0 as int], handles[edges[k].1 as int]) by {
            if k < rest.len() {
                assert(rest[k] == edges[k]);
                assert(resolved_constraints(rest, handles)[k] == (
                    handles[rest[k].0 as int],
                    handles[rest[k].1 as int],
                ));
            }
        }
    }
}

} // verus!
