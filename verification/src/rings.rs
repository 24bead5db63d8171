//! From boundary rings to one point list and the constraint edges that close
//! each ring.

use crate::error::GeometryError;
use vstd::prelude::*;

verus! {

/// The fewest points that close a ring around an area.
pub const MIN_RING_POINTS: usize = 3;

/// Edge `k` of a ring of `len` points whose first point has index `start`: it
/// runs from point `k` to the next one, and from the last point back to the
/// first.
pub open spec fn ring_edge(start: int, len: int, k: int) -> (usize, usize) {
    ((start + k) as usize, (if k + 1 < len { start + k + 1 } else { start }) as usize)
}

/// The `len` edges of a ring, in the order of its points.
pub open spec fn ring_edges(start: int, len: int) -> Seq<(usize, usize)> {
    Seq::new(len as nat, |k: int| ring_edge(start, len, k))
}

/// The points of all holes, one hole after the other.
pub open spec fn hole_points<P>(holes: Seq<Vec<P>>) -> Seq<P>
    decreases holes.len(),
{
    if holes.len() == 0 {
        Seq::empty()
    } else {
        hole_points(holes.drop_last()) + holes.last()@
    }
}

/// The edges of all holes, where the first point of the first hole has index
/// `first`.
pub open spec fn hole_edges<P>(first: int, holes: Seq<Vec<P>>) -> Seq<(usize, usize)>
    decreases holes.len(),
{
    if holes.len() == 0 {
        Seq::empty()
    } else {
        hole_edges(first, holes.drop_last()) + ring_edges(
            first + hole_points(holes.drop_last()).len(),
            holes.last()@.len() as int,
        )
    }
}

/// Every ring has enough points.
pub open spec fn rings_valid<P>(outer: Seq<P>, holes: Seq<Vec<P>>) -> bool {
    &&& outer.len() >= 3
    &&& forall|h: int| 0 <= h < holes.len() ==> (#[trigger] holes[h])@.len() >= 3
}

/// The outer ring's points followed by those of the holes.
pub open spec fn polygon_points<P>(outer: Seq<P>, holes: Seq<Vec<P>>) -> Seq<P> {
    outer + hole_points(holes)
}

/// The outer ring's edges followed by those of the holes, over the indices of
/// `polygon_points`.
pub open spec fn polygon_edges<P>(outer: Seq<P>, holes: Seq<Vec<P>>) -> Seq<(usize, usize)> {
    ring_edges(0, outer.len() as int) + hole_edges(outer.len() as int, holes)
}

/// A polygon ready for triangulation.
pub struct PolygonInput<P> {
    /// Every point of every ring, the outer ring first.
    pub points: Vec<P>,
    /// Pairs of indices into `points` that must become edges of the mesh.
    pub edges: Vec<(usize, usize)>,
}

/// Whether a ring has enough points to bound an area.
pub fn ring_is_valid<P>(ring: &Vec<P>) -> (ok: bool)
    ensures
        ok == (ring@.len() >= 3),
{
    ring.len() >= MIN_RING_POINTS
}

/// Appends a ring's points to `points` and its closing edges to `edges`, the
/// edges over the indices that the points get in `points`.
fn append_ring<P: Copy>(points: &mut Vec<P>, edges: &mut Vec<(usize, usize)>, ring: &Vec<P>)
    ensures
        final(points)@ == old(points)@ + ring@,
        final(edges)@ == old(edges)@ + ring_edges(old(points)@.len() as int, ring@.len() as int),
{
    let start: usize = points.len();
    let mut k: usize = 0;
    while k < ring.len()
        invariant
            k <= ring.len(),
            start == old(points)@.len(),
            points@ == old(points)@ + ring@.take(k as int),
        decreases ring.len() - k,
    {
        points.push(ring[k]);
        k += 1;
    }
    let end: usize = points.len();
    let ghost len = ring@.len() as int;
    let mut i: usize = start;
    while i < end
        invariant
            start <= i <= end,
            end == start + len,
            edges@ == old(edges)@ + ring_edges(start as int, len).take(i - start),
        decreases end - i,
    {
        let next: usize = if i + 1 < end {
            i + 1
        } else {
            start
        };
        edges.push((i, next));
        i += 1;
    }
}

/// Checks the rings and lays them out for triangulation: one point list, the
/// outer ring first, and for every ring the edges from each point to the next
/// and from the last back to the first.
///
/// Fails with `InvalidInput`, before anything is built, exactly when some ring
/// has fewer than three points.
pub fn prepare_rings<P: Copy>(outer: &Vec<P>, holes: &Vec<Vec<P>>) -> (r: Result<
    PolygonInput<P>,
    GeometryError,
>)
    ensures
        r is Ok <==> rings_valid(outer@, holes@),
        r matches Ok(input) ==> {
            &&& input.points@ == polygon_points(outer@, holes@)
            &&& input.edges@ == polygon_edges(outer@, holes@)
        },
        r matches Err(e) ==> e == GeometryError::InvalidInput,
{
    if !ring_is_valid(outer) {
        return Err(GeometryError::InvalidInput);
    }
    let mut h: usize = 0;
    while h < holes.len()
        invariant
            h <= holes.len(),
            forall|j: int| 0 <= j < h ==> (#[trigger] holes@[j])@.len() >= 3,
        decreases holes.len() - h,
    {
        if !ring_is_valid(&holes[h]) {
            return Err(GeometryError::InvalidInput);
        }
        h += 1;
    }
    let mut points: Vec<P> = Vec::new();
    let mut edges: Vec<(usize, usize)> = Vec::new();
    append_ring(&mut points, &mut edges, outer);
    let mut h: usize = 0;
    while h < holes.len()
        invariant
            h <= holes.len(),
            points@ == outer@ + hole_points(holes@.take(h as int)),
            edges@ == ring_edges(0, outer@.len() as int) + hole_edges(
                outer@.len() as int,
                holes@.take(h as int),
            ),
        decreases holes.len() - h,
    {
        proof {
            assert(holes@.take(h + 1).drop_last() == holes@.take(h as int));
            assert(holes@.take(h + 1).last() == holes@[h as int]);
        }
        append_ring(&mut points, &mut edges, &holes[h]);
        h += 1;
    }
    proof {
        assert(holes@.take(holes@.len() as int) == holes@);
    }
    Ok(PolygonInput { points, edges })
}

/// The index that the first point of hole `h` gets in `polygon_points`.
pub open spec fn hole_start<P>(outer: Seq<P>, holes: Seq<Vec<P>>, h: int) -> int {
    (outer.len() + hole_points(holes.take(h)).len()) as int
}

/// Holes before hole `h` take up the same room in every list of holes that
/// starts with them.
proof fn lemma_hole_prefix<P>(holes: Seq<Vec<P>>, h: int, first: int)
    requires
        0 <= h < holes.len(),
    ensures
        hole_points(holes.take(h)) + holes[h]@ == hole_points(holes.take(h + 1)),
        hole_points(holes.take(h + 1)).len() <= hole_points(holes).len(),
        hole_points(holes).subrange(0, hole_points(holes.take(h + 1)).len() as int)
            == hole_points(holes.take(h + 1)),
        hole_edges(first, holes.take(h)) + ring_edges(
            first + hole_points(holes.take(h)).len(),
            holes[h]@.len() as int,
        ) == hole_edges(first, holes.take(h + 1)),
        hole_edges(first, holes.take(h + 1)).len() <= hole_edges(first, holes).len(),
        hole_edges(first, holes).subrange(0, hole_edges(first, holes.take(h + 1)).len() as int)
            == hole_edges(first, holes.take(h + 1)),
        hole_edges(first, holes).len() == hole_points(holes).len(),
        hole_edges(first, holes.take(h)).len() == hole_points(holes.take(h)).len(),
    decreases holes.len(),
{
    assert(holes.take(h + 1).drop_last() == holes.take(h));
    assert(holes.take(h + 1).last() == holes[h]);
    lemma_hole_sizes(holes, first);
    lemma_hole_sizes(holes.take(h), first);
    lemma_hole_sizes(holes.take(h + 1), first);
    if h + 1 == holes.len() {
        assert(holes.take(h + 1) == holes);
    } else {
        let rest = holes.drop_last();
        lemma_hole_prefix(rest, h, first);
        assert(rest.take(h + 1) == holes.take(h + 1));
        assert(rest.take(h) == holes.take(h));
    }
}

/// The holes have as many edges as points.
proof fn lemma_hole_sizes<P>(holes: Seq<Vec<P>>, first: int)
    ensures
        hole_edges(first, holes).len() == hole_points(holes).len(),
    decreases holes.len(),
{
    if holes.len() > 0 {
        lemma_hole_sizes(holes.drop_last(), first);
    }
}

/// A polygon has one constraint edge for each of its points.
pub proof fn lemma_edge_count<P>(outer: Seq<P>, holes: Seq<Vec<P>>)
    ensures
        polygon_edges(outer, holes).len() == polygon_points(outer, holes).len(),
{
    lemma_hole_sizes(holes, outer.len() as int);
}

/// Point `k` of the outer ring is point `k` of the polygon, and the edge that
/// leaves it is edge `k` of the polygon.
pub proof fn lemma_outer_layout<P>(outer: Seq<P>, holes: Seq<Vec<P>>, k: int)
    requires
        0 <= k < outer.len(),
    ensures
        polygon_points(outer, holes)[k] == outer[k],
        polygon_edges(outer, holes)[k] == ring_edge(0, outer.len() as int, k),
{
}

/// Point `k` of hole `h` is point `hole_start + k` of the polygon, and the
/// edge that leaves it is the polygon's edge of the same index: it ends at
/// the hole's next point, or at its first point if `k` is the last.
pub proof fn lemma_hole_layout<P>(outer: Seq<P>, holes: Seq<Vec<P>>, h: int, k: int)
    requires
        0 <= h < holes.len(),
        0 <= k < holes[h]@.len(),
    ensures
        0 <= hole_start(outer, holes, h) + k < polygon_points(outer, holes).len(),
        polygon_points(outer, holes)[hole_start(outer, holes, h) + k] == holes[h]@[k],
        polygon_edges(outer, holes)[hole_start(outer, holes, h) + k] == ring_edge(
            hole_start(outer, holes, h),
            holes[h]@.len() as int,
            k,
        ),
{
    let first = outer.len() as int;
    let before = hole_points(holes.take(h)).len() as int;
    lemma_hole_prefix(holes, h, first);
    let upto = hole_points(holes.take(h + 1));
    assert(upto[before + k] == holes[h]@[k]);
    assert(hole_points(holes)[before + k] == hole_points(holes).subrange(0, upto.len() as int)[before
        + k]);
    let edges_upto = hole_edges(first, holes.take(h + 1));
    assert(edges_upto[before + k] == ring_edges(first + before, holes[h]@.len() as int)[k]);
    assert(hole_edges(first, holes)[before + k] == hole_edges(first, holes).subrange(
        0,
        edges_upto.len() as int,
    )[before + k]);
}

} // verus!
