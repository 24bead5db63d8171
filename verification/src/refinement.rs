//! Whether a mesh is refined after its constraints are in, and with which
//! bounds.

use vstd::prelude::*;

verus! {

/// The bound on a triangle's area that stands for a bound on its edges is the
/// squared edge length times this many thousandths: about the area of the
/// equilateral triangle with that edge. It is a stand-in, not a bound on any
/// single edge.
pub const AREA_PER_SQUARE_EDGE_THOUSANDTHS: u32 = 433;

/// What the caller asked for. `S` is the scalar of the coordinates.
#[derive(Debug)]
pub struct RefinementRequest<S> {
    /// Target for the longest edge of a triangle, if any.
    pub max_edge_length: Option<S>,
    /// Smallest interior angle to aim for, in degrees, if any.
    pub min_angle_degrees: Option<S>,
    /// Mesh through the holes as if they were part of the domain.
    pub triangulate_holes: bool,
}

/// A refinement to carry out.
#[derive(Debug)]
pub struct RefinementPlan<S> {
    /// Leave the faces outside the domain, holes included, out of the
    /// refinement and report them.
    pub exclude_outer_faces: bool,
    /// The edge length from which the bound on a triangle's area derives.
    pub max_edge_length: Option<S>,
    /// The angle bound, in degrees.
    pub min_angle_degrees: Option<S>,
}

/// Faces inside holes are left out of the result: the caller did not ask for
/// meshed holes, and there is a hole.
pub open spec fn excludes_holes(triangulate_holes: bool, hole_count: nat) -> bool {
    !triangulate_holes && hole_count > 0
}

/// The plan for a request on a mesh with `constraint_count` constraint edges
/// and `hole_count` holes. There is none when the mesh has no constraint, nor
/// when the caller set no bound and no hole is to be left out.
pub open spec fn planned_refinement<S>(
    request: RefinementRequest<S>,
    constraint_count: nat,
    hole_count: nat,
) -> Option<RefinementPlan<S>> {
    let exclude = excludes_holes(request.triangulate_holes, hole_count);
    if constraint_count > 0 && (request.max_edge_length is Some || request.min_angle_degrees is Some
        || exclude) {
        Some(
            RefinementPlan {
                exclude_outer_faces: exclude,
                max_edge_length: request.max_edge_length,
                min_angle_degrees: request.min_angle_degrees,
            },
        )
    } else {
        None
    }
}

/// Decides whether to refine, and hands the caller's bounds on unchanged.
pub fn plan_refinement<S: Copy>(
    request: &RefinementRequest<S>,
    constraint_count: usize,
    hole_count: usize,
) -> (plan: Option<RefinementPlan<S>>)
    ensures
        plan == planned_refinement(*request, constraint_count as nat, hole_count as nat),
{
    let exclude = !request.triangulate_holes && hole_count > 0;
    if constraint_count > 0 && (request.max_edge_length.is_some()
        || request.min_angle_degrees.is_some() || exclude) {
        Some(
            RefinementPlan {
                exclude_outer_faces: exclude,
                max_edge_length: request.max_edge_length,
                min_angle_degrees: request.min_angle_degrees,
            },
        )
    } else {
        None
    }
}

} // verus!
