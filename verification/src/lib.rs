//! Bookkeeping around a constrained Delaunay triangulation of a polygon with
//! holes: the rings become one point list and a list of constraint edges, the
//! handles that the triangulation gave the points pick the constraints that are
//! worth adding, the caller's wishes decide whether the mesh is refined, and
//! the finished mesh is renumbered into dense indices.
//!
//! Coordinates are carried, never computed with: every function is generic in
//! the scalar or the point type.

pub mod constraints;
pub mod error;
pub mod mesh;
pub mod refinement;
pub mod rings;
