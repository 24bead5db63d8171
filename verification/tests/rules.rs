use pyspade::constraints::resolve_constraints;
use pyspade::error::{accept_insertion, GeometryError};
use pyspade::mesh::{Edge, Face, RawMesh, Vertex};
use pyspade::refinement::{plan_refinement, RefinementRequest};
use pyspade::rings::{prepare_rings, ring_is_valid, MIN_RING_POINTS};

fn vertex(handle: usize, x: i32, y: i32) -> Vertex<i32> {
    Vertex { handle, x, y }
}

fn face(handle: usize, corners: (usize, usize, usize)) -> Face {
    Face { handle, corners }
}

fn edge(a: usize, b: usize, constrained: bool) -> Edge {
    Edge { ends: (a, b), constrained }
}

/// A square cut along one diagonal, with handles that are not positions.
fn cut_square() -> (Vec<Vertex<i32>>, Vec<Face>, Vec<Edge>) {
    (
        vec![vertex(7, 0, 0), vertex(3, 10, 0), vertex(9, 10, 10), vertex(5, 0, 10)],
        vec![face(40, (9, 7, 3)), face(41, (5, 7, 9))],
        vec![
            edge(7, 3, true),
            edge(3, 9, true),
            edge(9, 7, false),
            edge(9, 5, true),
            edge(5, 7, true),
        ],
    )
}

fn request(
    max_edge_length: Option<i32>,
    min_angle_degrees: Option<i32>,
    triangulate_holes: bool,
) -> RefinementRequest<i32> {
    RefinementRequest { max_edge_length, min_angle_degrees, triangulate_holes }
}

#[test]
fn three_points_make_a_ring() {
    assert_eq!(MIN_RING_POINTS, 3);
    assert!(!ring_is_valid::<u8>(&vec![]));
    assert!(!ring_is_valid(&vec![1, 2]));
    assert!(ring_is_valid(&vec![1, 2, 3]));
    assert!(ring_is_valid(&vec![1, 2, 3, 4]));
}

#[test]
fn outer_ring_alone_is_closed() {
    let input = prepare_rings(&vec!['a', 'b', 'c', 'd'], &vec![]).unwrap();
    assert_eq!(input.points, vec!['a', 'b', 'c', 'd']);
    assert_eq!(input.edges, vec![(0, 1), (1, 2), (2, 3), (3, 0)]);
}

#[test]
fn holes_follow_the_outer_ring() {
    let holes = vec![vec!['e', 'f', 'g'], vec!['h', 'i', 'j', 'k']];
    let input = prepare_rings(&vec!['a', 'b', 'c', 'd'], &holes).unwrap();
    assert_eq!(input.points, vec!['a', 'b', 'c', 'd', 'e', 'f', 'g', 'h', 'i', 'j', 'k']);
    assert_eq!(
        input.edges,
        vec![
            (0, 1),
            (1, 2),
            (2, 3),
            (3, 0),
            (4, 5),
            (5, 6),
            (6, 4),
            (7, 8),
            (8, 9),
            (9, 10),
            (10, 7)
        ]
    );
}

#[test]
fn every_ring_needs_three_points() {
    let ok = vec![1, 2, 3];
    assert_eq!(prepare_rings::<i32>(&vec![], &vec![]).err(), Some(GeometryError::InvalidInput));
    assert_eq!(prepare_rings(&vec![1], &vec![]).err(), Some(GeometryError::InvalidInput));
    assert_eq!(prepare_rings(&vec![1, 2], &vec![ok.clone()]).err(), Some(GeometryError::InvalidInput));
    assert_eq!(
        prepare_rings(&ok, &vec![ok.clone(), vec![4, 5]]).err(),
        Some(GeometryError::InvalidInput)
    );
    assert_eq!(prepare_rings(&ok, &vec![vec![]]).err(), Some(GeometryError::InvalidInput));
    assert!(prepare_rings(&ok, &vec![ok.clone(), ok.clone()]).is_ok());
}

#[test]
fn constraints_use_the_handles() {
    let edges = vec![(0, 1), (1, 2), (2, 0)];
    let handles = vec![12, 10, 11];
    assert_eq!(resolve_constraints(&edges, &handles), vec![(12, 10), (10, 11), (11, 12)]);
}

#[test]
fn degenerate_constraints_are_skipped() {
    let edges = vec![(0, 1), (1, 2), (2, 3), (3, 3), (3, 4), (4, 0), (1, 9), (9, 1)];
    let handles = vec![0, 1, 1, 2, 0];
    assert_eq!(resolve_constraints(&edges, &handles), vec![(0, 1), (1, 2), (2, 0)]);
    assert_eq!(resolve_constraints(&vec![], &handles), vec![]);
    assert_eq!(resolve_constraints(&edges, &vec![]), vec![]);
}

#[test]
fn insertion_outcome_decides_the_run() {
    assert_eq!(accept_insertion(Some(5)), Ok(5));
    assert_eq!(accept_insertion(Some(0)), Ok(0));
    assert_eq!(accept_insertion(None), Err(GeometryError::InsertionFailure));
}

#[test]
fn failures_have_their_own_text() {
    assert_eq!(GeometryError::InvalidInput.message(), "a ring needs at least three points");
    assert_eq!(
        GeometryError::InsertionFailure.message(),
        "the triangulation rejected a coordinate"
    );
}

#[test]
fn no_wish_means_no_refinement() {
    assert!(plan_refinement(&request(None, None, false), 4, 0).is_none());
    assert!(plan_refinement(&request(None, None, true), 4, 0).is_none());
    assert!(plan_refinement(&request(None, None, true), 8, 1).is_none());
}

#[test]
fn no_constraint_means_no_refinement() {
    assert!(plan_refinement(&request(Some(1), Some(20), false), 0, 0).is_none());
    assert!(plan_refinement(&request(None, None, false), 0, 2).is_none());
}

#[test]
fn a_hole_to_leave_out_calls_for_refinement() {
    let plan = plan_refinement(&request(None, None, false), 8, 1).unwrap();
    assert!(plan.exclude_outer_faces);
    assert_eq!(plan.max_edge_length, None);
    assert_eq!(plan.min_angle_degrees, None);
}

#[test]
fn bounds_are_handed_on() {
    let plan = plan_refinement(&request(Some(3), None, false), 4, 0).unwrap();
    assert!(!plan.exclude_outer_faces);
    assert_eq!(plan.max_edge_length, Some(3));
    assert_eq!(plan.min_angle_degrees, None);
    let plan = plan_refinement(&request(None, Some(20), true), 8, 1).unwrap();
    assert!(!plan.exclude_outer_faces);
    assert_eq!(plan.max_edge_length, None);
    assert_eq!(plan.min_angle_degrees, Some(20));
    let plan = plan_refinement(&request(Some(3), Some(20), false), 8, 2).unwrap();
    assert!(plan.exclude_outer_faces);
    assert_eq!(plan.max_edge_length, Some(3));
    assert_eq!(plan.min_angle_degrees, Some(20));
}

#[test]
fn mesh_is_renumbered_by_position() {
    let (vertices, faces, edges) = cut_square();
    let mesh = RawMesh::new(vertices, faces, edges).unwrap();
    let result = mesh.extract(&vec![], -1);
    assert_eq!(result.vertices, vec![(0, 0, -1), (10, 0, -1), (10, 10, -1), (0, 10, -1)]);
    assert_eq!(result.triangles, vec![(2, 0, 1), (3, 0, 2)]);
    assert_eq!(result.edges, vec![(0, 1), (1, 2), (2, 3), (3, 0)]);
}

#[test]
fn excluded_faces_are_left_out() {
    let (vertices, faces, edges) = cut_square();
    let mesh = RawMesh::new(vertices, faces, edges).unwrap();
    let result = mesh.extract(&vec![40, 99, 40], 0);
    assert_eq!(result.vertices.len(), 4);
    assert_eq!(result.triangles, vec![(3, 0, 2)]);
    assert_eq!(result.edges, vec![(0, 1), (1, 2), (2, 3), (3, 0)]);
    let result = mesh.extract(&vec![41, 40], 0);
    assert_eq!(result.vertices.len(), 4);
    assert_eq!(result.triangles, vec![]);
    assert_eq!(result.edges.len(), 4);
}

#[test]
fn excluding_is_removing_afterwards() {
    let (vertices, faces, edges) = cut_square();
    let all_faces = faces.clone();
    let mesh = RawMesh::new(vertices, faces, edges).unwrap();
    let everything = mesh.extract(&vec![], 0);
    assert_eq!(everything.triangles.len(), all_faces.len());
    for excluded in [vec![], vec![40], vec![41], vec![40, 41]] {
        let by_hand: Vec<(usize, usize, usize)> = all_faces
            .iter()
            .zip(everything.triangles.iter())
            .filter(|(face, _)| !excluded.contains(&face.handle))
            .map(|(_, triangle)| *triangle)
            .collect();
        assert_eq!(mesh.extract(&excluded, 0).triangles, by_hand);
    }
}

#[test]
fn empty_mesh_gives_an_empty_result() {
    let mesh = RawMesh::<i32>::new(vec![], vec![], vec![]).unwrap();
    let result = mesh.extract(&vec![1, 2], 0);
    assert!(result.vertices.is_empty());
    assert!(result.triangles.is_empty());
    assert!(result.edges.is_empty());
}

#[test]
fn shared_handle_is_refused() {
    let (mut vertices, faces, edges) = cut_square();
    vertices.push(vertex(3, 1, 1));
    assert!(RawMesh::new(vertices, faces, edges).is_none());
}

#[test]
fn face_with_unknown_corner_is_refused() {
    let (vertices, mut faces, edges) = cut_square();
    faces.push(face(42, (7, 3, 8)));
    assert!(RawMesh::new(vertices, faces, edges).is_none());
    let (vertices, mut faces, edges) = cut_square();
    faces.push(face(42, (8, 3, 7)));
    assert!(RawMesh::new(vertices, faces, edges).is_none());
    let (vertices, mut faces, edges) = cut_square();
    faces.push(face(42, (7, 8, 3)));
    assert!(RawMesh::new(vertices, faces, edges).is_none());
}

#[test]
fn edge_with_unknown_end_is_refused() {
    let (vertices, faces, mut edges) = cut_square();
    edges.push(edge(7, 8, false));
    assert!(RawMesh::new(vertices, faces, edges).is_none());
    let (vertices, faces, mut edges) = cut_square();
    edges.push(edge(8, 7, true));
    assert!(RawMesh::new(vertices, faces, edges).is_none());
}
