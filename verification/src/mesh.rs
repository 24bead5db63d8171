//! A finished triangulation as plain values, and its renumbering into the
//! dense indices of a result.

use std::collections::HashMap;
use std::collections::HashSet;
use vstd::prelude::*;

verus! {

broadcast use vstd::std_specs::hash::group_hash_axioms;

/// A vertex of the triangulation.
#[derive(Debug)]
pub struct Vertex<S> {
    /// The handle by which faces and edges refer to the vertex.
    pub handle: usize,
    pub x: S,
    pub y: S,
}

/// A triangle of the triangulation.
#[derive(Clone, Copy, Debug)]
pub struct Face {
    /// The handle by which the triangulation refers to the face.
    pub handle: usize,
    /// The handles of its three vertices, in the triangulation's order.
    pub corners: (usize, usize, usize),
}

/// An undirected edge of the triangulation.
#[derive(Clone, Copy, Debug)]
pub struct Edge {
    /// The handles of its two vertices.
    pub ends: (usize, usize),
    /// The edge is one that the triangulation was obliged to contain.
    pub constrained: bool,
}

/// The handles of a vertex list, in its order.
pub open spec fn handles_of<S>(vertices: Seq<Vertex<S>>) -> Seq<usize> {
    vertices.map_values(|v: Vertex<S>| v.handle)
}

/// No two vertices share a handle, and every face and every edge refers to
/// vertices of the list.
pub open spec fn mesh_is_closed<S>(vertices: Seq<Vertex<S>>, faces: Seq<Face>, edges: Seq<Edge>) -> bool {
    let handles = handles_of(vertices);
    &&& handles.no_duplicates()
    &&& forall|f: int|
        0 <= f < faces.len() ==> {
            &&& handles.contains((#[trigger] faces[f]).corners.0)
            &&& handles.contains(faces[f].corners.1)
            &&& handles.contains(faces[f].corners.2)
        }
    &&& forall|e: int|
        0 <= e < edges.len() ==> {
            &&& handles.contains((#[trigger] edges[e]).ends.0)
            &&& handles.contains(edges[e].ends.1)
        }
}

/// The dense index of a vertex: the position of its handle in the vertex
/// list.
pub open spec fn dense_index(handles: Seq<usize>, handle: usize) -> usize {
    handles.index_of(handle) as usize
}

/// A vertex as it is emitted: its two coordinates and a third that only
/// holds the place.
pub open spec fn emitted_vertex<S>(vertex: Vertex<S>, placeholder: S) -> (S, S, S) {
    (vertex.x, vertex.y, placeholder)
}

/// A face as it is emitted, unless its handle is among the excluded ones.
pub open spec fn emitted_face(handles: Seq<usize>, excluded: Set<usize>, face: Face) -> Option<
    (usize, usize, usize),
> {
    if excluded.contains(face.handle) {
        None
    } else {
        Some(
            (
                dense_index(handles, face.corners.0),
                dense_index(handles, face.corners.1),
                dense_index(handles, face.corners.2),
            ),
        )
    }
}

/// An edge as it is emitted, if it is a constraint edge.
pub open spec fn emitted_edge(handles: Seq<usize>, edge: Edge) -> Option<(usize, usize)> {
    if edge.constrained {
        Some((dense_index(handles, edge.ends.0), dense_index(handles, edge.ends.1)))
    } else {
        None
    }
}

/// Every vertex, in the order of the list.
pub open spec fn emitted_vertices<S>(vertices: Seq<Vertex<S>>, placeholder: S) -> Seq<(S, S, S)> {
    vertices.map_values(|v: Vertex<S>| emitted_vertex(v, placeholder))
}

/// The faces that are not excluded, in the order of the list, over dense
/// indices.
pub open spec fn emitted_triangles(faces: Seq<Face>, handles: Seq<usize>, excluded: Set<usize>) -> Seq<
    (usize, usize, usize),
> {
    faces.filter_map(|face: Face| emitted_face(handles, excluded, face))
}

/// The constraint edges, each once, in the order of the list, over dense
/// indices.
pub open spec fn emitted_edges(edges: Seq<Edge>, handles: Seq<usize>) -> Seq<(usize, usize)> {
    edges.filter_map(|edge: Edge| emitted_edge(handles, edge))
}

/// The mesh that a caller receives. All indices are positions in `vertices`.
#[derive(Debug)]
pub struct TriangulationResult<S> {
    pub vertices: Vec<(S, S, S)>,
    pub triangles: Vec<(usize, usize, usize)>,
    pub edges: Vec<(usize, usize)>,
}

/// The handles of a list as a set.
fn handle_set(handles: &Vec<usize>) -> (set: HashSet<usize>)
    ensures
        set@ == handles@.to_set(),
{
    let mut set: HashSet<usize> = HashSet::new();
    let mut i: usize = 0;
    while i < handles.len()
        invariant
            i <= handles.len(),
            set@ =~= handles@.take(i as int).to_set(),
        decreases handles.len() - i,
    {
        proof {
            assert(handles@.take(i + 1) == handles@.take(i as int).push(handles@[i as int]));
            handles@.take(i as int).lemma_push_to_set_commute(handles@[i as int]);
        }
        set.insert(handles[i]);
        i += 1;
    }
    proof {
        assert(handles@.take(handles@.len() as int) == handles@);
    }
    set
}

/// A triangulation read off in the order in which it enumerates its
/// vertices, its inner faces and its undirected edges. Every value of this
/// type is closed in the sense of `mesh_is_closed`.
pub struct RawMesh<S> {
    vertices: Vec<Vertex<S>>,
    faces: Vec<Face>,
    edges: Vec<Edge>,
    /// The position of each handle in `vertices`.
    slots: HashMap<usize, usize>,
}

/// `slots` sends the handle at each of the first `n` positions to that
/// position, and holds nothing else.
spec fn slots_match(slots: Map<usize, usize>, handles: Seq<usize>, n: int) -> bool {
    &&& forall|i: int| 0 <= i < n ==> slots.contains_key(#[trigger] handles[i]) && slots[handles[i]] == i
    &&& forall|h: usize| #[trigger]
        slots.contains_key(h) ==> 0 <= slots[h] < n && handles[slots[h] as int] == h
}

impl<S> RawMesh<S> {
    #[verifier::type_invariant]
    spec fn well_formed(self) -> bool {
        &&& mesh_is_closed(self.vertices@, self.faces@, self.edges@)
        &&& slots_match(self.slots@, handles_of(self.vertices@), self.vertices@.len() as int)
    }

    /// The vertices, in the triangulation's order.
    pub closed spec fn vertices(self) -> Seq<Vertex<S>> {
        self.vertices@
    }

    /// The inner faces, in the triangulation's order.
    pub closed spec fn faces(self) -> Seq<Face> {
        self.faces@
    }

    /// The undirected edges, in the triangulation's order.
    pub closed spec fn edges(self) -> Seq<Edge> {
        self.edges@
    }

    /// Takes a triangulation over if it is closed, and refuses it otherwise.
    pub fn new(vertices: Vec<Vertex<S>>, faces: Vec<Face>, edges: Vec<Edge>) -> (mesh: Option<Self>)
        ensures
            mesh is Some <==> mesh_is_closed(vertices@, faces@, edges@),
            mesh matches Some(m) ==> {
                &&& m.vertices() == vertices@
                &&& m.faces() == faces@
                &&& m.edges() == edges@
            },
    {
        let ghost handles = handles_of(vertices@);
        let mut slots: HashMap<usize, usize> = HashMap::new();
        let mut i: usize = 0;
        while i < vertices.len()
            invariant
                i <= vertices.len(),
                handles == handles_of(vertices@),
                slots_match(slots@, handles, i as int),
            decreases vertices.len() - i,
        {
            let h: usize = vertices[i].handle;
            assert(handles[i as int] == h);
            if slots.contains_key(&h) {
                assert(handles[slots@[h] as int] == handles[i as int]);
                return None;
            }
            slots.insert(h, i);
            i += 1;
        }
        assert(handles.no_duplicates());
        let mut f: usize = 0;
        while f < faces.len()
            invariant
                f <= faces.len(),
                handles == handles_of(vertices@),
                slots_match(slots@, handles, vertices@.len() as int),
                forall|g: int|
                    0 <= g < f ==> {
                        &&& handles.contains((#[trigger] faces@[g]).corners.0)
                        &&& handles.contains(faces@[g].corners.1)
                        &&& handles.contains(faces@[g].corners.2)
                    },
            decreases faces.len() - f,
        {
            let c = faces[f].corners;
            if !(slots.contains_key(&c.0) && slots.contains_key(&c.1) && slots.contains_key(&c.2)) {
                return None;
            }
            f += 1;
        }
        let mut e: usize = 0;
        while e < edges.len()
            invariant
                e <= edges.len(),
                handles == handles_of(vertices@),
                slots_match(slots@, handles, vertices@.len() as int),
                forall|g: int|
                    0 <= g < e ==> {
                        &&& handles.contains((#[trigger] edges@[g]).ends.0)
                        &&& handles.contains(edges@[g].ends.1)
                    },
            decreases edges.len() - e,
        {
            let ends = edges[e].ends;
            if !(slots.contains_key(&ends.0) && slots.contains_key(&ends.1)) {
                return None;
            }
            e += 1;
        }
        Some(RawMesh { vertices, faces, edges, slots })
    }

    /// The dense index of a vertex of this mesh.
    fn slot_of(&self, handle: usize) -> (index: usize)
        requires
            handles_of(self.vertices()).contains(handle),
        ensures
            index == dense_index(handles_of(self.vertices()), handle),
            index < self.vertices().len(),
    {
        proof {
            use_type_invariant(self);
        }
        *self.slots.get(&handle).unwrap()
    }

    /// Renumbers the mesh: vertices get their position in the triangulation's
    /// order as index, every face whose handle is not in `excluded` becomes a
    /// triangle over those indices, and every constraint edge is emitted once,
    /// whether or not the faces beside it are excluded. Each vertex gets
    /// `placeholder` as its third coordinate.
    pub fn extract(&self, excluded: &Vec<usize>, placeholder: S) -> (result: TriangulationResult<S>)
        where S: Copy
        ensures
            result.vertices@ == emitted_vertices(self.vertices(), placeholder),
            result.triangles@ == emitted_triangles(
                self.faces(),
                handles_of(self.vertices()),
                excluded@.to_set(),
            ),
            result.edges@ == emitted_edges(self.edges(), handles_of(self.vertices())),
    {
        proof {
            use_type_invariant(self);
        }
        let ghost handles = handles_of(self.vertices@);
        let excluded_set = handle_set(excluded);

        let mut vertices: Vec<(S, S, S)> = Vec::new();
        let mut i: usize = 0;
        while i < self.vertices.len()
            invariant
                i <= self.vertices@.len(),
                vertices@ =~= emitted_vertices(self.vertices@.take(i as int), placeholder),
            decreases self.vertices.len() - i,
        {
            let v = &self.vertices[i];
            vertices.push((v.x, v.y, placeholder));
            i += 1;
        }
        proof {
            assert(self.vertices@.take(self.vertices@.len() as int) == self.vertices@);
        }

        let ghost pick_face = |face: Face| emitted_face(handles, excluded@.to_set(), face);
        let mut triangles: Vec<(usize, usize, usize)> = Vec::new();
        let mut f: usize = 0;
        while f < self.faces.len()
            invariant
                f <= self.faces@.len(),
                handles == handles_of(self.vertices()),
                mesh_is_closed(self.vertices@, self.faces@, self.edges@),
                excluded_set@ == excluded@.to_set(),
                pick_face == |face: Face| emitted_face(handles, excluded@.to_set(), face),
                triangles@ == self.faces@.take(f as int).filter_map(pick_face),
            decreases self.faces.len() - f,
        {
            let face = self.faces[f];
            proof {
                self.faces@.lemma_filter_map_take_succ(pick_face, f as int);
            }
            if !excluded_set.contains(&face.handle) {
                let a = self.slot_of(face.corners.0);
                let b = self.slot_of(face.corners.1);
                let c = self.slot_of(face.corners.2);
                triangles.push((a, b, c));
            }
            f += 1;
        }
        proof {
            assert(self.faces@.take(self.faces@.len() as int) == self.faces@);
        }

        let ghost pick_edge = |edge: Edge| emitted_edge(handles, edge);
        let mut edges: Vec<(usize, usize)> = Vec::new();
        let mut e: usize = 0;
        while e < self.edges.len()
            invariant
                e <= self.edges@.len(),
                handles == handles_of(self.vertices()),
                mesh_is_closed(self.vertices@, self.faces@, self.edges@),
                pick_edge == |edge: Edge| emitted_edge(handles, edge),
                edges@ == self.edges@.take(e as int).filter_map(pick_edge),
            decreases self.edges.len() - e,
        {
            let edge = self.edges[e];
            proof {
                self.edges@.lemma_filter_map_take_succ(pick_edge, e as int);
            }
            if edge.constrained {
                let a = self.slot_of(edge.ends.0);
                let b = self.slot_of(edge.ends.1);
                edges.push((a, b));
            }
            e += 1;
        }
        proof {
            assert(self.edges@.take(self.edges@.len() as int) == self.edges@);
        }
        TriangulationResult { vertices, triangles, edges }
    }
}

/// The vertex at position `i` has dense index `i`: a triangle or an edge that
/// names an index names the vertex emitted at that position.
pub proof fn lemma_dense_index_of_position<S>(vertices: Seq<Vertex<S>>, i: int)
    requires
        handles_of(vertices).no_duplicates(),
        0 <= i < vertices.len() <= usize::MAX,
    ensures
        dense_index(handles_of(vertices), vertices[i].handle) == i,
{
    let handles = handles_of(vertices);
    assert(handles[i] == vertices[i].handle);
    assert(handles.contains(vertices[i].handle));
    handles.index_of_first_ensures(vertices[i].handle);
}

/// The dense index of a handle of the list is the position of the vertex
/// that has this handle.
pub proof fn lemma_dense_index_names_vertex<S>(vertices: Seq<Vertex<S>>, handle: usize)
    requires
        handles_of(vertices).contains(handle),
        vertices.len() <= usize::MAX,
    ensures
        dense_index(handles_of(vertices), handle) < vertices.len(),
        vertices[dense_index(handles_of(vertices), handle) as int].handle == handle,
{
    let handles = handles_of(vertices);
    let i = handles.index_of(handle);
    assert(handles[i] == vertices[i].handle);
}

/// Every index of an emitted triangle or edge is the position of a vertex.
pub proof fn lemma_emitted_indices_in_range<S>(
    vertices: Seq<Vertex<S>>,
    faces: Seq<Face>,
    edges: Seq<Edge>,
    excluded: Set<usize>,
)
    requires
        mesh_is_closed(vertices, faces, edges),
        vertices.len() <= usize::MAX,
    ensures
        forall|t: (usize, usize, usize)| #[trigger]
            emitted_triangles(faces, handles_of(vertices), excluded).contains(t) ==> t.0
                < vertices.len() && t.1 < vertices.len() && t.2 < vertices.len(),
        forall|d: (usize, usize)| #[trigger]
            emitted_edges(edges, handles_of(vertices)).contains(d) ==> d.0 < vertices.len() && d.1
                < vertices.len(),
{
    let handles = handles_of(vertices);
    assert forall|t: (usize, usize, usize)| #[trigger]
        emitted_triangles(faces, handles, excluded).contains(t) implies t.0 < vertices.len() && t.1
        < vertices.len() && t.2 < vertices.len() by {
        let pick = |face: Face| emitted_face(handles, excluded, face);
        faces.lemma_filter_map_contains(pick, t);
        let face = choose|face: Face| #[trigger] faces.contains(face) && pick(face) == Some(t);
        let f = choose|f: int| 0 <= f < faces.len() && faces[f] == face;
        assert(handles.contains(faces[f].corners.0));
    }
    assert forall|d: (usize, usize)| #[trigger]
        emitted_edges(edges, handles).contains(d) implies d.0 < vertices.len() && d.1
        < vertices.len() by {
        let pick = |edge: Edge| emitted_edge(handles, edge);
        edges.lemma_filter_map_contains(pick, d);
        let edge = choose|edge: Edge| #[trigger] edges.contains(edge) && pick(edge) == Some(d);
        let e = choose|e: int| 0 <= e < edges.len() && edges[e] == edge;
        assert(handles.contains(edges[e].ends.0));
    }
}

/// With no face excluded there is one triangle for each face, in the order
/// of the faces.
pub proof fn lemma_all_faces_emitted(faces: Seq<Face>, handles: Seq<usize>)
    ensures
        emitted_triangles(faces, handles, Set::empty()).len() == faces.len(),
        forall|f: int|
            0 <= f < faces.len() ==> Some(
                #[trigger] emitted_triangles(faces, handles, Set::empty())[f],
            ) == emitted_face(handles, Set::empty(), faces[f]),
    decreases faces.len(),
{
    if faces.len() > 0 {
        lemma_all_faces_emitted(faces.drop_last(), handles);
    }
}

/// Excluding faces while emitting gives the triangles that emitting all faces
/// of the mesh without the excluded ones gives: to leave the holes out is to
/// mesh through them and then take away the faces classified as inside.
pub proof fn lemma_exclusion_is_removal(faces: Seq<Face>, handles: Seq<usize>, excluded: Set<usize>)
    ensures
        emitted_triangles(faces, handles, excluded) == emitted_triangles(
            faces.filter(|face: Face| !excluded.contains(face.handle)),
            handles,
            Set::empty(),
        ),
    decreases faces.len(),
{
    let stays = |face: Face| !excluded.contains(face.handle);
    reveal(Seq::filter);
    if faces.len() > 0 {
        let rest = faces.drop_last();
        lemma_exclusion_is_removal(rest, handles, excluded);
        if stays(faces.last()) {
            assert(faces.filter(stays).drop_last() == rest.filter(stays));
        }
    }
}

/// Every constraint edge of the mesh is emitted, whatever faces are
/// excluded, and nothing else is: the emitted edges are as many as the
/// constraint edges.
pub proof fn lemma_constraint_edges_emitted(edges: Seq<Edge>, handles: Seq<usize>)
    ensures
        emitted_edges(edges, handles).len() == edges.filter(|edge: Edge| edge.constrained).len(),
        forall|e: int|
            0 <= e < edges.len() && (#[trigger] edges[e]).constrained ==> emitted_edges(
                edges,
                handles,
            ).contains(
                (dense_index(handles, edges[e].ends.0), dense_index(handles, edges[e].ends.1)),
            ),
    decreases edges.len(),
{
    reveal(Seq::filter);
    if edges.len() > 0 {
        let rest = edges.drop_last();
        lemma_constraint_edges_emitted(rest, handles);
        let all = emitted_edges(edges, handles);
        let before = emitted_edges(rest, handles);
        assert forall|e: int| 0 <= e < edges.len() && (#[trigger] edges[e]).constrained implies all.contains(
            (dense_index(handles, edges[e].ends.0), dense_index(handles, edges[e].ends.1)),
        ) by {
            let d = (dense_index(handles, edges[e].ends.0), dense_index(handles, edges[e].ends.1));
            if e < rest.len() {
                assert(rest[e] == edges[e]);
                assert(before.contains(d));
                let k = choose|k: int| 0 <= k < before.len() && before[k] == d;
                assert(all[k] == d);
            } else {
                assert(all[all.len() - 1] == d);
            }
        }
    }
}

} // verus!
