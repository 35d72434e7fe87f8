//! The quadtree of faces.
//!
//! The root holds the 20 faces of the icosahedron. Every other node is one
//! face; once it has been split it also holds its four children. Nodes are
//! made by `refine` and never taken away again.

use crate::location::algebra::obeys_midpoint_spec;
use crate::location::algebra::total_add;
use crate::location::algebra::total_div;
use crate::location::algebra::Norm;
use crate::location::algebra::One;
use crate::planet::count::lemma_counts_fit;
use crate::planet::count::lemma_face_count_step;
use crate::planet::count::spec_vertex_count;
use crate::planet::count::MAX_GENERATION;
use crate::planet::edge::Edge;
use crate::planet::face::Face;
use crate::planet::refinement::grown;
use crate::planet::refinement::lemma_grown_by_one;
use crate::planet::refinement::lemma_grown_concat;
use crate::planet::refinement::lemma_refine_store_concat;
use crate::planet::refinement::lemma_split_faces_concat;
use crate::planet::refinement::lemma_supported_kept;
use crate::planet::refinement::split_face_store;
use crate::planet::refinement::refinable;
use crate::planet::refinement::refine_store;
use crate::planet::refinement::split_faces;
use crate::planet::refinement::supported;
use crate::planet::seed::adjacent;
use crate::planet::seed::great_edge_index;
use crate::planet::seed::joins;
use crate::planet::seed::seed_edge;
use crate::planet::seed::seed_edge_vertices;
use crate::planet::vertices::holds;
use crate::planet::vertices::Vertices;
use std::ops::Add;
use std::ops::Div;
use std::ops::Neg;
use vstd::prelude::*;

verus! {

/// A node of the quadtree: the root with the faces of the icosahedron, or
/// one face with, once it is split, its four children.
pub enum Region {
    Root(Vec<Region>),
    Child {
        generation: u32,
        index: u64,
        vertices: [u64; 3],
        edges_index: [u64; 3],
        children: Option<Vec<Region>>,
    },
}

/// The triangles of a run of faces as a flat list of vertex indices: three
/// for each face, in winding order.
pub open spec fn triangles(faces: Seq<Face>) -> Seq<u64> {
    Seq::new(3 * faces.len(), |i: int| faces[i / 3].vertex(i % 3))
}

/// The triangles of two runs of faces are those of the first run followed
/// by those of the second.
pub proof fn lemma_triangles_concat(first: Seq<Face>, second: Seq<Face>)
    ensures
        triangles(first + second) =~= triangles(first) + triangles(second),
{
    assert forall|i: int| 0 <= i < 3 * (first.len() + second.len()) implies triangles(
        first + second,
    )[i] == (triangles(first) + triangles(second))[i] by {
        if i < 3 * first.len() {
            assert(i / 3 < first.len());
        } else {
            assert((i - 3 * first.len()) / 3 == i / 3 - first.len());
            assert((i - 3 * first.len()) % 3 == i % 3);
        }
    }
}

impl Region {
    /// The record of the face that a node stands for. The root stands for
    /// no face.
    pub open spec fn face(self) -> Face {
        match self {
            Region::Root(_) => Face {
                generation: 0,
                index: 0,
                vertices: (0, 0, 0),
                edges: (0, 0, 0),
            },
            Region::Child { generation, index, vertices, edges_index, .. } => Face {
                generation,
                index,
                vertices: (vertices[0], vertices[1], vertices[2]),
                edges: (edges_index[0], edges_index[1], edges_index[2]),
            },
        }
    }

    /// A face that has not been split.
    pub open spec fn is_leaf(self) -> bool {
        self matches Region::Child { children: None, .. }
    }

    /// A well-formed tree. The root has 20 faces below it. A face belongs
    /// to its generation, and if it is split, its four children are the
    /// ones that the split arithmetic gives.
    pub open spec fn wf(self) -> bool
        decreases self,
    {
        match self {
            Region::Root(faces) => {
                &&& faces@.len() == 20
                &&& forall|i: int|
                    0 <= i < faces@.len() ==> (#[trigger] faces@[i]) is Child && faces@[i].wf()
            },
            Region::Child { children, .. } => {
                &&& self.face().wf()
                &&& match children {
                    None => true,
                    Some(children) => {
                        &&& children@.len() == 4
                        &&& self.face().generation < MAX_GENERATION
                        &&& forall|k: int|
                            0 <= k < children@.len() ==> {
                                &&& (#[trigger] children@[k]) is Child
                                &&& children@[k].face() == self.face().child(k)
                                &&& children@[k].wf()
                            }
                    },
                }
            },
        }
    }

    /// The leaf faces below a node, in the order in which a depth-first
    /// walk meets them.
    pub open spec fn leaves(self) -> Seq<Face>
        decreases self, 1nat,
    {
        match self {
            Region::Root(faces) => Region::leaves_of(faces@),
            Region::Child { children, .. } => match children {
                None => seq![self.face()],
                Some(children) => Region::leaves_of(children@),
            },
        }
    }

    /// The leaf faces below a run of nodes.
    pub open spec fn leaves_of(regions: Seq<Region>) -> Seq<Face>
        decreases regions, 0nat,
    {
        if regions.len() == 0 {
            Seq::empty()
        } else {
            Region::leaves_of(regions.drop_last()) + regions.last().leaves()
        }
    }

    /// Whether this tree is `earlier` after one pass of refinement: every
    /// node of `earlier` is still there with the same record, every leaf of
    /// `earlier` has been given its four children, and these are leaves.
    pub open spec fn deepens(self, earlier: Region) -> bool
        decreases self,
    {
        match self {
            Region::Root(faces) => {
                &&& earlier matches Region::Root(before)
                &&& faces@.len() == before@.len()
                &&& forall|i: int|
                    0 <= i < faces@.len() ==> (#[trigger] faces@[i]).deepens(before@[i])
            },
            Region::Child { children, .. } => {
                &&& earlier is Child
                &&& self.face() == earlier.face()
                &&& children matches Some(children)
                &&& match earlier->children {
                    None => {
                        &&& children@.len() == 4
                        &&& forall|k: int|
                            0 <= k < children@.len() ==> {
                                &&& (#[trigger] children@[k]).is_leaf()
                                &&& children@[k].face() == earlier.face().child(k)
                            }
                    },
                    Some(before) => {
                        &&& children@.len() == before@.len()
                        &&& forall|k: int|
                            0 <= k < children@.len() ==> (#[trigger] children@[k]).deepens(
                                before@[k],
                            )
                    },
                }
            },
        }
    }

    /// A leaf face of generation 0 with the given corners, which have to
    /// be joined by edges of the icosahedron. Its edge indices are those
    /// of the seed edges between its corners.
    pub fn from_vertices(index: u64, vertices: [u64; 3]) -> (region: Region)
        requires
            adjacent(vertices[0], vertices[1]),
            adjacent(vertices[1], vertices[2]),
            adjacent(vertices[2], vertices[0]),
        ensures
            region.is_leaf(),
            region.face().generation == 0,
            region.face().index == index,
            region.face().vertices == (vertices[0], vertices[1], vertices[2]),
            joins(region.face().edges.0 as int, vertices[0], vertices[1]),
            joins(region.face().edges.1 as int, vertices[1], vertices[2]),
            joins(region.face().edges.2 as int, vertices[2], vertices[0]),
    {
        let edges_index = [
            great_edge_index(vertices[0], vertices[1]),
            great_edge_index(vertices[1], vertices[2]),
            great_edge_index(vertices[2], vertices[0]),
        ];
        Region::Child {
            generation: 0,
            index: index,
            vertices: vertices,
            edges_index: edges_index,
            children: None,
        }
    }

    /// A leaf face bounded by three edges that follow one another.
    pub fn new(index: u64, edges: [Edge; 3]) -> (region: Region)
        ensures
            region.is_leaf(),
            region.face() == Face::bounded_by(index, edges[0], edges[1], edges[2]),
    {
        let edges_index = [edges[0].index(), edges[1].index(), edges[2].index()];
        let vertices = [edges[0].start(), edges[1].start(), edges[2].start()];
        Region::Child {
            generation: edges[0].generation(),
            index: index,
            vertices: vertices,
            edges_index: edges_index,
            children: None,
        }
    }

    /// Edge `index` of a node. For a face that is one of its three edges,
    /// walked in winding order; for the root it is one of the 30 seed
    /// edges, walked from its smaller endpoint.
    pub fn edge(&self, index: u64) -> (edge: Edge)
        requires
            self is Root ==> index < 30,
            self is Child ==> index < 3,
        ensures
            self is Root ==> edge == (Edge {
                generation: 0,
                index,
                vertices: seed_edge(index as int),
            }),
            self is Child ==> edge == self.face().edge(index as int),
    {
        match self {
            Region::Root(_) => {
                let vertices = seed_edge_vertices(index);
                Edge::new(0, index, vertices)
            },
            Region::Child { generation, vertices, edges_index, .. } => {
                if index == 0 {
                    Edge::new(*generation, edges_index[0], (vertices[0], vertices[1]))
                } else if index == 1 {
                    Edge::new(*generation, edges_index[1], (vertices[1], vertices[2]))
                } else {
                    Edge::new(*generation, edges_index[2], (vertices[2], vertices[0]))
                }
            },
        }
    }
}

impl Region {
    /// Every node of a run is a well-formed face.
    pub open spec fn all_faces(regions: Seq<Region>) -> bool {
        forall|i: int| 0 <= i < regions.len() ==> (#[trigger] regions[i]) is Child && regions[i].wf()
    }

    /// A pass over a face that is split already leaves the face and its
    /// four children with the records they had: the face is not split a
    /// second time.
    pub proof fn lemma_deepens_split_face(self, earlier: Region)
        requires
            self.deepens(earlier),
            earlier.wf(),
            earlier is Child,
            !earlier.is_leaf(),
        ensures
            self.face() == earlier.face(),
            self->children is Some,
            self->children->0@.len() == 4,
            forall|k: int|
                0 <= k < 4 ==> (#[trigger] self->children->0@[k]).face()
                    == earlier->children->0@[k].face(),
            forall|k: int|
                0 <= k < 4 ==> (#[trigger] self->children->0@[k]).face() == self.face().child(k),
    {
        let now = self->children->0@;
        let before = earlier->children->0@;
        assert forall|k: int| 0 <= k < 4 implies (#[trigger] now[k]).face()
            == before[k].face() by {
            assert(now[k].deepens(before[k]));
            assert(before[k] is Child);
        }
    }

    /// The leaves below a run of leaves are the faces of the run.
    pub proof fn lemma_leaves_of_leaves(regions: Seq<Region>)
        requires
            forall|i: int| 0 <= i < regions.len() ==> (#[trigger] regions[i]).is_leaf(),
        ensures
            Region::leaves_of(regions).len() == regions.len(),
            forall|i: int|
                0 <= i < regions.len() ==> #[trigger] Region::leaves_of(regions)[i]
                    == regions[i].face(),
        decreases regions.len(),
    {
        if regions.len() > 0 {
            Region::lemma_leaves_of_leaves(regions.drop_last());
            assert(regions.last().leaves() =~= seq![regions.last().face()]);
        }
    }

    /// The leaves below a run of nodes, extended by one node.
    pub proof fn lemma_leaves_of_push(regions: Seq<Region>, last: Region)
        ensures
            Region::leaves_of(regions.push(last)) == Region::leaves_of(regions) + last.leaves(),
    {
        assert(regions.push(last).drop_last() =~= regions);
    }

    /// What holds of the corners of all leaves below a run of nodes holds
    /// of the leaves below each of them.
    pub proof fn lemma_leaves_of_each<P>(regions: Seq<Region>, store: Seq<Option<P>>, i: int)
        requires
            0 <= i < regions.len(),
        ensures
            supported(Region::leaves_of(regions), store) ==> supported(regions[i].leaves(), store),
            refinable(Region::leaves_of(regions)) ==> refinable(regions[i].leaves()),
        decreases regions.len(),
    {
        let front = Region::leaves_of(regions.drop_last());
        let back = regions.last().leaves();
        assert(Region::leaves_of(regions) == front + back);
        if i == regions.len() - 1 {
            if supported(front + back, store) {
                assert forall|j: int, k: int| 0 <= j < back.len() && 0 <= k < 3 implies holds(
                    store,
                    #[trigger] back[j].vertex(k) as int,
                ) by {
                    assert((front + back)[front.len() + j] == back[j]);
                    assert(holds(store, (front + back)[front.len() + j].vertex(k) as int));
                }
            }
            if refinable(front + back) {
                assert forall|j: int| 0 <= j < back.len() implies {
                    &&& (#[trigger] back[j]).wf()
                    &&& back[j].generation < MAX_GENERATION
                    &&& spec_vertex_count((back[j].generation + 1) as nat) <= usize::MAX
                } by {
                    assert((front + back)[front.len() + j] == back[j]);
                }
            }
        } else {
            Region::lemma_leaves_of_each(regions.drop_last(), store, i);
            if supported(front + back, store) {
                assert forall|j: int, k: int| 0 <= j < front.len() && 0 <= k < 3 implies holds(
                    store,
                    #[trigger] front[j].vertex(k) as int,
                ) by {
                    assert((front + back)[j] == front[j]);
                    assert(holds(store, (front + back)[j].vertex(k) as int));
                }
            }
            if refinable(front + back) {
                assert forall|j: int| 0 <= j < front.len() implies {
                    &&& (#[trigger] front[j]).wf()
                    &&& front[j].generation < MAX_GENERATION
                    &&& spec_vertex_count((front[j].generation + 1) as nat) <= usize::MAX
                } by {
                    assert((front + back)[j] == front[j]);
                }
            }
        }
    }

    /// A store that supports the leaves below a face holds the corners of
    /// the face itself and, if the face is split, the midpoints of its
    /// edges: each of them is a corner of a leaf further down. A pass over
    /// a face that is split already therefore finds the vertices of its
    /// own split written, and leaves them as they are.
    pub proof fn lemma_supported_corners<P>(self, store: Seq<Option<P>>)
        requires
            self is Child,
            self.wf(),
            supported(self.leaves(), store),
        ensures
            forall|k: int| 0 <= k < 3 ==> holds(store, #[trigger] self.face().vertex(k) as int),
            !self.is_leaf() ==> forall|k: int|
                0 <= k < 3 ==> holds(store, #[trigger] self.face().midpoint(k) as int),
        decreases self,
    {
        let face = self.face();
        if self.is_leaf() {
            assert(self.leaves()[0] == face);
            assert forall|k: int| 0 <= k < 3 implies holds(
                store,
                #[trigger] face.vertex(k) as int,
            ) by {
                assert(holds(store, self.leaves()[0].vertex(k) as int));
            }
        } else {
            let children = self->children->0@;
            face.lemma_children();
            assert forall|c: int, k: int| 0 <= c < 4 && 0 <= k < 3 implies holds(
                store,
                #[trigger] face.child(c).vertex(k) as int,
            ) by {
                Region::lemma_leaves_of_each(children, store, c);
                assert(children[c].face() == face.child(c));
                children[c].lemma_supported_corners(store);
            }
            assert(holds(store, face.child(0).vertex(0) as int));
            assert(holds(store, face.child(0).vertex(1) as int));
            assert(holds(store, face.child(1).vertex(1) as int));
            assert(holds(store, face.child(1).vertex(2) as int));
            assert(holds(store, face.child(2).vertex(1) as int));
            assert(holds(store, face.child(2).vertex(2) as int));
        }
    }

    /// Refines every node of a run, one after the other.
    fn refine_each<T>(regions: &mut Vec<Region>, vertices_data: &mut Vertices<T>) where
        T: Copy + One + Norm<Output = T> + Add<Output = T> + Div<Output = T>,

        requires
            Region::all_faces(old(regions)@),
            refinable(Region::leaves_of(old(regions)@)),
            supported(Region::leaves_of(old(regions)@), old(vertices_data)@),
            total_add::<T>(),
            total_div::<T>(),
        ensures
            final(regions)@.len() == old(regions)@.len(),
            Region::all_faces(final(regions)@),
            forall|i: int|
                0 <= i < final(regions)@.len() ==> (#[trigger] final(regions)@[i]).deepens(
                    old(regions)@[i],
                ),
            Region::leaves_of(final(regions)@) == split_faces(Region::leaves_of(old(regions)@)),
            grown(
                old(vertices_data)@,
                final(vertices_data)@,
                Region::leaves_of(old(regions)@),
            ),
            supported(Region::leaves_of(final(regions)@), final(vertices_data)@),
            obeys_midpoint_spec::<T>() ==> final(vertices_data)@ == refine_store(
                Region::leaves_of(old(regions)@),
                old(vertices_data)@,
            ),
        decreases old(regions)@, 0nat,
    {
        let ghost before = regions@;
        let ghost start = vertices_data@;
        let mut i: usize = 0;
        proof {
            assert(before.take(0) =~= Seq::<Region>::empty());
            assert(split_faces(Seq::<Face>::empty()) =~= Seq::<Face>::empty());
            assert forall|j: int| 0 <= j < before.len() implies supported(
                (#[trigger] before[j]).leaves(),
                start,
            ) && refinable(before[j].leaves()) by {
                Region::lemma_leaves_of_each(before, start, j);
            }
        }
        while i < regions.len()
            invariant
                i <= regions@.len(),
                regions@.len() == before.len(),
                before == old(regions)@,
                start == old(vertices_data)@,
                total_add::<T>(),
                total_div::<T>(),
                forall|j: int| i <= j < before.len() ==> regions@[j] == before[j],
                forall|j: int|
                    0 <= j < before.len() ==> (#[trigger] before[j]) is Child && before[j].wf(),
                forall|j: int|
                    0 <= j < i ==> {
                        &&& (#[trigger] regions@[j]) is Child
                        &&& regions@[j].wf()
                        &&& regions@[j].deepens(before[j])
                    },
                forall|j: int|
                    i <= j < before.len() ==> supported(
                        (#[trigger] before[j]).leaves(),
                        vertices_data@,
                    ) && refinable(before[j].leaves()),
                Region::leaves_of(regions@.take(i as int)) == split_faces(
                    Region::leaves_of(before.take(i as int)),
                ),
                grown(start, vertices_data@, Region::leaves_of(before.take(i as int))),
                supported(Region::leaves_of(regions@.take(i as int)), vertices_data@),
                obeys_midpoint_spec::<T>() ==> vertices_data@ == refine_store(
                    Region::leaves_of(before.take(i as int)),
                    start,
                ),
            decreases regions@.len() - i,
        {
            let ghost middle = vertices_data@;
            let ghost done = regions@;
            assert(regions@[i as int] == before[i as int]);
            assert(decreases_to!(old(regions)@ => regions@[i as int]));
            regions[i].refine(vertices_data);
            proof {
                let now = regions@;
                let here = before[i as int];
                assert(now[i as int] is Child) by {
                    assert(now[i as int].deepens(here));
                }
                assert(now.take(i as int) =~= done.take(i as int));
                assert(now.take(i + 1) =~= now.take(i as int).push(now[i as int]));
                assert(before.take(i + 1) =~= before.take(i as int).push(here));
                Region::lemma_leaves_of_push(now.take(i as int), now[i as int]);
                Region::lemma_leaves_of_push(before.take(i as int), here);
                let old_front = Region::leaves_of(before.take(i as int));
                let new_front = Region::leaves_of(done.take(i as int));
                lemma_split_faces_concat(old_front, here.leaves());
                lemma_grown_concat(start, middle, vertices_data@, old_front, here.leaves());
                lemma_refine_store_concat(old_front, here.leaves(), start);
                lemma_supported_kept(new_front, middle, vertices_data@);
                assert(supported(new_front + now[i as int].leaves(), vertices_data@)) by {
                    let joined = new_front + now[i as int].leaves();
                    assert forall|j: int, k: int|
                        0 <= j < joined.len() && 0 <= k < 3 implies holds(
                        vertices_data@,
                        #[trigger] joined[j].vertex(k) as int,
                    ) by {
                        if j < new_front.len() {
                            assert(holds(vertices_data@, new_front[j].vertex(k) as int));
                        } else {
                            assert(holds(
                                vertices_data@,
                                now[i as int].leaves()[j - new_front.len()].vertex(k) as int,
                            ));
                        }
                    }
                }
                assert forall|j: int| i + 1 <= j < before.len() implies supported(
                    (#[trigger] before[j]).leaves(),
                    vertices_data@,
                ) && refinable(before[j].leaves()) by {
                    lemma_supported_kept(before[j].leaves(), middle, vertices_data@);
                }
            }
            i = i + 1;
        }
        proof {
            assert(regions@.take(i as int) =~= regions@);
            assert(before.take(i as int) =~= before);
        }
    }

    /// Whether this node is a face that has not been split.
    pub fn is_leaf_node(&self) -> (leaf: bool)
        ensures
            leaf == self.is_leaf(),
    {
        match self {
            Region::Child { children: None, .. } => true,
            _ => false,
        }
    }

    /// Splits a leaf face: its three edges are split, the three inner
    /// edges are laid between the midpoints, and the four children are
    /// made from the nine edges.
    ///
    ///                     vertex[0]
    ///                      / \
    ///                  ^  /   \
    ///                 e5 /     \ e0
    ///            ^      /       \ v   \
    ///           /      /   e6>   \     \
    ///  edge[2] /     v2----------v0     \ edge[0]
    ///         /      / \        / \      \
    ///        /   ^  / ^ \      /   \      v
    ///           e4 /  e8 \    / e7  \ e1
    ///             /       \  /  v    \ v
    ///            /         \/         \
    ///           -----------v1----------
    ///   vertex[2]   <e3         <e2      vertex[1]
    ///
    ///               <--- edge[1] ----
    ///
    fn split<T>(&self, vertices_data: &mut Vertices<T>) -> (made: Vec<Region>) where
        T: Copy + One + Norm<Output = T> + Add<Output = T> + Div<Output = T>,

        requires
            self.is_leaf(),
            self.wf(),
            refinable(seq![self.face()]),
            supported(seq![self.face()], old(vertices_data)@),
            total_add::<T>(),
            total_div::<T>(),
        ensures
            made@.len() == 4,
            forall|k: int|
                0 <= k < 4 ==> {
                    &&& (#[trigger] made@[k]).is_leaf()
                    &&& made@[k].face() == self.face().child(k)
                    &&& made@[k].wf()
                },
            Region::leaves_of(made@) == split_faces(seq![self.face()]),
            grown(old(vertices_data)@, final(vertices_data)@, seq![self.face()]),
            supported(split_faces(seq![self.face()]), final(vertices_data)@),
            obeys_midpoint_spec::<T>() ==> final(vertices_data)@ == refine_store(
                seq![self.face()],
                old(vertices_data)@,
            ),
    {
        let ghost face = self.face();
        let ghost start = vertices_data@;
        proof {
            assert(seq![face][0] == face);
            assert(holds(start, face.vertex(0) as int));
            assert(holds(start, face.vertex(1) as int));
            assert(holds(start, face.vertex(2) as int));
            face.lemma_children();
            lemma_counts_fit((face.generation + 1) as nat);
            lemma_face_count_step(face.generation as nat);
        }
        match self {
            Region::Child { generation, index, .. } => {
                let next_gen = *generation + 1;

                let (e0, v0, e1) = self.edge(0).split(vertices_data);
                let ghost s1 = vertices_data@;
                let (e2, v1, e3) = self.edge(1).split(vertices_data);
                let ghost s2 = vertices_data@;
                let (e4, v2, e5) = self.edge(2).split(vertices_data);

                let edge_offset = Edge::count(*generation) * 2 + *index * 3;
                let e6 = Edge::new(next_gen, edge_offset + 0, (v2, v0));
                let e7 = Edge::new(next_gen, edge_offset + 1, (v0, v1));
                let e8 = Edge::new(next_gen, edge_offset + 2, (v1, v2));

                let face_offset = *index * 4;
                let first = Region::new(face_offset + 0, [e0, e6.neg(), e5]);
                let second = Region::new(face_offset + 1, [e1, e2, e7.neg()]);
                let third = Region::new(face_offset + 2, [e3, e4, e8.neg()]);
                let centre = Region::new(face_offset + 3, [e6, e7, e8]);
                let made = vec![first, second, third, centre];
                proof {
                    lemma_grown_by_one(face, start, s1, s2, vertices_data@);
                    assert(e6 == face.inner_edge(0));
                    assert(e7 == face.inner_edge(1));
                    assert(e8 == face.inner_edge(2));
                    assert(made@[0].face() == face.child(0));
                    assert(made@[1].face() == face.child(1));
                    assert(made@[2].face() == face.child(2));
                    assert(made@[3].face() == face.child(3));
                    assert(seq![face].drop_last() =~= Seq::<Face>::empty());
                    assert(refine_store(seq![face], start) == split_face_store(
                        face,
                        refine_store(Seq::<Face>::empty(), start),
                    ));
                    let m3 = made@.drop_last();
                    let m2 = m3.drop_last();
                    let m1 = m2.drop_last();
                    let m0 = m1.drop_last();
                    assert(m0 =~= Seq::<Region>::empty());
                    assert(Region::leaves_of(m0) =~= Seq::<Face>::empty());
                    assert(m1.last().leaves() =~= seq![face.child(0)]);
                    assert(Region::leaves_of(m1) =~= seq![face.child(0)]);
                    assert(m2.last().leaves() =~= seq![face.child(1)]);
                    assert(Region::leaves_of(m2) =~= seq![face.child(0), face.child(1)]);
                    assert(m3.last().leaves() =~= seq![face.child(2)]);
                    assert(Region::leaves_of(m3) =~= seq![
                        face.child(0),
                        face.child(1),
                        face.child(2),
                    ]);
                    assert(made@.last().leaves() =~= seq![face.child(3)]);
                    assert(Region::leaves_of(made@) =~= split_faces(seq![face]));
                }
                made
            },
            Region::Root(_) => Vec::new(),
        }
    }

    /// One pass of refinement: every leaf below this node is split into
    /// its four children, and the midpoints of its edges are written to
    /// the store where they are not there yet. A face that is split
    /// already is left as it is, and the pass goes on below it.
    pub fn refine<T>(&mut self, vertices_data: &mut Vertices<T>) where
        T: Copy + One + Norm<Output = T> + Add<Output = T> + Div<Output = T>,

        requires
            old(self).wf(),
            refinable(old(self).leaves()),
            supported(old(self).leaves(), old(vertices_data)@),
            total_add::<T>(),
            total_div::<T>(),
        ensures
            final(self).wf(),
            final(self).deepens(*old(self)),
            final(self).leaves() == split_faces(old(self).leaves()),
            grown(old(vertices_data)@, final(vertices_data)@, old(self).leaves()),
            supported(final(self).leaves(), final(vertices_data)@),
            obeys_midpoint_spec::<T>() ==> final(vertices_data)@ == refine_store(
                old(self).leaves(),
                old(vertices_data)@,
            ),
        decreases *old(self), 1nat,
    {
        if self.is_leaf_node() {
            let new_children = self.split(vertices_data);
            match self {
                Region::Child { children, .. } => {
                    *children = Some(new_children)
                },
                _ => (),
            }
        } else {
            match self {
                Region::Root(children) => {
                    Region::refine_each(children, vertices_data);
                },
                Region::Child { children, .. } => {
                    match children {
                        Some(children) => {
                            Region::refine_each(children, vertices_data);
                        },
                        None => (),
                    }
                },
            }
        }
    }
}

impl Region {
    /// Appends the triangles of the leaves below every node of a run.
    fn fill_indexes_of(regions: &Vec<Region>, indexes: &mut Vec<u64>)
        ensures
            final(indexes)@ == old(indexes)@ + triangles(Region::leaves_of(regions@)),
        decreases regions@, 0nat,
    {
        let ghost start = indexes@;
        let mut i: usize = 0;
        proof {
            assert(regions@.take(0) =~= Seq::<Region>::empty());
            assert(triangles(Seq::<Face>::empty()) =~= Seq::<u64>::empty());
            assert(start + Seq::<u64>::empty() =~= start);
        }
        while i < regions.len()
            invariant
                i <= regions@.len(),
                indexes@ == start + triangles(Region::leaves_of(regions@.take(i as int))),
            decreases regions@.len() - i,
        {
            let ghost middle = indexes@;
            regions[i].fill_indexes(indexes);
            proof {
                let front = Region::leaves_of(regions@.take(i as int));
                let here = regions@[i as int];
                assert(regions@.take(i + 1) =~= regions@.take(i as int).push(here));
                Region::lemma_leaves_of_push(regions@.take(i as int), here);
                lemma_triangles_concat(front, here.leaves());
                assert(indexes@ =~= start + triangles(front + here.leaves()));
            }
            i = i + 1;
        }
        proof {
            assert(regions@.take(i as int) =~= regions@);
        }
    }

    /// Appends the triangles of the leaves below this node to `indexes`:
    /// three vertex indices for each leaf, in winding order, the leaves in
    /// the order of a depth-first walk.
    pub fn fill_indexes(&self, indexes: &mut Vec<u64>)
        ensures
            final(indexes)@ == old(indexes)@ + triangles(self.leaves()),
        decreases self, 1nat,
    {
        match self {
            Region::Root(regions) => {
                Region::fill_indexes_of(regions, indexes);
            },
            Region::Child { vertices, children, .. } => {
                match children {
                    Some(children) => {
                        Region::fill_indexes_of(children, indexes);
                    },
                    None => {
                        indexes.push(vertices[0]);
                        indexes.push(vertices[1]);
                        indexes.push(vertices[2]);
                        assert(indexes@ =~= old(indexes)@ + triangles(seq![self.face()]));
                    },
                }
            },
        }
    }
}

} // verus!
