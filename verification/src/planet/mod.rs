//! The planet mesh: counting functions, edges, the vertex store, the face
//! quadtree and the mesh that ties them together.

pub mod count;
pub mod coverage;
pub mod edge;
pub mod face;
pub mod manifold;
pub mod positions;
pub mod refinement;
pub mod region;
pub mod seed;
pub mod vertices;

pub use edge::Edge;
pub use face::Face;
pub use region::Region;
pub use seed::checked_great_edge_index;
pub use seed::great_edge_index;
pub use vertices::Vertices;

use crate::location::algebra::norm_spec;
use crate::location::algebra::obeys_arithmetic;
use crate::location::algebra::obeys_midpoint_spec;
use crate::location::algebra::obeys_norm_spec;
use crate::location::algebra::total_add;
use crate::location::algebra::total_div;
use crate::location::algebra::total_mul;
use crate::location::algebra::total_sub;
use crate::location::algebra::Norm;
use crate::location::algebra::One;
use crate::location::vector3d::Vector3d;
use count::lemma_counts_fit;
use count::lemma_face_count_step;
use count::spec_edge_count;
use count::spec_face_count;
use count::spec_vertex_count;
use count::vertex_count;
use count::MAX_GENERATION;
use coverage::covered;
use coverage::full;
use coverage::lemma_covered_split;
use coverage::lemma_full_grown;
use coverage::lemma_full_supports;
use coverage::lemma_uniform_refinable;
use coverage::lemma_uniform_split;
use coverage::uniform;
use coverage::uses_edge;
use manifold::lemma_opposed_split;
use manifold::lemma_proper_split;
use manifold::lemma_seed_opposed;
use manifold::opposed;
use manifold::proper;
use positions::commutative_add;
use positions::lemma_refine_store_placed;
use positions::placed;
use refinement::refine_store;
use refinement::split_faces;
use region::triangles;
use seed::lemma_seed_edge_sides;
use seed::lemma_seed_edges_distinct;
use seed::lemma_seed_face_joined;
use seed::seed_face_vertices;
use seed::seed_leaf;
use seed::seed_leaves;
use std::ops::Add;
use std::ops::Div;
use std::ops::Mul;
use std::ops::Sub;
use vertices::holds;
use vertices::keeps;
use vstd::prelude::*;
use vstd::std_specs::ops::AddSpec;
use vstd::std_specs::ops::DivSpec;
use vstd::std_specs::ops::MulSpec;
use vstd::std_specs::ops::SubSpec;

verus! {

/// The golden ratio in the number type: `(1 + norm(1, 2)) / 2`, the norm
/// of `(1, 2)` being the square root of 5.
pub open spec fn golden_ratio<T>() -> T where
    T: Copy + One + Norm<Output = T> + Add<Output = T> + Div<Output = T>,
 {
    let two = T::ONE.add_spec(T::ONE);
    T::ONE.add_spec(norm_spec::<T>(seq![T::ONE, two])).div_spec(two)
}

/// Corner `index` of the icosahedron, for `index` in `0..12`, before it is
/// brought onto the sphere: the corners of three golden rectangles, one in
/// each coordinate plane.
pub open spec fn seed_corner<T>(index: int) -> Vector3d<T> where
    T: Copy + One + Norm<Output = T> + Add<Output = T> + Sub<Output = T> + Div<Output = T>,
 {
    let one = T::ONE;
    let zero = one.sub_spec(one);
    let t = golden_ratio::<T>();
    let minus_one = zero.sub_spec(one);
    let minus_t = zero.sub_spec(t);
    if index == 0 {
        Vector3d { x: minus_one, y: t, z: zero }
    } else if index == 1 {
        Vector3d { x: one, y: t, z: zero }
    } else if index == 2 {
        Vector3d { x: minus_one, y: minus_t, z: zero }
    } else if index == 3 {
        Vector3d { x: one, y: minus_t, z: zero }
    } else if index == 4 {
        Vector3d { x: zero, y: minus_one, z: t }
    } else if index == 5 {
        Vector3d { x: zero, y: one, z: t }
    } else if index == 6 {
        Vector3d { x: zero, y: minus_one, z: minus_t }
    } else if index == 7 {
        Vector3d { x: zero, y: one, z: minus_t }
    } else if index == 8 {
        Vector3d { x: t, y: zero, z: minus_one }
    } else if index == 9 {
        Vector3d { x: t, y: zero, z: one }
    } else if index == 10 {
        Vector3d { x: minus_t, y: zero, z: minus_one }
    } else {
        Vector3d { x: minus_t, y: zero, z: one }
    }
}

/// The position of seed vertex `index` on a sphere of the given radius:
/// the corner, divided by its length, times the radius.
pub open spec fn seed_position<T>(index: int, radius: T) -> Vector3d<T> where
    T: Copy + One + Norm<Output = T> + Add<Output = T> + Sub<Output = T> + Mul<Output = T> + Div<
        Output = T,
    >,
 {
    seed_corner::<T>(index).normal_spec().mul_spec(radius)
}

/// Planet generator: a geodesic sphere that starts as an icosahedron and
/// is refined one generation at a time.
pub struct Planet<T> {
    root: Region,
    vertices: Vertices<T>,
    generation: u32,
}

impl<T> Planet<T> where
    T: Copy + One + Norm<Output = T> + Add<Output = T> + Sub<Output = T> + Mul<Output = T> + Div<
        Output = T,
    >,
 {
    /// The quadtree of faces.
    pub closed spec fn root(self) -> Region {
        self.root
    }

    /// The vertex store: slot `i` holds the position of vertex `i`.
    pub closed spec fn store(self) -> Seq<Option<Vector3d<T>>> {
        self.vertices@
    }

    /// The number of refinement passes made so far.
    pub closed spec fn generation(self) -> nat {
        self.generation as nat
    }

    /// The leaf faces, in the order in which they are emitted.
    pub open spec fn leaves(self) -> Seq<Face> {
        self.root().leaves()
    }

    /// What holds of every planet: its tree is well formed, its leaves are
    /// all the faces of its generation in order, they use every edge of
    /// the generation, faces that share an edge walk it in opposite
    /// directions, and the store holds exactly the vertices of the
    /// generation.
    pub open spec fn wf(self) -> bool {
        &&& self.root() is Root
        &&& self.root().wf()
        &&& self.generation() <= MAX_GENERATION
        &&& uniform(self.leaves(), self.generation())
        &&& covered(self.leaves(), self.generation())
        &&& proper(self.leaves())
        &&& opposed(self.leaves())
        &&& full(self.store(), spec_vertex_count(self.generation()))
    }

    /// Whether another pass can be made: the next generation can be
    /// counted in 64 bits, and its vertices can be indexed on this
    /// machine.
    pub open spec fn refinable(self) -> bool {
        &&& self.generation() < MAX_GENERATION
        &&& spec_vertex_count(self.generation() + 1) <= usize::MAX
    }

    /// A planet has the faces, edges and vertices that the counting
    /// functions promise for its generation: its leaves are as many as
    /// `face_count` says, the edges that they use are the ones below
    /// `edge_count`, and its store has as many slots as `vertex_count`
    /// says, all written.
    pub proof fn lemma_counts(self)
        requires
            self.wf(),
        ensures
            self.leaves().len() == spec_face_count(self.generation()),
            forall|edge: int|
                uses_edge(self.leaves(), edge) <==> 0 <= edge < spec_edge_count(self.generation()),
            self.store().len() == spec_vertex_count(self.generation()),
            forall|slot: int| 0 <= slot < self.store().len() ==> holds(self.store(), slot),
    {
        let leaves = self.leaves();
        assert forall|edge: int| uses_edge(leaves, edge) implies 0 <= edge < spec_edge_count(
            self.generation(),
        ) by {
            let (i, k) = choose|i: int, k: int|
                0 <= i < leaves.len() && 0 <= k < 3 && #[trigger] leaves[i].edge_index(k) == edge;
            assert(leaves[i].wf());
        }
        assert forall|slot: int| 0 <= slot < self.store().len() implies holds(
            self.store(),
            slot,
        ) by {
            assert(self.store()[slot] is Some);
        }
    }

    /// The icosahedron on a sphere of the given radius: 12 vertices and 20
    /// leaf faces of generation 0.
    pub fn new(radius: T) -> (planet: Planet<T>)
        requires
            total_add::<T>(),
            total_sub::<T>(),
            total_mul::<T>(),
            total_div::<T>(),
        ensures
            planet.wf(),
            planet.generation() == 0,
            planet.leaves() == seed_leaves(),
            obeys_arithmetic::<T>() && obeys_norm_spec::<T>() ==> forall|index: int|
                0 <= index < 12 ==> #[trigger] planet.store()[index] == Some(
                    seed_position::<T>(index, radius),
                ),
    {
        let one = T::ONE;
        let zero = one - one;
        let two = one + one;
        let sides = [one, two];
        assert(sides@ =~= seq![one, two]);
        let t = (one + T::norm(&sides)) / two;
        let minus_one = zero - one;
        let minus_t = zero - t;
        let corners = [
            Vector3d::new(minus_one, t, zero),
            Vector3d::new(one, t, zero),
            Vector3d::new(minus_one, minus_t, zero),
            Vector3d::new(one, minus_t, zero),
            Vector3d::new(zero, minus_one, t),
            Vector3d::new(zero, one, t),
            Vector3d::new(zero, minus_one, minus_t),
            Vector3d::new(zero, one, minus_t),
            Vector3d::new(t, zero, minus_one),
            Vector3d::new(t, zero, one),
            Vector3d::new(minus_t, zero, minus_one),
            Vector3d::new(minus_t, zero, one),
        ];
        let mut positions: Vec<Vector3d<T>> = Vec::new();
        let mut i: usize = 0;
        while i < 12
            invariant
                i <= 12,
                positions@.len() == i,
                total_mul::<T>(),
                total_div::<T>(),
                obeys_arithmetic::<T>() && obeys_norm_spec::<T>() ==> forall|j: int|
                    0 <= j < 12 ==> #[trigger] corners@[j] == seed_corner::<T>(j),
                obeys_arithmetic::<T>() && obeys_norm_spec::<T>() ==> forall|j: int|
                    0 <= j < i ==> #[trigger] positions@[j] == seed_position::<T>(j, radius),
            decreases 12 - i,
        {
            let corner = corners[i];
            positions.push(corner.normal() * radius);
            i = i + 1;
        }
        let vertices = Vertices::from(positions);

        let mut faces: Vec<Region> = Vec::new();
        let mut index: u64 = 0;
        while index < 20
            invariant
                index <= 20,
                faces@.len() == index,
                forall|j: int|
                    0 <= j < index ==> (#[trigger] faces@[j]).is_leaf() && faces@[j].face()
                        == seed_leaf(j),
            decreases 20 - index,
        {
            let corners = seed_face_vertices(index);
            proof {
                lemma_seed_face_joined(index as int);
            }
            let face = Region::from_vertices(index, corners);
            proof {
                let named = seed_leaf(index as int);
                lemma_seed_edges_distinct(face.face().edges.0 as int, named.edges.0 as int);
                lemma_seed_edges_distinct(face.face().edges.1 as int, named.edges.1 as int);
                lemma_seed_edges_distinct(face.face().edges.2 as int, named.edges.2 as int);
            }
            faces.push(face);
            index = index + 1;
        }
        proof {
            assert(Region::leaves_of(faces@) =~= seed_leaves()) by {
                Region::lemma_leaves_of_leaves(faces@);
            }
            lemma_seed_opposed();
            lemma_face_count_step(0);
            reveal_with_fuel(count::spec_vertex_count, 2);
            reveal_with_fuel(count::spec_edge_count, 2);
            assert forall|i: int| 0 <= i < 20 implies (#[trigger] seed_leaves()[i]).wf() by {
                lemma_seed_face_joined(i);
            }
            assert forall|i: int| 0 <= i < 20 implies (#[trigger] faces@[i]).wf() by {
                lemma_seed_face_joined(i);
            }
            assert forall|edge: int| 0 <= edge < 30 implies uses_edge(seed_leaves(), edge) by {
                lemma_seed_edge_sides(edge);
                let (face, slot) = seed::seed_edge_ascending(edge);
                assert(seed_leaves()[face].edge_index(slot) == edge);
            }
        }
        Planet { root: Region::Root(faces), vertices: vertices, generation: 0 }
    }

    /// One pass of refinement: every leaf face is split into four, and the
    /// midpoint of every edge becomes a vertex. Where the arithmetic of
    /// the number type follows its specification, the new store is the old
    /// one with the edges of the faces split in order; where its addition
    /// is commutative as well, every new vertex lies at the normalized
    /// midpoint of the two ends of its edge, whichever face wrote it.
    pub fn refine(&mut self)
        requires
            old(self).wf(),
            old(self).refinable(),
            total_add::<T>(),
            total_div::<T>(),
        ensures
            final(self).wf(),
            final(self).generation() == old(self).generation() + 1,
            final(self).root().deepens(old(self).root()),
            final(self).leaves() == split_faces(old(self).leaves()),
            keeps(final(self).store(), old(self).store()),
            obeys_midpoint_spec::<T>() ==> final(self).store() == refine_store(
                old(self).leaves(),
                old(self).store(),
            ),
            obeys_midpoint_spec::<T>() && commutative_add::<T>() ==> placed(
                old(self).leaves(),
                old(self).store(),
                final(self).store(),
            ),
    {
        proof {
            let g = self.generation as nat;
            if commutative_add::<T>() {
                lemma_refine_store_placed(self.leaves(), g, self.vertices@);
            }
            lemma_uniform_refinable(self.leaves(), g);
            lemma_full_supports(self.leaves(), g, self.vertices@);
            lemma_uniform_split(self.leaves(), g);
            lemma_covered_split(self.leaves(), g);
            lemma_proper_split(self.leaves(), g);
            lemma_opposed_split(self.leaves(), g);
        }
        self.root.refine(&mut self.vertices);
        self.generation = self.generation + 1;
        proof {
            lemma_full_grown(
                old(self).leaves(),
                old(self).generation as nat,
                old(self).vertices@,
                self.vertices@,
            );
        }
    }

    /// Whether another pass of refinement can be made.
    pub fn can_refine(&self) -> (possible: bool)
        requires
            self.wf(),
        ensures
            possible == self.refinable(),
    {
        if self.generation < MAX_GENERATION {
            proof {
                lemma_counts_fit((self.generation + 1) as nat);
            }
            vertex_count(self.generation + 1) <= usize::MAX as u64
        } else {
            false
        }
    }

    /// One pass of refinement if it can be made. Says whether it was; if
    /// not, the planet is as before.
    pub fn try_refine(&mut self) -> (refined: bool)
        requires
            old(self).wf(),
            total_add::<T>(),
            total_div::<T>(),
        ensures
            final(self).wf(),
            refined == old(self).refinable(),
            !refined ==> *final(self) == *old(self),
            refined ==> {
                &&& final(self).generation() == old(self).generation() + 1
                &&& final(self).root().deepens(old(self).root())
                &&& final(self).leaves() == split_faces(old(self).leaves())
                &&& keeps(final(self).store(), old(self).store())
                &&& obeys_midpoint_spec::<T>() ==> final(self).store() == refine_store(
                    old(self).leaves(),
                    old(self).store(),
                )
                &&& obeys_midpoint_spec::<T>() && commutative_add::<T>() ==> placed(
                    old(self).leaves(),
                    old(self).store(),
                    final(self).store(),
                )
            },
    {
        if self.can_refine() {
            self.refine();
            true
        } else {
            false
        }
    }

    /// The number of refinement passes made so far.
    pub fn generation_number(&self) -> (generation: u32)
        ensures
            generation == self.generation(),
    {
        self.generation
    }

    /// The vertex store. It has one slot for each vertex of the current
    /// generation, and every slot is written.
    pub fn vertices(&self) -> (store: &Vertices<T>)
        ensures
            store@ == self.store(),
            self.wf() ==> full(store@, spec_vertex_count(self.generation())),
    {
        &self.vertices
    }

    /// The positions of all vertices of the current generation, by vertex
    /// index.
    pub fn positions(&self) -> (positions: Vec<Vector3d<T>>)
        requires
            self.wf(),
        ensures
            positions@.len() == spec_vertex_count(self.generation()),
            forall|i: int|
                0 <= i < positions@.len() ==> self.store()[i] == Some(#[trigger] positions@[i]),
    {
        let mut positions: Vec<Vector3d<T>> = Vec::new();
        let count = self.vertices.len();
        let mut i: usize = 0;
        while i < count
            invariant
                i <= count,
                count == self.vertices@.len(),
                forall|j: int| 0 <= j < count ==> (#[trigger] self.vertices@[j]) is Some,
                positions@.len() == i,
                forall|j: int| 0 <= j < i ==> self.vertices@[j] == Some(#[trigger] positions@[j]),
            decreases count - i,
        {
            assert(self.vertices@[i as int] is Some);
            match self.vertices.get(i as u64) {
                Some(position) => {
                    positions.push(*position);
                },
                None => {},
            }
            i = i + 1;
        }
        positions
    }

    /// The triangle index buffer: three vertex indices for each leaf face,
    /// in winding order, the faces in order of their index. Every entry
    /// is the index of a vertex in the store.
    pub fn indices(&self) -> (indices: Vec<u64>)
        requires
            self.wf(),
        ensures
            indices@ == triangles(self.leaves()),
            indices@.len() == 3 * spec_face_count(self.generation()),
            forall|i: int| 0 <= i < indices@.len() ==> #[trigger] indices@[i] < self.store().len(),
    {
        let mut indices: Vec<u64> = Vec::new();
        self.root.fill_indexes(&mut indices);
        proof {
            let leaves = self.leaves();
            assert(indices@ =~= triangles(leaves));
            assert forall|i: int| 0 <= i < indices@.len() implies #[trigger] indices@[i]
                < self.store().len() by {
                assert(leaves[i / 3].wf());
                assert(indices@[i] == leaves[i / 3].vertex(i % 3));
            }
        }
        indices
    }
}

} // verus!
