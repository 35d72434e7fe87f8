//! Edges of the mesh and the split that halves them.
//!
//! An edge is known by its generation and its index within that generation.
//! Its two endpoints are kept in the order in which a face walks along it:
//! the two faces that share an edge walk it in opposite directions, and both
//! arrive at the same midpoint vertex and the same two halves.

use crate::location::algebra::obeys_midpoint_spec;
use crate::location::algebra::total_add;
use crate::location::algebra::total_div;
use crate::location::algebra::Norm;
use crate::location::algebra::One;
use crate::location::vector3d::Vector3d;
use crate::planet::count::edge_count;
use crate::planet::count::lemma_counts_fit;
use crate::planet::count::spec_edge_count;
use crate::planet::count::spec_vertex_count;
use crate::planet::count::vertex_count;
use crate::planet::count::MAX_GENERATION;
use crate::planet::vertices::holds;
use crate::planet::vertices::keeps;
use crate::planet::vertices::stored;
use crate::planet::vertices::Vertices;
use std::ops::Add;
use std::ops::Div;
use std::ops::Neg;
use vstd::prelude::*;
use vstd::std_specs::ops::AddSpec;
use vstd::std_specs::ops::DivSpec;

verus! {

/// The point halfway between `a` and `b`, brought back onto the unit
/// sphere: their sum, halved, then divided by its own length.
pub open spec fn normalized_midpoint<T>(a: Vector3d<T>, b: Vector3d<T>) -> Vector3d<T> where
    T: Copy + One + Norm<Output = T> + Add<Output = T> + Div<Output = T>,
 {
    a.add_spec(b).div_spec(T::ONE.add_spec(T::ONE)).normal_spec()
}

/// The store after `position` is written to slot `index` unless that slot
/// is written already: a vertex is written once and never changed.
pub open spec fn filled<P>(store: Seq<Option<P>>, index: int, position: P) -> Seq<Option<P>> {
    if holds(store, index) {
        store
    } else {
        stored(store, index, position)
    }
}

/// One edge: its generation, its index within the generation, and its two
/// endpoints (global vertex indices) in walking order.
#[derive(Clone, Copy, Debug)]
pub struct Edge {
    pub generation: u32,
    pub index: u64,
    pub vertices: (u64, u64),
}

impl Edge {
    /// An edge of a generation that can be counted, numbered within that
    /// generation.
    pub open spec fn wf(self) -> bool {
        &&& self.generation <= MAX_GENERATION
        &&& self.index < spec_edge_count(self.generation as nat)
    }

    /// The global index of the vertex that halves this edge. It depends on
    /// the generation and the index alone, not on the endpoints.
    pub open spec fn midpoint(self) -> nat {
        spec_vertex_count(self.generation as nat) + self.index as nat
    }

    /// The same edge walked the other way.
    pub open spec fn reversed(self) -> Edge {
        Edge {
            generation: self.generation,
            index: self.index,
            vertices: (self.vertices.1, self.vertices.0),
        }
    }

    /// The half at the start, the midpoint vertex, and the half at the end.
    /// The halves are edges `2 * index` and `2 * index + 1` of the next
    /// generation; the half that touches the smaller endpoint gets the even
    /// index, whichever way the edge is walked.
    pub open spec fn spec_split(self) -> (Edge, u64, Edge) {
        let v = self.midpoint() as u64;
        let next = (self.generation + 1) as u32;
        let even = (2 * self.index) as u64;
        let odd = (2 * self.index + 1) as u64;
        if self.vertices.0 < self.vertices.1 {
            (
                Edge { generation: next, index: even, vertices: (self.vertices.0, v) },
                v,
                Edge { generation: next, index: odd, vertices: (v, self.vertices.1) },
            )
        } else {
            (
                Edge { generation: next, index: odd, vertices: (self.vertices.0, v) },
                v,
                Edge { generation: next, index: even, vertices: (v, self.vertices.1) },
            )
        }
    }

    /// The store after this edge is split: the midpoint slot, unless it is
    /// written already, receives the normalized midpoint of the positions
    /// of the two endpoints.
    pub open spec fn split_store<T>(self, store: Seq<Option<Vector3d<T>>>) -> Seq<
        Option<Vector3d<T>>,
    > where T: Copy + One + Norm<Output = T> + Add<Output = T> + Div<Output = T> {
        filled(
            store,
            self.midpoint() as int,
            normalized_midpoint(
                store[self.vertices.0 as int].unwrap(),
                store[self.vertices.1 as int].unwrap(),
            ),
        )
    }

    pub fn new(generation: u32, index: u64, vertices: (u64, u64)) -> (edge: Edge)
        ensures
            edge == (Edge { generation, index, vertices }),
    {
        Edge { generation: generation, index: index, vertices: vertices }
    }

    pub fn index(&self) -> (index: u64)
        ensures
            index == self.index,
    {
        self.index
    }

    pub fn generation(&self) -> (generation: u32)
        ensures
            generation == self.generation,
    {
        self.generation
    }

    pub fn start(&self) -> (vertex: u64)
        ensures
            vertex == self.vertices.0,
    {
        self.vertices.0
    }

    pub fn end(&self) -> (vertex: u64)
        ensures
            vertex == self.vertices.1,
    {
        self.vertices.1
    }

    /// The number of edges in the generation of this edge.
    pub fn generation_population(&self) -> (count: u64)
        requires
            self.generation <= MAX_GENERATION,
        ensures
            count == spec_edge_count(self.generation as nat),
    {
        Edge::count(self.generation)
    }

    /// The number of edges of a generation.
    pub fn count(generation: u32) -> (count: u64)
        requires
            generation <= MAX_GENERATION,
        ensures
            count == spec_edge_count(generation as nat),
    {
        edge_count(generation)
    }

    /// Splits the edge into its two halves of the next generation, with the
    /// new vertex between them. The position of the new vertex is written
    /// to the store unless it is there already.
    pub fn split<T>(&self, vertices: &mut Vertices<T>) -> (parts: (Edge, u64, Edge)) where
        T: Copy + One + Norm<Output = T> + Add<Output = T> + Div<Output = T>,

        requires
            self.wf(),
            self.midpoint() < usize::MAX,
            holds(old(vertices)@, self.vertices.0 as int),
            holds(old(vertices)@, self.vertices.1 as int),
            total_add::<T>(),
            total_div::<T>(),
        ensures
            parts == self.spec_split(),
            parts.1 == self.midpoint(),
            parts.0.index == 2 * self.index + (if self.vertices.0 < self.vertices.1 {
                0int
            } else {
                1int
            }),
            parts.2.index == 2 * self.index + (if self.vertices.0 < self.vertices.1 {
                1int
            } else {
                0int
            }),
            parts.0.generation == self.generation + 1,
            holds(final(vertices)@, parts.1 as int),
            final(vertices)@ == filled(
                old(vertices)@,
                parts.1 as int,
                final(vertices)@[parts.1 as int].unwrap(),
            ),
            obeys_midpoint_spec::<T>() ==> final(vertices)@ == self.split_store(old(vertices)@),
    {
        proof {
            lemma_counts_fit(self.generation as nat);
        }
        let v = vertex_count(self.generation) + self.index;
        let start;
        let end;
        if self.start() < self.end() {
            start = Edge::new(self.generation + 1, self.index * 2 + 0, (self.start(), v));
            end = Edge::new(self.generation + 1, self.index * 2 + 1, (v, self.end()))
        } else {
            start = Edge::new(self.generation + 1, self.index * 2 + 1, (self.start(), v));
            end = Edge::new(self.generation + 1, self.index * 2 + 0, (v, self.end()))
        }
        if vertices.get(v).is_none() {
            let start_pos = *vertices.get(self.start()).unwrap();
            let end_pos = *vertices.get(self.end()).unwrap();
            let two = T::ONE + T::ONE;
            vertices.set(v, ((start_pos + end_pos) / two).normal());
        }
        assert(final(vertices)@ =~= filled(
            old(vertices)@,
            v as int,
            final(vertices)@[v as int].unwrap(),
        ));
        (start, v, end)
    }
}

/// Both faces at an edge split it alike. Walked the other way, an edge
/// has the same midpoint vertex, and its halves are the same two edges:
/// the half at the start of the one is the half at the end of the other,
/// walked the other way. The endpoints have to differ.
pub proof fn lemma_split_reversed(edge: Edge)
    requires
        edge.vertices.0 != edge.vertices.1,
    ensures
        edge.reversed().midpoint() == edge.midpoint(),
        edge.reversed().spec_split().1 == edge.spec_split().1,
        edge.reversed().spec_split().0 == edge.spec_split().2.reversed(),
        edge.reversed().spec_split().2 == edge.spec_split().0.reversed(),
        edge.reversed().reversed() == edge,
{
}

/// The second face to split an edge finds the midpoint written and leaves
/// the store as it is: the two faces agree on the position, which is the
/// one that the first of them wrote.
pub proof fn lemma_split_store_reversed<T>(edge: Edge, store: Seq<Option<Vector3d<T>>>) where
    T: Copy + One + Norm<Output = T> + Add<Output = T> + Div<Output = T>,

    ensures
        holds(edge.split_store(store), edge.midpoint() as int),
        edge.reversed().split_store(edge.split_store(store)) == edge.split_store(store),
        edge.split_store(edge.split_store(store)) == edge.split_store(store),
{
}

/// A split writes at most one slot, and only if it was not written: every
/// position that the store held before is the same afterwards.
pub proof fn lemma_split_store_keeps<T>(edge: Edge, store: Seq<Option<Vector3d<T>>>) where
    T: Copy + One + Norm<Output = T> + Add<Output = T> + Div<Output = T>,

    ensures
        keeps(edge.split_store(store), store),
        holds(store, edge.midpoint() as int) ==> edge.split_store(store) == store,
{
}

impl Neg for Edge {
    type Output = Edge;

    /// The same edge walked the other way.
    fn neg(self) -> (reversed: Edge) {
        Edge {
            generation: self.generation,
            index: self.index,
            vertices: (self.vertices.1, self.vertices.0),
        }
    }
}

impl vstd::std_specs::ops::NegSpecImpl for Edge {
    open spec fn obeys_neg_spec() -> bool {
        true
    }

    open spec fn neg_req(self) -> bool {
        true
    }

    open spec fn neg_spec(self) -> Edge {
        self.reversed()
    }
}

} // verus!
