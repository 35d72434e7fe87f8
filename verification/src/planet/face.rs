//! The record of one triangular face, and the arithmetic that gives the
//! records of the four faces it splits into.

use crate::planet::count::lemma_counts_fit;
use crate::planet::count::lemma_face_count_step;
use crate::planet::count::spec_edge_count;
use crate::planet::count::spec_face_count;
use crate::planet::count::spec_vertex_count;
use crate::planet::count::MAX_GENERATION;
use crate::planet::edge::Edge;
use vstd::prelude::*;

verus! {

/// What identifies a face: its generation, its index within the
/// generation, its three corners in winding order, and the indices of its
/// three edges. Edge `k` runs from corner `k` to corner `k + 1`, the third
/// one back to corner 0.
pub struct Face {
    pub generation: u32,
    pub index: u64,
    pub vertices: (u64, u64, u64),
    pub edges: (u64, u64, u64),
}

impl Face {
    /// Corner `k` of the face, for `k` in `0..3`.
    pub open spec fn vertex(self, k: int) -> u64 {
        if k == 0 {
            self.vertices.0
        } else if k == 1 {
            self.vertices.1
        } else {
            self.vertices.2
        }
    }

    /// The index of edge `k` of the face, for `k` in `0..3`.
    pub open spec fn edge_index(self, k: int) -> u64 {
        if k == 0 {
            self.edges.0
        } else if k == 1 {
            self.edges.1
        } else {
            self.edges.2
        }
    }

    /// Edge `k` of the face, walked in winding order.
    pub open spec fn edge(self, k: int) -> Edge {
        Edge {
            generation: self.generation,
            index: self.edge_index(k),
            vertices: (self.vertex(k), self.vertex(if k == 2 { 0 } else { k + 1 })),
        }
    }

    /// A face that belongs to its generation: the generation can be
    /// counted, and the face, its corners and its edges are numbered within
    /// it.
    pub open spec fn wf(self) -> bool {
        let g = self.generation as nat;
        &&& self.generation <= MAX_GENERATION
        &&& self.index < spec_face_count(g)
        &&& forall|k: int| 0 <= k < 3 ==> #[trigger] self.vertex(k) < spec_vertex_count(g)
        &&& forall|k: int| 0 <= k < 3 ==> #[trigger] self.edge_index(k) < spec_edge_count(g)
    }

    /// The face bounded by three edges that follow one another: it takes
    /// its generation from the first, its corners from where each edge
    /// starts, and its edge indices from the three.
    pub open spec fn bounded_by(index: u64, first: Edge, second: Edge, third: Edge) -> Face {
        Face {
            generation: first.generation,
            index,
            vertices: (first.vertices.0, second.vertices.0, third.vertices.0),
            edges: (first.index, second.index, third.index),
        }
    }

    /// The midpoint vertex of edge `k`.
    pub open spec fn midpoint(self, k: int) -> u64 {
        self.edge(k).spec_split().1
    }

    /// Inner edge `k` of the split face, for `k` in `0..3`. The three inner
    /// edges join the midpoints of the outer edges: the first runs from
    /// the midpoint of edge 2 to that of edge 0, the second from that of
    /// edge 0 to that of edge 1, the third from that of edge 1 to that of
    /// edge 2. They are edges `2 * edge_count(g) + 3 * index + k` of the
    /// next generation.
    pub open spec fn inner_edge(self, k: int) -> Edge {
        let offset = 2 * spec_edge_count(self.generation as nat) + 3 * self.index;
        Edge {
            generation: (self.generation + 1) as u32,
            index: (offset + k) as u64,
            vertices: (self.midpoint(if k == 0 { 2 } else { k - 1 }), self.midpoint(k)),
        }
    }

    /// Child `k` of the face, for `k` in `0..4`: face `4 * index + k` of
    /// the next generation. Children 0, 1 and 2 sit in the corners 0, 1
    /// and 2: each is bounded by the two halves of the outer edges that
    /// meet in its corner and by one inner edge walked backwards. Child 3
    /// sits in the centre, bounded by the three inner edges.
    pub open spec fn child(self, k: int) -> Face {
        let index = (4 * self.index + k) as u64;
        let first = self.edge(0).spec_split();
        let second = self.edge(1).spec_split();
        let third = self.edge(2).spec_split();
        if k == 0 {
            Face::bounded_by(index, first.0, self.inner_edge(0).reversed(), third.2)
        } else if k == 1 {
            Face::bounded_by(index, first.2, second.0, self.inner_edge(1).reversed())
        } else if k == 2 {
            Face::bounded_by(index, second.2, third.0, self.inner_edge(2).reversed())
        } else {
            Face::bounded_by(index, self.inner_edge(0), self.inner_edge(1), self.inner_edge(2))
        }
    }
}

impl Face {
    /// What the split arithmetic gives for a face that can be split: the
    /// midpoints are vertices of the next generation, and the four
    /// children belong to the next generation, numbered `4 * index + k`,
    /// with the corners named here.
    pub proof fn lemma_children(self)
        requires
            self.wf(),
            self.generation < MAX_GENERATION,
        ensures
            forall|k: int| 0 <= k < 3 ==> (#[trigger] self.edge(k)).wf(),
            forall|k: int| 0 <= k < 3 ==> #[trigger] self.midpoint(k) == self.edge(k).midpoint(),
            forall|k: int|
                0 <= k < 3 ==> spec_vertex_count(self.generation as nat) <= #[trigger] self.midpoint(
                    k,
                ) < spec_vertex_count((self.generation + 1) as nat),
            forall|k: int| 0 <= k < 4 ==> (#[trigger] self.child(k)).wf(),
            forall|k: int|
                0 <= k < 4 ==> (#[trigger] self.child(k)).generation == self.generation + 1,
            forall|k: int| 0 <= k < 4 ==> (#[trigger] self.child(k)).index == 4 * self.index + k,
            self.child(0).vertices == (self.vertices.0, self.midpoint(0), self.midpoint(2)),
            self.child(1).vertices == (self.midpoint(0), self.vertices.1, self.midpoint(1)),
            self.child(2).vertices == (self.midpoint(1), self.vertices.2, self.midpoint(2)),
            self.child(3).vertices == (self.midpoint(2), self.midpoint(0), self.midpoint(1)),
    {
        let g = self.generation as nat;
        lemma_counts_fit(g + 1);
        lemma_face_count_step(g);
        assert(spec_edge_count(g + 1) == 2 * spec_edge_count(g) + 3 * spec_face_count(g));
        assert(spec_vertex_count(g + 1) == spec_vertex_count(g) + spec_edge_count(g));
        assert(self.edge_index(0) < spec_edge_count(g));
        assert(self.edge_index(1) < spec_edge_count(g));
        assert(self.edge_index(2) < spec_edge_count(g));
        assert(self.vertex(0) < spec_vertex_count(g));
        assert(self.vertex(1) < spec_vertex_count(g));
        assert(self.vertex(2) < spec_vertex_count(g));
        assert forall|k: int| 0 <= k < 4 implies (#[trigger] self.child(k)).wf() by {
            let c = self.child(k);
            assert forall|j: int| 0 <= j < 3 implies #[trigger] c.vertex(j) < spec_vertex_count(
                g + 1,
            ) by {}
            assert forall|j: int| 0 <= j < 3 implies #[trigger] c.edge_index(j) < spec_edge_count(
                g + 1,
            ) by {}
        }
    }
}

} // verus!
