//! Why the numbering has no gaps: after every pass the faces, edges and
//! vertices of the sphere are exactly the ones that the counting functions
//! promise, each index taken.

use crate::planet::count::lemma_counts_fit;
use crate::planet::count::lemma_face_count_step;
use crate::planet::count::spec_edge_count;
use crate::planet::count::spec_face_count;
use crate::planet::count::spec_vertex_count;
use crate::planet::count::MAX_GENERATION;
use crate::planet::face::Face;
use crate::planet::refinement::grown;
use crate::planet::refinement::made_by;
use crate::planet::refinement::refinable;
use crate::planet::refinement::split_faces;
use crate::planet::refinement::supported;
use crate::planet::vertices::ends_written;
use crate::planet::vertices::holds;
use vstd::prelude::*;

verus! {

/// Whether `faces` are all the faces of one generation, in order: face `i`
/// stands at place `i`.
pub open spec fn uniform(faces: Seq<Face>, generation: nat) -> bool {
    &&& faces.len() == spec_face_count(generation)
    &&& forall|i: int|
        0 <= i < faces.len() ==> {
            &&& (#[trigger] faces[i]).wf()
            &&& faces[i].generation == generation
            &&& faces[i].index == i
        }
}

/// Whether one of the faces has edge `edge` as one of its three.
pub open spec fn uses_edge(faces: Seq<Face>, edge: int) -> bool {
    exists|i: int, k: int|
        0 <= i < faces.len() && 0 <= k < 3 && #[trigger] faces[i].edge_index(k) == edge
}

/// Whether every edge of the generation belongs to one of the faces.
pub open spec fn covered(faces: Seq<Face>, generation: nat) -> bool {
    forall|edge: int| 0 <= edge < spec_edge_count(generation) ==> uses_edge(faces, edge)
}

/// Whether the store has exactly `count` slots, all of them written.
pub open spec fn full<P>(store: Seq<Option<P>>, count: nat) -> bool {
    &&& store.len() == count
    &&& forall|slot: int| 0 <= slot < count ==> (#[trigger] store[slot]) is Some
}

/// Splitting all faces of a generation gives all faces of the next, in
/// order.
pub proof fn lemma_uniform_split(faces: Seq<Face>, generation: nat)
    requires
        uniform(faces, generation),
        generation < MAX_GENERATION,
    ensures
        uniform(split_faces(faces), generation + 1),
{
    lemma_face_count_step(generation);
    let children = split_faces(faces);
    assert forall|i: int| 0 <= i < children.len() implies {
        &&& (#[trigger] children[i]).wf()
        &&& children[i].generation == generation + 1
        &&& children[i].index == i
    } by {
        let parent = faces[i / 4];
        parent.lemma_children();
        assert(children[i] == parent.child(i % 4));
    }
}

/// If the faces of a generation use every edge of it, their children use
/// every edge of the next: the two halves of each edge, and the three
/// inner edges of each face.
pub proof fn lemma_covered_split(faces: Seq<Face>, generation: nat)
    requires
        uniform(faces, generation),
        covered(faces, generation),
        generation < MAX_GENERATION,
    ensures
        covered(split_faces(faces), generation + 1),
{
    lemma_face_count_step(generation);
    lemma_counts_fit(generation + 1);
    let children = split_faces(faces);
    let halves = 2 * spec_edge_count(generation);
    assert forall|edge: int| 0 <= edge < spec_edge_count(generation + 1) implies uses_edge(
        children,
        edge,
    ) by {
        if edge < halves {
            assert(uses_edge(faces, edge / 2));
            let (i, k) = choose|i: int, k: int|
                0 <= i < faces.len() && 0 <= k < 3 && #[trigger] faces[i].edge_index(k) == edge
                    / 2;
            let parent = faces[i];
            parent.lemma_children();
            let parts = parent.edge(k).spec_split();
            assert(parts.0.index == edge || parts.2.index == edge);
            let at_start = parts.0.index == edge;
            let (c, slot): (int, int) = if k == 0 {
                if at_start {
                    (0, 0)
                } else {
                    (1, 0)
                }
            } else if k == 1 {
                if at_start {
                    (1, 1)
                } else {
                    (2, 0)
                }
            } else {
                if at_start {
                    (2, 1)
                } else {
                    (0, 2)
                }
            };
            assert((4 * i + c) / 4 == i && (4 * i + c) % 4 == c);
            assert(children[4 * i + c] == parent.child(c));
            assert(children[4 * i + c].edge_index(slot) == edge);
        } else {
            let inner = edge - halves;
            let i = inner / 3;
            let slot = inner % 3;
            assert(0 <= i < faces.len());
            let parent = faces[i];
            parent.lemma_children();
            assert((4 * i + 3) / 4 == i && (4 * i + 3) % 4 == 3);
            assert(children[4 * i + 3] == parent.child(3));
            assert(parent.inner_edge(slot).index == edge);
            assert(children[4 * i + 3].edge_index(slot) == edge);
        }
    }
}

/// A full store supports faces whose corners are vertices of the
/// generation it is full for.
pub proof fn lemma_full_supports<P>(faces: Seq<Face>, generation: nat, store: Seq<Option<P>>)
    requires
        uniform(faces, generation),
        full(store, spec_vertex_count(generation)),
    ensures
        supported(faces, store),
{
    assert forall|i: int, k: int| 0 <= i < faces.len() && 0 <= k < 3 implies holds(
        store,
        #[trigger] faces[i].vertex(k) as int,
    ) by {
        assert(faces[i].wf());
        assert(store[faces[i].vertex(k) as int] is Some);
    }
}

/// All faces of a generation can be split if the next generation can be
/// counted and its vertices can be indexed on this machine.
pub proof fn lemma_uniform_refinable(faces: Seq<Face>, generation: nat)
    requires
        uniform(faces, generation),
        generation < MAX_GENERATION,
        spec_vertex_count(generation + 1) <= usize::MAX,
    ensures
        refinable(faces),
{
}

/// If the store was full for a generation and has grown by a pass over
/// all faces of that generation, which use every edge, then it is full for
/// the next generation: one new vertex for each edge, and no other.
pub proof fn lemma_full_grown<P>(
    faces: Seq<Face>,
    generation: nat,
    before: Seq<Option<P>>,
    after: Seq<Option<P>>,
)
    requires
        uniform(faces, generation),
        covered(faces, generation),
        generation < MAX_GENERATION,
        full(before, spec_vertex_count(generation)),
        grown(before, after, faces),
    ensures
        full(after, spec_vertex_count(generation + 1)),
{
    lemma_counts_fit(generation + 1);
    let low = spec_vertex_count(generation) as int;
    let high = spec_vertex_count(generation + 1) as int;
    assert(high == low + spec_edge_count(generation));
    assert(low >= 12) by {
        crate::planet::count::lemma_counts_increase(0, generation);
    }
    assert(spec_edge_count(generation) >= 30) by {
        crate::planet::count::lemma_counts_increase(0, generation);
    }
    assert(before.last() is Some);
    assert(ends_written(after));
    assert forall|slot: int| 0 <= slot < high implies slot < after.len() && (
    #[trigger] after[slot]) is Some by {
        if slot < low {
            assert(holds(before, slot));
        } else {
            assert(uses_edge(faces, slot - low));
            let (i, k) = choose|i: int, k: int|
                0 <= i < faces.len() && 0 <= k < 3 && #[trigger] faces[i].edge_index(k) == slot
                    - low;
            assert(holds(after, faces[i].edge(k).midpoint() as int));
        }
    }
    assert(after[high - 1] is Some);
    if after.len() > high {
        let last = after.len() - 1;
        assert(holds(after, last));
        assert(!holds(before, last));
        assert(made_by(faces, last));
        let (i, k) = choose|i: int, k: int|
            0 <= i < faces.len() && 0 <= k < 3 && #[trigger] faces[i].edge(k).midpoint() == last;
        assert(faces[i].wf());
        assert(faces[i].edge_index(k) < spec_edge_count(generation));
        assert(false);
    }
}

} // verus!
