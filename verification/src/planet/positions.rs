//! Where the vertices of a pass lie, whoever writes them first.
//!
//! A vertex is written by the first face that reaches its edge, from the
//! positions of the edge's two ends as that face walks it. The other face
//! at the edge walks it the other way. Where addition does not depend on
//! the order of its operands both come to the same position, so the order
//! in which the faces are visited shows in nothing.

use crate::location::algebra::Norm;
use crate::location::algebra::One;
use crate::location::vector3d::Vector3d;
use crate::planet::count::spec_vertex_count;
use crate::planet::count::MAX_GENERATION;
use crate::planet::coverage::full;
use crate::planet::edge::normalized_midpoint;
use crate::planet::edge::Edge;
use crate::planet::face::Face;
use crate::planet::manifold::opposed;
use crate::planet::manifold::proper;
use crate::planet::refinement::made_by;
use crate::planet::refinement::refine_store;
use crate::planet::vertices::holds;
use crate::planet::vertices::keeps;
use std::ops::Add;
use std::ops::Div;
use vstd::prelude::*;
use vstd::std_specs::ops::AddSpec;

verus! {

/// Whether addition of the number type gives the same sum for its two
/// operands in either order.
pub open spec fn commutative_add<T: Add<Output = T>>() -> bool {
    forall|a: T, b: T| #[trigger] a.add_spec(b) == b.add_spec(a)
}

/// The position that belongs to the midpoint of an edge: the normalized
/// midpoint of the positions that the store holds for its two ends.
pub open spec fn edge_position<T>(edge: Edge, store: Seq<Option<Vector3d<T>>>) -> Vector3d<
    T,
> where T: Copy + One + Norm<Output = T> + Add<Output = T> + Div<Output = T> {
    normalized_midpoint(
        store[edge.vertices.0 as int].unwrap(),
        store[edge.vertices.1 as int].unwrap(),
    )
}

/// Whether `after` holds, for every edge of every face, the position that
/// belongs to its midpoint by the positions of `before`.
pub open spec fn placed<T>(
    faces: Seq<Face>,
    before: Seq<Option<Vector3d<T>>>,
    after: Seq<Option<Vector3d<T>>>,
) -> bool where T: Copy + One + Norm<Output = T> + Add<Output = T> + Div<Output = T> {
    forall|i: int, k: int|
        0 <= i < faces.len() && 0 <= k < 3 ==> {
            &&& holds(after, (#[trigger] faces[i].edge(k)).midpoint() as int)
            &&& after[faces[i].edge(k).midpoint() as int] == Some(
                edge_position(faces[i].edge(k), before),
            )
        }
}

/// Whether the faces all belong to one generation.
pub open spec fn of_generation(faces: Seq<Face>, generation: nat) -> bool {
    forall|i: int|
        0 <= i < faces.len() ==> (#[trigger] faces[i]).wf() && faces[i].generation == generation
}

/// Where addition is commutative, the normalized midpoint of two
/// positions does not depend on their order.
pub proof fn lemma_midpoint_symmetric<T>(a: Vector3d<T>, b: Vector3d<T>) where
    T: Copy + One + Norm<Output = T> + Add<Output = T> + Div<Output = T>,

    requires
        commutative_add::<T>(),
    ensures
        normalized_midpoint(a, b) == normalized_midpoint(b, a),
{
    assert(a.x.add_spec(b.x) == b.x.add_spec(a.x));
    assert(a.y.add_spec(b.y) == b.y.add_spec(a.y));
    assert(a.z.add_spec(b.z) == b.z.add_spec(a.z));
    assert(a.add_spec(b) == b.add_spec(a));
}

/// One edge split in the course of a pass. If its midpoint, where it is
/// written already, holds the position that belongs to it, then
/// afterwards it holds that position in any case, and nothing else has
/// changed.
pub proof fn lemma_split_places<T>(
    edge: Edge,
    generation: nat,
    before: Seq<Option<Vector3d<T>>>,
    current: Seq<Option<Vector3d<T>>>,
) where T: Copy + One + Norm<Output = T> + Add<Output = T> + Div<Output = T>
    requires
        edge.generation == generation,
        edge.vertices.0 < spec_vertex_count(generation),
        edge.vertices.1 < spec_vertex_count(generation),
        full(before, spec_vertex_count(generation)),
        keeps(current, before),
        holds(current, edge.midpoint() as int) ==> current[edge.midpoint() as int] == Some(
            edge_position(edge, before),
        ),
    ensures
        keeps(edge.split_store(current), current),
        keeps(edge.split_store(current), before),
        holds(edge.split_store(current), edge.midpoint() as int),
        edge.split_store(current)[edge.midpoint() as int] == Some(edge_position(edge, before)),
        forall|slot: int|
            holds(edge.split_store(current), slot) ==> holds(current, slot) || slot
                == edge.midpoint(),
{
    let next = edge.split_store(current);
    assert(before[edge.vertices.0 as int] is Some);
    assert(before[edge.vertices.1 as int] is Some);
    assert(holds(before, edge.vertices.0 as int));
    assert(holds(before, edge.vertices.1 as int));
    assert(current[edge.vertices.0 as int] == before[edge.vertices.0 as int]);
    assert(current[edge.vertices.1 as int] == before[edge.vertices.1 as int]);
    assert(keeps(next, current));
    assert forall|i: int| holds(before, i) implies next[i] == before[i] by {
        assert(holds(current, i));
    }
}

/// Whether every slot written beyond the vertices of the generation is
/// the midpoint of an edge of one of the faces.
pub open spec fn only_midpoints<P>(faces: Seq<Face>, generation: nat, store: Seq<Option<P>>) -> bool {
    forall|slot: int|
        holds(store, slot) && slot >= spec_vertex_count(generation) ==> made_by(faces, slot)
}

/// The pass places every vertex where it belongs. Let the faces belong to
/// one generation, let faces that share an edge walk it in opposite
/// directions, let the store hold the vertices of the generation and no
/// others, and let addition be commutative. Then after the pass the
/// midpoint of every edge of every face holds the normalized midpoint of
/// the positions of the two ends of that edge, whichever face wrote it,
/// and every position that was there before is unchanged.
pub proof fn lemma_refine_store_placed<T>(
    faces: Seq<Face>,
    generation: nat,
    store: Seq<Option<Vector3d<T>>>,
) where T: Copy + One + Norm<Output = T> + Add<Output = T> + Div<Output = T>
    requires
        of_generation(faces, generation),
        generation <= MAX_GENERATION,
        proper(faces),
        opposed(faces),
        full(store, spec_vertex_count(generation)),
        commutative_add::<T>(),
    ensures
        keeps(refine_store(faces, store), store),
        placed(faces, store, refine_store(faces, store)),
        only_midpoints(faces, generation, refine_store(faces, store)),
    decreases faces.len(),
{
    if faces.len() == 0 {
        return ;
    }
    let front = faces.drop_last();
    let face = faces.last();
    let n = front.len() as int;
    assert forall|i: int| 0 <= i < front.len() implies front[i] == faces[i] by {}
    assert(of_generation(front, generation));
    assert(proper(front)) by {
        assert forall|i: int, k: int| 0 <= i < front.len() && 0 <= k < 3 implies (
        #[trigger] front[i].edge(k)).vertices.0 != front[i].edge(k).vertices.1 by {
            assert(front[i].edge(k) == faces[i].edge(k));
        }
    }
    assert(opposed(front)) by {
        assert forall|i: int, k: int, j: int, l: int|
            0 <= i < front.len() && 0 <= k < 3 && 0 <= j < front.len() && 0 <= l < 3 && (i, k)
                != (j, l) && #[trigger] front[i].edge_index(k) == #[trigger] front[j].edge_index(
                l,
            ) implies front[i].edge(k) == front[j].edge(l).reversed() by {
            assert(faces[i].edge_index(k) == faces[j].edge_index(l));
        }
    }
    lemma_refine_store_placed(front, generation, store);
    let s0 = refine_store(front, store);
    let e0 = face.edge(0);
    let e1 = face.edge(1);
    let e2 = face.edge(2);
    let s1 = e0.split_store(s0);
    let s2 = e1.split_store(s1);
    let s3 = e2.split_store(s2);
    assert(refine_store(faces, store) == s3);
    assert(face == faces[n]);
    assert(face.wf());
    assert(face.vertex(0) < spec_vertex_count(generation));
    assert(face.vertex(1) < spec_vertex_count(generation));
    assert(face.vertex(2) < spec_vertex_count(generation));
    assert(faces[n].edge(0).vertices.0 != faces[n].edge(0).vertices.1);
    assert(faces[n].edge(1).vertices.0 != faces[n].edge(1).vertices.1);
    assert(faces[n].edge(2).vertices.0 != faces[n].edge(2).vertices.1);
    if faces[n].edge_index(0) == faces[n].edge_index(1) {
        assert(faces[n].edge(0) == faces[n].edge(1).reversed());
    }
    if faces[n].edge_index(1) == faces[n].edge_index(2) {
        assert(faces[n].edge(1) == faces[n].edge(2).reversed());
    }
    if faces[n].edge_index(2) == faces[n].edge_index(0) {
        assert(faces[n].edge(2) == faces[n].edge(0).reversed());
    }
    lemma_found_placed(faces, generation, store, s0, 0);
    lemma_split_places(e0, generation, store, s0);
    assert(holds(s1, e1.midpoint() as int) ==> holds(s0, e1.midpoint() as int));
    lemma_found_placed(faces, generation, store, s0, 1);
    lemma_split_places(e1, generation, store, s1);
    assert(holds(s2, e2.midpoint() as int) ==> holds(s0, e2.midpoint() as int));
    lemma_found_placed(faces, generation, store, s0, 2);
    lemma_split_places(e2, generation, store, s2);
    assert forall|i: int, k: int| 0 <= i < faces.len() && 0 <= k < 3 implies holds(
        s3,
        (#[trigger] faces[i].edge(k)).midpoint() as int,
    ) && s3[faces[i].edge(k).midpoint() as int] == Some(
        edge_position(faces[i].edge(k), store),
    ) by {
        let m = faces[i].edge(k).midpoint() as int;
        if i < n {
            assert(front[i].edge(k) == faces[i].edge(k));
            assert(s0[m] == Some(edge_position(front[i].edge(k), store)));
            assert(holds(s0, m));
            assert(holds(s1, m) && s1[m] == s0[m]);
            assert(holds(s2, m) && s2[m] == s1[m]);
            assert(s3[m] == s2[m]);
        } else {
            assert(faces[i] == face);
            if k == 0 {
                assert(holds(s1, m));
                assert(holds(s2, m) && s2[m] == s1[m]);
                assert(s3[m] == s2[m]);
            } else if k == 1 {
                assert(holds(s2, m));
                assert(s3[m] == s2[m]);
            } else {
            }
        }
    }
    assert forall|slot: int|
        holds(s3, slot) && slot >= spec_vertex_count(generation) implies made_by(faces, slot) by {
        if holds(s0, slot) {
            assert(made_by(front, slot));
            let (i, k) = choose|i: int, k: int|
                0 <= i < front.len() && 0 <= k < 3 && #[trigger] front[i].edge(k).midpoint()
                    == slot;
            assert(faces[i].edge(k).midpoint() == slot);
        } else if slot == e0.midpoint() {
            assert(faces[n].edge(0).midpoint() == slot);
        } else if slot == e1.midpoint() {
            assert(faces[n].edge(1).midpoint() == slot);
        } else {
            assert(holds(s2, slot) || slot == e2.midpoint());
            assert(holds(s1, slot) || slot == e1.midpoint() || slot == e2.midpoint());
            assert(slot == e2.midpoint());
            assert(faces[n].edge(2).midpoint() == slot);
        }
    }
    assert(keeps(s3, store)) by {
        assert forall|i: int| holds(store, i) implies s3[i] == store[i] by {
            assert(holds(s0, i) && holds(s1, i) && holds(s2, i));
        }
    }
}

/// The midpoint of an edge of the last face, where an earlier face has
/// written it, holds the position that belongs to it: the earlier face
/// walked the edge the other way, and the normalized midpoint does not
/// depend on the direction.
pub proof fn lemma_found_placed<T>(
    faces: Seq<Face>,
    generation: nat,
    store: Seq<Option<Vector3d<T>>>,
    current: Seq<Option<Vector3d<T>>>,
    slot: int,
) where T: Copy + One + Norm<Output = T> + Add<Output = T> + Div<Output = T>
    requires
        faces.len() > 0,
        0 <= slot < 3,
        of_generation(faces, generation),
        generation <= MAX_GENERATION,
        proper(faces),
        opposed(faces),
        full(store, spec_vertex_count(generation)),
        commutative_add::<T>(),
        placed(faces.drop_last(), store, current),
        only_midpoints(faces.drop_last(), generation, current),
    ensures
        holds(current, faces.last().edge(slot).midpoint() as int) ==> current[faces.last().edge(
            slot,
        ).midpoint() as int] == Some(edge_position(faces.last().edge(slot), store)),
{
    let front = faces.drop_last();
    let n = front.len() as int;
    let edge = faces[n].edge(slot);
    let m = edge.midpoint() as int;
    if holds(current, m) {
        assert(m >= spec_vertex_count(generation));
        assert(made_by(front, m));
        let (i, k) = choose|i: int, k: int|
            0 <= i < front.len() && 0 <= k < 3 && #[trigger] front[i].edge(k).midpoint() == m;
        assert(front[i] == faces[i]);
        assert(faces[i].wf() && faces[n].wf());
        assert(faces[i].edge(k).midpoint() == m);
        assert(faces[i].edge_index(k) == faces[n].edge_index(slot));
        assert(faces[i].edge(k) == faces[n].edge(slot).reversed());
        assert(current[m] == Some(edge_position(front[i].edge(k), store)));
        lemma_midpoint_symmetric(
            store[edge.vertices.1 as int].unwrap(),
            store[edge.vertices.0 as int].unwrap(),
        );
    }
}

} // verus!
