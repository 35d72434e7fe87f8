//! What one pass of refinement does to a sequence of leaf faces and to the
//! vertex store, stated on sequences so that it holds of any quadtree
//! whose leaves these are.

use crate::location::algebra::Norm;
use crate::location::algebra::One;
use crate::location::vector3d::Vector3d;
use crate::planet::count::spec_vertex_count;
use crate::planet::edge::filled;
use crate::planet::count::MAX_GENERATION;
use crate::planet::face::Face;
use crate::planet::vertices::ends_written;
use crate::planet::vertices::holds;
use crate::planet::vertices::keeps;
use std::ops::Add;
use std::ops::Div;
use vstd::prelude::*;

verus! {

/// The faces after each of `faces` has been split: the four children of
/// the first, then those of the second, and so on.
pub open spec fn split_faces(faces: Seq<Face>) -> Seq<Face> {
    Seq::new(4 * faces.len(), |i: int| faces[i / 4].child(i % 4))
}

/// Whether the store holds a position for every corner of every face.
pub open spec fn supported<P>(faces: Seq<Face>, store: Seq<Option<P>>) -> bool {
    forall|i: int, k: int|
        0 <= i < faces.len() && 0 <= k < 3 ==> holds(store, #[trigger] faces[i].vertex(k) as int)
}

/// Whether every face can be split: each belongs to its generation, the
/// next generation can still be counted, and its vertices can be indexed
/// on this machine.
pub open spec fn refinable(faces: Seq<Face>) -> bool {
    forall|i: int|
        0 <= i < faces.len() ==> {
            &&& (#[trigger] faces[i]).wf()
            &&& faces[i].generation < MAX_GENERATION
            &&& spec_vertex_count((faces[i].generation + 1) as nat) <= usize::MAX
        }
}

/// Whether `slot` is where the midpoint of an edge of one of the faces
/// goes.
pub open spec fn made_by(faces: Seq<Face>, slot: int) -> bool {
    exists|i: int, k: int|
        0 <= i < faces.len() && 0 <= k < 3 && #[trigger] faces[i].edge(k).midpoint() == slot
}

/// How the store changes while `faces` are split, whatever the positions
/// are: nothing written before is changed, the midpoint of every edge of
/// every face is written afterwards, nothing else is written, and the
/// store still ends in a written slot if it did before.
pub open spec fn grown<P>(
    before: Seq<Option<P>>,
    after: Seq<Option<P>>,
    faces: Seq<Face>,
) -> bool {
    &&& keeps(after, before)
    &&& forall|i: int, k: int|
        0 <= i < faces.len() && 0 <= k < 3 ==> holds(
            after,
            #[trigger] faces[i].edge(k).midpoint() as int,
        )
    &&& forall|slot: int| holds(after, slot) && !holds(before, slot) ==> made_by(faces, slot)
    &&& ends_written(before) ==> ends_written(after)
}

/// The store after the three edges of `face` are split, one after the
/// other.
pub open spec fn split_face_store<T>(face: Face, store: Seq<Option<Vector3d<T>>>) -> Seq<
    Option<Vector3d<T>>,
> where T: Copy + One + Norm<Output = T> + Add<Output = T> + Div<Output = T> {
    face.edge(2).split_store(face.edge(1).split_store(face.edge(0).split_store(store)))
}

/// The store after `faces` are split, one after the other.
pub open spec fn refine_store<T>(faces: Seq<Face>, store: Seq<Option<Vector3d<T>>>) -> Seq<
    Option<Vector3d<T>>,
> where T: Copy + One + Norm<Output = T> + Add<Output = T> + Div<Output = T>
    decreases faces.len(),
{
    if faces.len() == 0 {
        store
    } else {
        split_face_store(faces.last(), refine_store(faces.drop_last(), store))
    }
}

/// Splitting two runs of faces one after the other is splitting the runs
/// joined.
pub proof fn lemma_refine_store_concat<T>(
    first: Seq<Face>,
    second: Seq<Face>,
    store: Seq<Option<Vector3d<T>>>,
) where T: Copy + One + Norm<Output = T> + Add<Output = T> + Div<Output = T>
    ensures
        refine_store(first + second, store) == refine_store(second, refine_store(first, store)),
    decreases second.len(),
{
    if second.len() == 0 {
        assert(first + second =~= first);
    } else {
        lemma_refine_store_concat(first, second.drop_last(), store);
        assert((first + second).drop_last() =~= first + second.drop_last());
        assert((first + second).last() == second.last());
    }
}

/// The children of two runs of faces are the children of the first run
/// followed by those of the second.
pub proof fn lemma_split_faces_concat(first: Seq<Face>, second: Seq<Face>)
    ensures
        split_faces(first + second) =~= split_faces(first) + split_faces(second),
{
    assert forall|i: int| 0 <= i < 4 * (first.len() + second.len()) implies split_faces(
        first + second,
    )[i] == (split_faces(first) + split_faces(second))[i] by {
        if i < 4 * first.len() {
            assert(i / 4 < first.len());
        } else {
            assert((i - 4 * first.len()) / 4 == i / 4 - first.len());
            assert((i - 4 * first.len()) % 4 == i % 4);
        }
    }
}

/// Growth of the store composes: what holds of two passes in a row holds
/// of both runs of faces joined.
pub proof fn lemma_grown_concat<P>(
    start: Seq<Option<P>>,
    middle: Seq<Option<P>>,
    end: Seq<Option<P>>,
    first: Seq<Face>,
    second: Seq<Face>,
)
    requires
        grown(start, middle, first),
        grown(middle, end, second),
    ensures
        grown(start, end, first + second),
{
    let both = first + second;
    assert forall|i: int, k: int| 0 <= i < both.len() && 0 <= k < 3 implies holds(
        end,
        #[trigger] both[i].edge(k).midpoint() as int,
    ) by {
        if i < first.len() {
            assert(holds(middle, first[i].edge(k).midpoint() as int));
        } else {
            assert(holds(end, second[i - first.len()].edge(k).midpoint() as int));
        }
    }
    assert forall|slot: int| holds(end, slot) && !holds(start, slot) implies made_by(
        both,
        slot,
    ) by {
        if holds(middle, slot) {
            assert(made_by(first, slot));
            let (i, k) = choose|i: int, k: int|
                0 <= i < first.len() && 0 <= k < 3 && #[trigger] first[i].edge(k).midpoint()
                    == slot;
            assert(both[i].edge(k).midpoint() == slot);
        } else {
            assert(made_by(second, slot));
            let (i, k) = choose|i: int, k: int|
                0 <= i < second.len() && 0 <= k < 3 && #[trigger] second[i].edge(k).midpoint()
                    == slot;
            assert(both[i + first.len()].edge(k).midpoint() == slot);
        }
    }
}

/// A store that keeps what an earlier one holds supports every face the
/// earlier one supports.
pub proof fn lemma_supported_kept<P>(
    faces: Seq<Face>,
    earlier: Seq<Option<P>>,
    later: Seq<Option<P>>,
)
    requires
        supported(faces, earlier),
        keeps(later, earlier),
    ensures
        supported(faces, later),
{
    assert forall|i: int, k: int| 0 <= i < faces.len() && 0 <= k < 3 implies holds(
        later,
        #[trigger] faces[i].vertex(k) as int,
    ) by {
        assert(holds(earlier, faces[i].vertex(k) as int));
    }
}

/// One face split: if each of the three stores comes from the one before
/// by filling the midpoint slot of one edge, then the store has grown by
/// this face, and it supports the four children.
pub proof fn lemma_grown_by_one<P>(
    face: Face,
    s0: Seq<Option<P>>,
    s1: Seq<Option<P>>,
    s2: Seq<Option<P>>,
    s3: Seq<Option<P>>,
)
    requires
        face.wf(),
        face.generation < MAX_GENERATION,
        supported(seq![face], s0),
        holds(s1, face.edge(0).midpoint() as int),
        holds(s2, face.edge(1).midpoint() as int),
        holds(s3, face.edge(2).midpoint() as int),
        s1 == filled(
            s0,
            face.edge(0).midpoint() as int,
            s1[face.edge(0).midpoint() as int].unwrap(),
        ),
        s2 == filled(
            s1,
            face.edge(1).midpoint() as int,
            s2[face.edge(1).midpoint() as int].unwrap(),
        ),
        s3 == filled(
            s2,
            face.edge(2).midpoint() as int,
            s3[face.edge(2).midpoint() as int].unwrap(),
        ),
    ensures
        grown(s0, s3, seq![face]),
        supported(split_faces(seq![face]), s3),
{
    let faces = seq![face];
    let m0 = face.edge(0).midpoint() as int;
    let m1 = face.edge(1).midpoint() as int;
    let m2 = face.edge(2).midpoint() as int;
    face.lemma_children();
    assert(keeps(s1, s0));
    assert(keeps(s2, s1));
    assert(keeps(s3, s2));
    assert(keeps(s3, s0));
    assert(faces[0] == face);
    assert forall|i: int, k: int| 0 <= i < faces.len() && 0 <= k < 3 implies holds(
        s3,
        #[trigger] faces[i].edge(k).midpoint() as int,
    ) by {
        assert(holds(s3, m0));
        assert(holds(s3, m1));
        assert(holds(s3, m2));
    }
    assert forall|slot: int| holds(s3, slot) && !holds(s0, slot) implies made_by(faces, slot) by {
        if slot == m0 {
            assert(faces[0].edge(0).midpoint() == slot);
        } else if slot == m1 {
            assert(faces[0].edge(1).midpoint() == slot);
        } else {
            assert(slot == m2);
            assert(faces[0].edge(2).midpoint() == slot);
        }
    }
    assert(holds(s0, face.vertex(0) as int));
    assert(holds(s0, face.vertex(1) as int));
    assert(holds(s0, face.vertex(2) as int));
    assert(face.midpoint(0) == m0);
    assert(face.midpoint(1) == m1);
    assert(face.midpoint(2) == m2);
    let children = split_faces(faces);
    assert forall|i: int, k: int| 0 <= i < children.len() && 0 <= k < 3 implies holds(
        s3,
        #[trigger] children[i].vertex(k) as int,
    ) by {
        assert(children[i] == face.child(i));
    }
}

} // verus!
