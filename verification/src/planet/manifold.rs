//! Why the faces fit together: wherever two faces meet in an edge, they
//! walk it in opposite directions, and this stays so when both are split.
//! With it the two faces arrive at the same midpoint vertex and at the
//! same two half edges, each computing them on its own.

use crate::planet::count::lemma_counts_fit;
use crate::planet::count::lemma_face_count_step;
use crate::planet::count::spec_edge_count;
use crate::planet::count::spec_face_count;
use crate::planet::count::spec_vertex_count;
use crate::planet::count::MAX_GENERATION;
use crate::planet::coverage::uniform;
use crate::planet::edge::lemma_split_reversed;
use crate::planet::face::Face;
use crate::planet::refinement::split_faces;
use crate::planet::seed::lemma_seed_edge_sides;
use crate::planet::seed::lemma_seed_edges_distinct;
use crate::planet::seed::lemma_seed_faces_opposite;
use crate::planet::seed::lemma_seed_slot_side;
use crate::planet::seed::seed_leaves;
use vstd::prelude::*;

verus! {

/// Whether every edge of every face joins two different vertices.
pub open spec fn proper(faces: Seq<Face>) -> bool {
    forall|i: int, k: int|
        0 <= i < faces.len() && 0 <= k < 3 ==> (#[trigger] faces[i].edge(k)).vertices.0
            != faces[i].edge(k).vertices.1
}

/// Whether any two faces that share an edge walk it in opposite
/// directions: two different edge slots with the same edge index hold the
/// same edge, the one walked the other way than the other.
pub open spec fn opposed(faces: Seq<Face>) -> bool {
    forall|i: int, k: int, j: int, l: int|
        0 <= i < faces.len() && 0 <= k < 3 && 0 <= j < faces.len() && 0 <= l < 3 && (i, k) != (
            j,
            l,
        ) && #[trigger] faces[i].edge_index(k) == #[trigger] faces[j].edge_index(l)
            ==> faces[i].edge(k) == faces[j].edge(l).reversed()
}

/// The edge slot of a face from which edge slot `slot` of its child
/// `child` is cut, where that is half of an outer edge.
pub open spec fn outer_slot(child: int, slot: int) -> int {
    if child == 0 {
        if slot == 0 {
            0
        } else {
            2
        }
    } else if child == 1 {
        if slot == 0 {
            0
        } else {
            1
        }
    } else {
        if slot == 0 {
            1
        } else {
            2
        }
    }
}

/// Whether edge slot `slot` of child `child` is an inner edge of the face
/// that was split.
pub open spec fn is_inner(child: int, slot: int) -> bool {
    child == 3 || (child == 0 && slot == 1) || (child == 1 && slot == 2) || (child == 2 && slot
        == 2)
}

/// The edges of the four children of a face, named: each is half of an
/// outer edge of the face, or one of its inner edges, walked forwards by
/// the child in the centre and backwards by the child in the corner.
pub proof fn lemma_child_edges(face: Face)
    requires
        face.wf(),
        face.generation < MAX_GENERATION,
    ensures
        face.child(0).edge(0) == face.edge(0).spec_split().0,
        face.child(0).edge(1) == face.inner_edge(0).reversed(),
        face.child(0).edge(2) == face.edge(2).spec_split().2,
        face.child(1).edge(0) == face.edge(0).spec_split().2,
        face.child(1).edge(1) == face.edge(1).spec_split().0,
        face.child(1).edge(2) == face.inner_edge(1).reversed(),
        face.child(2).edge(0) == face.edge(1).spec_split().2,
        face.child(2).edge(1) == face.edge(2).spec_split().0,
        face.child(2).edge(2) == face.inner_edge(2).reversed(),
        face.child(3).edge(0) == face.inner_edge(0),
        face.child(3).edge(1) == face.inner_edge(1),
        face.child(3).edge(2) == face.inner_edge(2),
        forall|k: int|
            0 <= k < 3 ==> (#[trigger] face.inner_edge(k)).index == 2 * spec_edge_count(
                face.generation as nat,
            ) + 3 * face.index + k,
        forall|k: int|
            0 <= k < 3 ==> (#[trigger] face.edge(k).spec_split()).0.index / 2
                == face.edge_index(k) && face.edge(k).spec_split().2.index / 2
                == face.edge_index(k) && face.edge(k).spec_split().0.index
                != face.edge(k).spec_split().2.index,
{
    face.lemma_children();
    let g = face.generation as nat;
    lemma_counts_fit(g + 1);
    lemma_face_count_step(g);
    assert(spec_edge_count(g + 1) == 2 * spec_edge_count(g) + 3 * spec_face_count(g));
    assert(face.edge_index(0) < spec_edge_count(g));
    assert(face.edge_index(1) < spec_edge_count(g));
    assert(face.edge_index(2) < spec_edge_count(g));
}

/// Splitting keeps the edges proper: a half edge joins an old vertex and
/// a new one, and an inner edge joins the midpoints of two different
/// edges.
pub proof fn lemma_proper_split(faces: Seq<Face>, generation: nat)
    requires
        uniform(faces, generation),
        generation < MAX_GENERATION,
        proper(faces),
        opposed(faces),
    ensures
        proper(split_faces(faces)),
{
    let children = split_faces(faces);
    assert forall|i: int, k: int| 0 <= i < children.len() && 0 <= k < 3 implies (
    #[trigger] children[i].edge(k)).vertices.0 != children[i].edge(k).vertices.1 by {
        let parent = faces[i / 4];
        assert(children[i] == parent.child(i % 4));
        parent.lemma_children();
        lemma_child_edges(parent);
        lemma_distinct_edges(faces, generation, i / 4);
        assert(parent.vertex(0) < spec_vertex_count(generation));
        assert(parent.vertex(1) < spec_vertex_count(generation));
        assert(parent.vertex(2) < spec_vertex_count(generation));
    }
}

/// The three edges of a face are three different edges.
pub proof fn lemma_distinct_edges(faces: Seq<Face>, generation: nat, i: int)
    requires
        uniform(faces, generation),
        proper(faces),
        opposed(faces),
        0 <= i < faces.len(),
    ensures
        faces[i].edge_index(0) != faces[i].edge_index(1),
        faces[i].edge_index(1) != faces[i].edge_index(2),
        faces[i].edge_index(2) != faces[i].edge_index(0),
{
    let face = faces[i];
    assert(face.edge(0).vertices.0 != face.edge(0).vertices.1);
    assert(face.edge(1).vertices.0 != face.edge(1).vertices.1);
    assert(face.edge(2).vertices.0 != face.edge(2).vertices.1);
    if face.edge_index(0) == face.edge_index(1) {
        assert(faces[i].edge(0) == faces[i].edge(1).reversed());
    }
    if face.edge_index(1) == face.edge_index(2) {
        assert(faces[i].edge(1) == faces[i].edge(2).reversed());
    }
    if face.edge_index(2) == face.edge_index(0) {
        assert(faces[i].edge(2) == faces[i].edge(0).reversed());
    }
}

/// An inner edge is shared by two children of the face it lies in, and
/// by no child of another face of the generation: the child in the centre
/// and one child in a corner, which walk it in opposite directions.
pub proof fn lemma_inner_edges_opposed(a: Face, b: Face, c: int, k: int, d: int, l: int)
    requires
        a.wf(),
        b.wf(),
        a.generation == b.generation,
        a.generation < MAX_GENERATION,
        0 <= c < 4,
        0 <= k < 3,
        0 <= d < 4,
        0 <= l < 3,
        is_inner(c, k),
        a.child(c).edge_index(k) == b.child(d).edge_index(l),
    ensures
        is_inner(d, l),
        a.index == b.index,
        a == b && (c, k) != (d, l) ==> a.child(c).edge(k) == b.child(d).edge(l).reversed(),
{
    lemma_child_edges(a);
    lemma_child_edges(b);
    a.lemma_children();
    b.lemma_children();
    let g = a.generation as nat;
    let halves = 2 * spec_edge_count(g);
    assert(a.child(c).edge(k).index == a.child(c).edge_index(k));
    assert(b.child(d).edge(l).index == b.child(d).edge_index(l));
    assert(a.child(c).edge_index(k) >= halves);
    assert(a.edge_index(0) < spec_edge_count(g));
    assert(a.edge_index(1) < spec_edge_count(g));
    assert(a.edge_index(2) < spec_edge_count(g));
    assert(b.edge_index(0) < spec_edge_count(g));
    assert(b.edge_index(1) < spec_edge_count(g));
    assert(b.edge_index(2) < spec_edge_count(g));
}

/// Each half of an outer edge belongs to one child only.
pub proof fn lemma_half_edges_apart(a: Face, c: int, k: int, d: int, l: int)
    requires
        a.wf(),
        a.generation < MAX_GENERATION,
        0 <= c < 4,
        0 <= k < 3,
        0 <= d < 4,
        0 <= l < 3,
        !is_inner(c, k),
        !is_inner(d, l),
        outer_slot(c, k) == outer_slot(d, l),
        a.child(c).edge_index(k) == a.child(d).edge_index(l),
    ensures
        (c, k) == (d, l),
{
    lemma_child_edges(a);
    assert(a.child(c).edge(k).index == a.child(c).edge_index(k));
    assert(a.child(d).edge(l).index == a.child(d).edge_index(l));
}

/// Two faces that walk an edge in opposite directions hand each half of
/// it to one child each, and the two children walk the half in opposite
/// directions.
pub proof fn lemma_half_edges_opposed(a: Face, b: Face, c: int, k: int, d: int, l: int)
    requires
        a.wf(),
        b.wf(),
        a.generation == b.generation,
        a.generation < MAX_GENERATION,
        0 <= c < 4,
        0 <= k < 3,
        0 <= d < 4,
        0 <= l < 3,
        !is_inner(c, k),
        !is_inner(d, l),
        a.edge(outer_slot(c, k)) == b.edge(outer_slot(d, l)).reversed(),
        a.edge(outer_slot(c, k)).vertices.0 != a.edge(outer_slot(c, k)).vertices.1,
        a.child(c).edge_index(k) == b.child(d).edge_index(l),
    ensures
        a.child(c).edge(k) == b.child(d).edge(l).reversed(),
{
    lemma_child_edges(a);
    lemma_child_edges(b);
    lemma_split_reversed(b.edge(outer_slot(d, l)));
    assert(a.child(c).edge(k).index == a.child(c).edge_index(k));
    assert(b.child(d).edge(l).index == b.child(d).edge_index(l));
}

/// Splitting keeps the faces opposed: the children of two faces that
/// share an edge share its two halves, and walk each of them in opposite
/// directions; the children of one face share its inner edges and walk
/// them in opposite directions too.
pub proof fn lemma_opposed_split(faces: Seq<Face>, generation: nat)
    requires
        uniform(faces, generation),
        generation < MAX_GENERATION,
        proper(faces),
        opposed(faces),
    ensures
        opposed(split_faces(faces)),
{
    let children = split_faces(faces);
    assert forall|i: int, k: int, j: int, l: int|
        0 <= i < children.len() && 0 <= k < 3 && 0 <= j < children.len() && 0 <= l < 3 && (i, k)
            != (j, l) && #[trigger] children[i].edge_index(k) == #[trigger] children[j].edge_index(
            l,
        ) implies children[i].edge(k) == children[j].edge(l).reversed() by {
        let a = faces[i / 4];
        let b = faces[j / 4];
        let c = i % 4;
        let d = j % 4;
        assert(children[i] == a.child(c));
        assert(children[j] == b.child(d));
        assert(a.wf() && b.wf());
        if is_inner(c, k) {
            lemma_inner_edges_opposed(a, b, c, k, d, l);
            assert(i / 4 == j / 4);
        } else if is_inner(d, l) {
            lemma_inner_edges_opposed(b, a, d, l, c, k);
        } else {
            let p = outer_slot(c, k);
            let q = outer_slot(d, l);
            lemma_child_edges(a);
            lemma_child_edges(b);
            assert(a.child(c).edge(k).index == a.child(c).edge_index(k));
            assert(b.child(d).edge(l).index == b.child(d).edge_index(l));
            assert(a.edge_index(p) == b.edge_index(q));
            assert(faces[i / 4].edge(p).vertices.0 != faces[i / 4].edge(p).vertices.1);
            if (i / 4, p) == (j / 4, q) {
                lemma_half_edges_apart(a, c, k, d, l);
            } else {
                assert(faces[i / 4].edge_index(p) == faces[j / 4].edge_index(q));
                assert(faces[i / 4].edge(p) == faces[j / 4].edge(q).reversed());
                lemma_half_edges_opposed(a, b, c, k, d, l);
            }
        }
    }
}

/// Two faces that share an edge split it alike, each on its own: both
/// arrive at the same midpoint vertex, and the half that the one finds at
/// the start of the edge is the half that the other finds at its end,
/// walked the other way.
pub proof fn lemma_shared_edge_split_alike(faces: Seq<Face>, i: int, k: int, j: int, l: int)
    requires
        proper(faces),
        opposed(faces),
        0 <= i < faces.len(),
        0 <= k < 3,
        0 <= j < faces.len(),
        0 <= l < 3,
        (i, k) != (j, l),
        faces[i].edge_index(k) == faces[j].edge_index(l),
    ensures
        faces[i].edge(k) == faces[j].edge(l).reversed(),
        faces[i].edge(k).midpoint() == faces[j].edge(l).midpoint(),
        faces[i].edge(k).spec_split().1 == faces[j].edge(l).spec_split().1,
        faces[i].edge(k).spec_split().0 == faces[j].edge(l).spec_split().2.reversed(),
        faces[i].edge(k).spec_split().2 == faces[j].edge(l).spec_split().0.reversed(),
{
    assert(faces[j].edge(l).vertices.0 != faces[j].edge(l).vertices.1);
    lemma_split_reversed(faces[j].edge(l));
}

/// The seed faces are proper and opposed.
pub proof fn lemma_seed_opposed()
    ensures
        proper(seed_leaves()),
        opposed(seed_leaves()),
{
    let faces = seed_leaves();
    assert forall|i: int, k: int, j: int, l: int|
        0 <= i < faces.len() && 0 <= k < 3 && 0 <= j < faces.len() && 0 <= l < 3 && (i, k) != (
            j,
            l,
        ) && #[trigger] faces[i].edge_index(k) == #[trigger] faces[j].edge_index(l) implies faces[i].edge(
        k,
    ) == faces[j].edge(l).reversed() by {
        lemma_seed_faces_opposite(i, k, j, l);
    }
    assert forall|i: int, k: int| 0 <= i < faces.len() && 0 <= k < 3 implies (
    #[trigger] faces[i].edge(k)).vertices.0 != faces[i].edge(k).vertices.1 by {
        lemma_seed_slot_side(i, k);
        lemma_seed_edge_sides(faces[i].edge_index(k) as int);
        lemma_seed_edges_distinct(faces[i].edge_index(k) as int, faces[i].edge_index(k) as int);
    }
}

} // verus!
