//! The seed of the mesh: the icosahedron, with its 12 vertices, 30 edges
//! and 20 faces numbered once and for all.

use crate::planet::count::lemma_face_count_step;
use crate::planet::count::spec_edge_count;
use crate::planet::count::spec_vertex_count;
use crate::planet::edge::Edge;
use crate::planet::face::Face;
use vstd::prelude::*;

verus! {

/// The two endpoints of seed edge `index`, for `index` in `0..30`, the
/// smaller one first.
pub open spec fn seed_edge(index: int) -> (u64, u64) {
    if index == 0 {
        (0, 1)
    } else if index == 1 {
        (0, 5)
    } else if index == 2 {
        (0, 7)
    } else if index == 3 {
        (0, 10)
    } else if index == 4 {
        (0, 11)
    } else if index == 5 {
        (1, 5)
    } else if index == 6 {
        (1, 7)
    } else if index == 7 {
        (1, 8)
    } else if index == 8 {
        (1, 9)
    } else if index == 9 {
        (2, 3)
    } else if index == 10 {
        (2, 4)
    } else if index == 11 {
        (2, 6)
    } else if index == 12 {
        (2, 10)
    } else if index == 13 {
        (2, 11)
    } else if index == 14 {
        (3, 4)
    } else if index == 15 {
        (3, 6)
    } else if index == 16 {
        (3, 8)
    } else if index == 17 {
        (3, 9)
    } else if index == 18 {
        (4, 5)
    } else if index == 19 {
        (4, 9)
    } else if index == 20 {
        (4, 11)
    } else if index == 21 {
        (5, 9)
    } else if index == 22 {
        (5, 11)
    } else if index == 23 {
        (6, 7)
    } else if index == 24 {
        (6, 8)
    } else if index == 25 {
        (6, 10)
    } else if index == 26 {
        (7, 8)
    } else if index == 27 {
        (7, 10)
    } else if index == 28 {
        (8, 9)
    } else {
        (10, 11)
    }
}

/// The three corners of seed face `index`, for `index` in `0..20`, in
/// winding order.
pub open spec fn seed_face(index: int) -> (u64, u64, u64) {
    if index == 0 {
        (0, 11, 5)
    } else if index == 1 {
        (0, 5, 1)
    } else if index == 2 {
        (0, 10, 11)
    } else if index == 3 {
        (5, 11, 4)
    } else if index == 4 {
        (0, 1, 7)
    } else if index == 5 {
        (1, 5, 9)
    } else if index == 6 {
        (0, 7, 10)
    } else if index == 7 {
        (11, 10, 2)
    } else if index == 8 {
        (2, 4, 11)
    } else if index == 9 {
        (4, 9, 5)
    } else if index == 10 {
        (7, 1, 8)
    } else if index == 11 {
        (9, 8, 1)
    } else if index == 12 {
        (10, 7, 6)
    } else if index == 13 {
        (6, 2, 10)
    } else if index == 14 {
        (3, 4, 2)
    } else if index == 15 {
        (3, 9, 4)
    } else if index == 16 {
        (8, 6, 7)
    } else if index == 17 {
        (3, 8, 9)
    } else if index == 18 {
        (3, 2, 6)
    } else {
        (3, 6, 8)
    }
}

/// The pair with its smaller member first.
pub open spec fn ordered(v: u64, w: u64) -> (u64, u64) {
    if w < v {
        (w, v)
    } else {
        (v, w)
    }
}

/// Whether seed edge `index` joins `v` and `w`, in either order.
pub open spec fn joins(index: int, v: u64, w: u64) -> bool {
    0 <= index < 30 && seed_edge(index) == ordered(v, w)
}

/// Whether `v` and `w` are joined by an edge of the icosahedron.
pub open spec fn adjacent(v: u64, w: u64) -> bool {
    exists|index: int| joins(index, v, w)
}

/// No two seed edges join the same pair of vertices, and the endpoints of
/// each are two of the 12 vertices, in ascending order.
pub proof fn lemma_seed_edges_distinct(first: int, second: int)
    requires
        0 <= first < 30,
        0 <= second < 30,
    ensures
        seed_edge(first) == seed_edge(second) ==> first == second,
        seed_edge(first).0 < seed_edge(first).1 < 12,
{
}

/// The index of the seed edge that joins `v` and `w`, if there is one. The
/// order of the two vertices does not matter.
pub fn checked_great_edge_index(v: u64, w: u64) -> (found: Option<u64>)
    ensures
        match found {
            Some(index) => joins(index as int, v, w),
            None => !adjacent(v, w),
        },
{
    let (lo, hi) = if w < v {
        (w, v)
    } else {
        (v, w)
    };
    let found: Option<u64> = match lo {
        0 => match hi {
            1 => Some(0),
            5 => Some(1),
            7 => Some(2),
            10 => Some(3),
            11 => Some(4),
            _ => None,
        },
        1 => match hi {
            5 => Some(5),
            7 => Some(6),
            8 => Some(7),
            9 => Some(8),
            _ => None,
        },
        2 => match hi {
            3 => Some(9),
            4 => Some(10),
            6 => Some(11),
            10 => Some(12),
            11 => Some(13),
            _ => None,
        },
        3 => match hi {
            4 => Some(14),
            6 => Some(15),
            8 => Some(16),
            9 => Some(17),
            _ => None,
        },
        4 => match hi {
            5 => Some(18),
            9 => Some(19),
            11 => Some(20),
            _ => None,
        },
        5 => match hi {
            9 => Some(21),
            11 => Some(22),
            _ => None,
        },
        6 => match hi {
            7 => Some(23),
            8 => Some(24),
            10 => Some(25),
            _ => None,
        },
        7 => match hi {
            8 => Some(26),
            10 => Some(27),
            _ => None,
        },
        8 => match hi {
            9 => Some(28),
            _ => None,
        },
        10 => match hi {
            11 => Some(29),
            _ => None,
        },
        _ => None,
    };
    proof {
        if found is None {
            assert forall|index: int| !joins(index, v, w) by {}
        }
    }
    found
}

/// The index of the seed edge that joins `v` and `w`: one of `0..30`. The
/// order of the two vertices does not matter. The two have to be joined by
/// an edge of the icosahedron.
pub fn great_edge_index(v: u64, w: u64) -> (index: u64)
    requires
        adjacent(v, w),
    ensures
        joins(index as int, v, w),
{
    let found = checked_great_edge_index(v, w);
    match found {
        Some(index) => index,
        None => {
            proof {
                assert(false);
            }
            0
        },
    }
}

/// The endpoints of seed edge `index`, the smaller one first.
pub fn seed_edge_vertices(index: u64) -> (ends: (u64, u64))
    requires
        index < 30,
    ensures
        ends == seed_edge(index as int),
{
    let table: [(u64, u64); 30] = [
        (0, 1),
        (0, 5),
        (0, 7),
        (0, 10),
        (0, 11),
        (1, 5),
        (1, 7),
        (1, 8),
        (1, 9),
        (2, 3),
        (2, 4),
        (2, 6),
        (2, 10),
        (2, 11),
        (3, 4),
        (3, 6),
        (3, 8),
        (3, 9),
        (4, 5),
        (4, 9),
        (4, 11),
        (5, 9),
        (5, 11),
        (6, 7),
        (6, 8),
        (6, 10),
        (7, 8),
        (7, 10),
        (8, 9),
        (10, 11),
    ];
    table[index as usize]
}

/// The indices of the three seed edges of seed face `index`: the edges
/// between its corners 0 and 1, 1 and 2, 2 and 0.
pub open spec fn seed_face_edges(index: int) -> (u64, u64, u64) {
    if index == 0 {
        (4, 22, 1)
    } else if index == 1 {
        (1, 5, 0)
    } else if index == 2 {
        (3, 29, 4)
    } else if index == 3 {
        (22, 20, 18)
    } else if index == 4 {
        (0, 6, 2)
    } else if index == 5 {
        (5, 21, 8)
    } else if index == 6 {
        (2, 27, 3)
    } else if index == 7 {
        (29, 12, 13)
    } else if index == 8 {
        (10, 20, 13)
    } else if index == 9 {
        (19, 21, 18)
    } else if index == 10 {
        (6, 7, 26)
    } else if index == 11 {
        (28, 7, 8)
    } else if index == 12 {
        (27, 23, 25)
    } else if index == 13 {
        (11, 12, 25)
    } else if index == 14 {
        (14, 10, 9)
    } else if index == 15 {
        (17, 19, 14)
    } else if index == 16 {
        (24, 23, 26)
    } else if index == 17 {
        (16, 28, 17)
    } else if index == 18 {
        (9, 11, 15)
    } else {
        (15, 24, 16)
    }
}

/// The seed face, and its edge slot, that walks seed edge `index` from the
/// smaller endpoint to the larger.
pub open spec fn seed_edge_ascending(index: int) -> (int, int) {
    if index == 0 {
        (4, 0)
    } else if index == 1 {
        (1, 0)
    } else if index == 2 {
        (6, 0)
    } else if index == 3 {
        (2, 0)
    } else if index == 4 {
        (0, 0)
    } else if index == 5 {
        (5, 0)
    } else if index == 6 {
        (4, 1)
    } else if index == 7 {
        (10, 1)
    } else if index == 8 {
        (11, 2)
    } else if index == 9 {
        (14, 2)
    } else if index == 10 {
        (8, 0)
    } else if index == 11 {
        (18, 1)
    } else if index == 12 {
        (13, 1)
    } else if index == 13 {
        (7, 2)
    } else if index == 14 {
        (14, 0)
    } else if index == 15 {
        (19, 0)
    } else if index == 16 {
        (17, 0)
    } else if index == 17 {
        (15, 0)
    } else if index == 18 {
        (3, 2)
    } else if index == 19 {
        (9, 0)
    } else if index == 20 {
        (8, 1)
    } else if index == 21 {
        (5, 1)
    } else if index == 22 {
        (3, 0)
    } else if index == 23 {
        (16, 1)
    } else if index == 24 {
        (19, 1)
    } else if index == 25 {
        (12, 2)
    } else if index == 26 {
        (16, 2)
    } else if index == 27 {
        (6, 1)
    } else if index == 28 {
        (17, 1)
    } else {
        (2, 1)
    }
}

/// The seed face, and its edge slot, that walks seed edge `index` from the
/// larger endpoint to the smaller.
pub open spec fn seed_edge_descending(index: int) -> (int, int) {
    if index == 0 {
        (1, 2)
    } else if index == 1 {
        (0, 2)
    } else if index == 2 {
        (4, 2)
    } else if index == 3 {
        (6, 2)
    } else if index == 4 {
        (2, 2)
    } else if index == 5 {
        (1, 1)
    } else if index == 6 {
        (10, 0)
    } else if index == 7 {
        (11, 1)
    } else if index == 8 {
        (5, 2)
    } else if index == 9 {
        (18, 0)
    } else if index == 10 {
        (14, 1)
    } else if index == 11 {
        (13, 0)
    } else if index == 12 {
        (7, 1)
    } else if index == 13 {
        (8, 2)
    } else if index == 14 {
        (15, 2)
    } else if index == 15 {
        (18, 2)
    } else if index == 16 {
        (19, 2)
    } else if index == 17 {
        (17, 2)
    } else if index == 18 {
        (9, 2)
    } else if index == 19 {
        (15, 1)
    } else if index == 20 {
        (3, 1)
    } else if index == 21 {
        (9, 1)
    } else if index == 22 {
        (0, 1)
    } else if index == 23 {
        (12, 1)
    } else if index == 24 {
        (16, 0)
    } else if index == 25 {
        (13, 2)
    } else if index == 26 {
        (10, 2)
    } else if index == 27 {
        (12, 0)
    } else if index == 28 {
        (11, 0)
    } else {
        (7, 0)
    }
}

/// The record of seed face `index`: a face of generation 0.
pub open spec fn seed_leaf(index: int) -> Face {
    Face {
        generation: 0,
        index: index as u64,
        vertices: seed_face(index),
        edges: seed_face_edges(index),
    }
}

/// The 20 seed faces in order.
pub open spec fn seed_leaves() -> Seq<Face> {
    Seq::new(20, |index: int| seed_leaf(index))
}

/// The corners of every seed face are joined by the seed edges that
/// `seed_face_edges` names, so the face belongs to generation 0.
pub proof fn lemma_seed_face_joined(index: int)
    requires
        0 <= index < 20,
    ensures
        joins(seed_face_edges(index).0 as int, seed_face(index).0, seed_face(index).1),
        joins(seed_face_edges(index).1 as int, seed_face(index).1, seed_face(index).2),
        joins(seed_face_edges(index).2 as int, seed_face(index).2, seed_face(index).0),
        adjacent(seed_face(index).0, seed_face(index).1),
        adjacent(seed_face(index).1, seed_face(index).2),
        adjacent(seed_face(index).2, seed_face(index).0),
        seed_leaf(index).wf(),
{
    reveal_with_fuel(spec_vertex_count, 2);
    reveal_with_fuel(spec_edge_count, 2);
    lemma_face_count_step(0);
    let face = seed_leaf(index);
    assert forall|k: int| 0 <= k < 3 implies #[trigger] face.vertex(k) < spec_vertex_count(0) by {}
    assert forall|k: int| 0 <= k < 3 implies #[trigger] face.edge_index(k) < spec_edge_count(
        0,
    ) by {}
}

/// Every seed edge lies between two seed faces, which walk it in opposite
/// directions.
pub proof fn lemma_seed_edge_sides(index: int)
    requires
        0 <= index < 30,
    ensures
        ({
            let (face, slot) = seed_edge_ascending(index);
            &&& 0 <= face < 20
            &&& 0 <= slot < 3
            &&& seed_leaf(face).edge(slot) == (Edge {
                generation: 0,
                index: index as u64,
                vertices: seed_edge(index),
            })
        }),
        ({
            let (face, slot) = seed_edge_descending(index);
            &&& 0 <= face < 20
            &&& 0 <= slot < 3
            &&& seed_leaf(face).edge(slot) == (Edge {
                generation: 0,
                index: index as u64,
                vertices: seed_edge(index),
            }).reversed()
        }),
{
}

/// Every edge slot of every seed face is one of the two sides of its
/// edge.
pub proof fn lemma_seed_slot_side(face: int, slot: int)
    requires
        0 <= face < 20,
        0 <= slot < 3,
    ensures
        0 <= seed_leaf(face).edge_index(slot) < 30,
        seed_edge_ascending(seed_leaf(face).edge_index(slot) as int) == (face, slot)
            || seed_edge_descending(seed_leaf(face).edge_index(slot) as int) == (face, slot),
{
}

/// Two seed faces that share an edge walk it in opposite directions: the
/// edge of the one is the edge of the other, walked the other way.
pub proof fn lemma_seed_faces_opposite(
    first: int,
    first_slot: int,
    second: int,
    second_slot: int,
)
    requires
        0 <= first < 20,
        0 <= first_slot < 3,
        0 <= second < 20,
        0 <= second_slot < 3,
        (first, first_slot) != (second, second_slot),
        seed_leaf(first).edge_index(first_slot) == seed_leaf(second).edge_index(second_slot),
    ensures
        first != second,
        seed_leaf(first).edge(first_slot) == seed_leaf(second).edge(second_slot).reversed(),
        seed_leaf(first).edge(first_slot).vertices.0 != seed_leaf(first).edge(
            first_slot,
        ).vertices.1,
{
    let edge = seed_leaf(first).edge_index(first_slot) as int;
    lemma_seed_slot_side(first, first_slot);
    lemma_seed_slot_side(second, second_slot);
    lemma_seed_edge_sides(edge);
    lemma_seed_edges_distinct(edge, edge);
}

/// The corners of seed face `index` in winding order.
pub fn seed_face_vertices(index: u64) -> (corners: [u64; 3])
    requires
        index < 20,
    ensures
        (corners[0], corners[1], corners[2]) == seed_face(index as int),
{
    let table: [[u64; 3]; 20] = [
        [0, 11, 5],
        [0, 5, 1],
        [0, 10, 11],
        [5, 11, 4],
        [0, 1, 7],
        [1, 5, 9],
        [0, 7, 10],
        [11, 10, 2],
        [2, 4, 11],
        [4, 9, 5],
        [7, 1, 8],
        [9, 8, 1],
        [10, 7, 6],
        [6, 2, 10],
        [3, 4, 2],
        [3, 9, 4],
        [8, 6, 7],
        [3, 8, 9],
        [3, 2, 6],
        [3, 6, 8],
    ];
    table[index as usize]
}

} // verus!
