//! How many faces, edges and vertices the sphere has at each generation.
//!
//! These counts are the addressing scheme of the mesh: the midpoint of edge
//! `i` of generation `g` is vertex `vertex_count(g) + i`, and the inner edges
//! of face `j` are numbered from `2 * edge_count(g) + 3 * j`.

use vstd::arithmetic::power::lemma_pow_increases;
use vstd::arithmetic::power::lemma_pow_multiplies;
use vstd::arithmetic::power::pow;
use vstd::arithmetic::power2::lemma2_to64_rest;
use vstd::arithmetic::power2::lemma_pow2;
use vstd::prelude::*;

verus! {

/// The last generation whose counts fit in 64 bits: `30 * 4^29 < 2^64`,
/// while `30 * 4^30` does not fit.
pub const MAX_GENERATION: u32 = 29;

/// Faces of generation `g`: every split turns one face into four.
pub open spec fn spec_face_count(generation: nat) -> nat {
    (20 * pow(4, generation)) as nat
}

/// Edges of generation `g`: every edge is halved, and every face gains
/// three inner edges.
pub open spec fn spec_edge_count(generation: nat) -> nat
    decreases generation,
{
    if generation == 0 {
        30
    } else {
        2 * spec_edge_count((generation - 1) as nat) + 3 * spec_face_count(
            (generation - 1) as nat,
        )
    }
}

/// Vertices of generation `g`: every edge of the generation before
/// contributes its midpoint.
pub open spec fn spec_vertex_count(generation: nat) -> nat
    decreases generation,
{
    if generation == 0 {
        12
    } else {
        spec_vertex_count((generation - 1) as nat) + spec_edge_count((generation - 1) as nat)
    }
}

/// `4^(g+1) = 4 * 4^g`, and `4^g` is positive.
pub proof fn lemma_pow4_step(generation: nat)
    ensures
        pow(4, generation + 1) == 4 * pow(4, generation),
        pow(4, generation) >= 1,
        pow(4, 0) == 1,
    decreases generation,
{
    reveal(pow);
    if generation > 0 {
        lemma_pow4_step((generation - 1) as nat);
    }
}

/// The face count starts at 20 and quadruples with each generation.
pub proof fn lemma_face_count_step(generation: nat)
    ensures
        spec_face_count(0) == 20,
        spec_face_count(generation + 1) == 4 * spec_face_count(generation),
        spec_face_count(generation) >= 20,
{
    lemma_pow4_step(generation);
    lemma_pow4_step(0);
}

/// Closed form of the edge count: `30 * 4^g`.
pub proof fn lemma_edge_count_closed_form(generation: nat)
    ensures
        spec_edge_count(generation) == 30 * pow(4, generation),
    decreases generation,
{
    if generation == 0 {
        lemma_pow4_step(0);
    } else {
        lemma_edge_count_closed_form((generation - 1) as nat);
        lemma_pow4_step((generation - 1) as nat);
    }
}

/// Closed form of the vertex count: `10 * 4^g + 2`.
pub proof fn lemma_vertex_count_closed_form(generation: nat)
    ensures
        spec_vertex_count(generation) == 10 * pow(4, generation) + 2,
    decreases generation,
{
    if generation == 0 {
        lemma_pow4_step(0);
    } else {
        lemma_vertex_count_closed_form((generation - 1) as nat);
        lemma_edge_count_closed_form((generation - 1) as nat);
        lemma_pow4_step((generation - 1) as nat);
    }
}

/// Euler's formula for the sphere holds at every generation:
/// `V - E + F = 2`.
pub proof fn lemma_euler_characteristic(generation: nat)
    ensures
        spec_vertex_count(generation) + spec_face_count(generation) == spec_edge_count(generation)
            + 2,
{
    lemma_vertex_count_closed_form(generation);
    lemma_edge_count_closed_form(generation);
}

/// All three counts grow with the generation.
pub proof fn lemma_counts_increase(earlier: nat, later: nat)
    requires
        earlier <= later,
    ensures
        spec_face_count(earlier) <= spec_face_count(later),
        spec_edge_count(earlier) <= spec_edge_count(later),
        spec_vertex_count(earlier) <= spec_vertex_count(later),
{
    lemma_pow_increases(4, earlier, later);
    lemma_edge_count_closed_form(earlier);
    lemma_edge_count_closed_form(later);
    lemma_vertex_count_closed_form(earlier);
    lemma_vertex_count_closed_form(later);
}

/// Up to `MAX_GENERATION` every count fits in 64 bits, the edge count being
/// the largest of the three.
pub proof fn lemma_counts_fit(generation: nat)
    requires
        generation <= MAX_GENERATION,
    ensures
        spec_face_count(generation) <= spec_edge_count(generation),
        spec_vertex_count(generation) <= spec_edge_count(generation),
        spec_edge_count(generation) <= 30 * 0x400_0000_0000_0000,
        30 * 0x400_0000_0000_0000 <= u64::MAX,
{
    lemma_counts_increase(generation, 29);
    lemma_edge_count_closed_form(generation);
    lemma_vertex_count_closed_form(generation);
    lemma_edge_count_closed_form(29);
    lemma_pow4_step(generation);
    assert(pow(4, 29) == 0x400_0000_0000_0000) by {
        lemma_pow4_step(0);
        lemma_pow4_step(1);
        assert(pow(2, 2) == 4) by {
            reveal_with_fuel(pow, 3);
        }
        lemma_pow_multiplies(2, 2, 29);
        lemma_pow2(58);
        lemma2_to64_rest();
    }
}

/// The number of faces of a generation.
pub fn face_count(generation: u32) -> (count: u64)
    requires
        generation <= MAX_GENERATION,
    ensures
        count == spec_face_count(generation as nat),
        count == 20 * pow(4, generation as nat),
{
    let mut faces: u64 = 20;
    let mut i: u32 = 0;
    proof {
        lemma_face_count_step(0);
    }
    while i < generation
        invariant
            i <= generation <= MAX_GENERATION,
            faces == spec_face_count(i as nat),
        decreases generation - i,
    {
        proof {
            lemma_face_count_step(i as nat);
            lemma_counts_fit((i + 1) as nat);
        }
        faces = faces * 4;
        i = i + 1;
    }
    proof {
        lemma_pow4_step(generation as nat);
    }
    faces
}

/// The number of edges of a generation.
pub fn edge_count(generation: u32) -> (count: u64)
    requires
        generation <= MAX_GENERATION,
    ensures
        count == spec_edge_count(generation as nat),
{
    let mut edges: u64 = 30;
    let mut faces: u64 = 20;
    let mut i: u32 = 0;
    proof {
        lemma_face_count_step(0);
    }
    while i < generation
        invariant
            i <= generation <= MAX_GENERATION,
            faces == spec_face_count(i as nat),
            edges == spec_edge_count(i as nat),
        decreases generation - i,
    {
        proof {
            lemma_face_count_step(i as nat);
            lemma_counts_fit((i + 1) as nat);
        }
        edges = edges * 2 + faces * 3;
        faces = faces * 4;
        i = i + 1;
    }
    edges
}

/// The number of vertices of a generation.
pub fn vertex_count(generation: u32) -> (count: u64)
    requires
        generation <= MAX_GENERATION,
    ensures
        count == spec_vertex_count(generation as nat),
{
    let mut vertices: u64 = 12;
    let mut edges: u64 = 30;
    let mut faces: u64 = 20;
    let mut i: u32 = 0;
    proof {
        lemma_face_count_step(0);
    }
    while i < generation
        invariant
            i <= generation <= MAX_GENERATION,
            faces == spec_face_count(i as nat),
            edges == spec_edge_count(i as nat),
            vertices == spec_vertex_count(i as nat),
        decreases generation - i,
    {
        proof {
            lemma_face_count_step(i as nat);
            lemma_counts_fit((i + 1) as nat);
        }
        vertices = vertices + edges;
        edges = edges * 2 + faces * 3;
        faces = faces * 4;
        i = i + 1;
    }
    vertices
}

} // verus!
