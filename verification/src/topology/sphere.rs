//! Counting the vertices of a triangle that is split again and again.
//!
//! A triangle split `n` times has `2^n + 1` vertices along each side, and
//! as many rows of vertices: the vertices form a triangular number.

use vstd::arithmetic::power2::lemma_pow2_pos;
use vstd::arithmetic::power2::lemma_pow2_unfold;
use vstd::arithmetic::power2::pow2;
use vstd::prelude::*;

verus! {

/// The deepest precision to which a triangle is split.
pub const MAX_PRECISION: u32 = 8;

/// The number of vertices at precision n, V(n), is given by:
/// V(0) = 3
/// V(n+1) = 4*V(n) - 3*(1 + 2^n)
pub open spec fn spec_vertex_count(n: nat) -> int
    decreases n,
{
    if n == 0 {
        3
    } else {
        4 * spec_vertex_count((n - 1) as nat) - 3 * (1 + pow2((n - 1) as nat))
    }
}

/// Closed form of the vertex count: the triangular number of `2^n + 1`,
/// that is `(2^n + 1) * (2^n + 2) / 2`.
pub proof fn lemma_vertex_count_closed_form(n: nat)
    ensures
        2 * spec_vertex_count(n) == (pow2(n) + 1) * (pow2(n) + 2),
        spec_vertex_count(n) >= 3,
    decreases n,
{
    if n == 0 {
        assert(pow2(0) == 1) by {
            vstd::arithmetic::power2::lemma2_to64();
        }
    } else {
        let m = (n - 1) as nat;
        lemma_vertex_count_closed_form(m);
        lemma_pow2_unfold(n);
        lemma_pow2_pos(m);
        let p = pow2(m) as int;
        assert(pow2(n) == 2 * p);
        assert(2 * spec_vertex_count(n) == 4 * ((p + 1) * (p + 2)) - 6 * (1 + p));
        assert(4 * ((p + 1) * (p + 2)) - 6 * (1 + p) == (2 * p + 1) * (2 * p + 2))
            by (nonlinear_arith);
        assert((2 * p + 1) * (2 * p + 2) >= 6) by (nonlinear_arith)
            requires
                p >= 1,
        ;
    }
}

/// The vertex count grows with the precision.
pub proof fn lemma_vertex_count_increases(n: nat)
    ensures
        spec_vertex_count(n) <= spec_vertex_count(n + 1),
        1 + pow2(n) <= spec_vertex_count(n),
{
    lemma_vertex_count_closed_form(n);
    lemma_pow2_pos(n);
    let p = pow2(n) as int;
    assert(2 * (1 + p) <= (p + 1) * (p + 2)) by (nonlinear_arith)
        requires
            p >= 1,
    ;
}

/// `2^exponent`, where it can be counted on this machine.
fn power_of_two(exponent: u32) -> (power: usize)
    requires
        pow2(exponent as nat) <= usize::MAX,
    ensures
        power == pow2(exponent as nat),
{
    let mut power: usize = 1;
    let mut i: u32 = 0;
    proof {
        vstd::arithmetic::power2::lemma2_to64();
    }
    while i < exponent
        invariant
            i <= exponent,
            power == pow2(i as nat),
            pow2(exponent as nat) <= usize::MAX,
        decreases exponent - i,
    {
        proof {
            lemma_pow2_unfold((i + 1) as nat);
            if i + 1 < exponent {
                vstd::arithmetic::power2::lemma_pow2_strictly_increases(
                    (i + 1) as nat,
                    exponent as nat,
                );
            }
        }
        power = power * 2;
        i = i + 1;
    }
    power
}

/// The number of vertices of a triangle at precision `n`. Four times the
/// count of the precision before has to be countable on this machine.
pub fn vertex_count(n: u32) -> (count: usize)
    requires
        n > 0 ==> 4 * spec_vertex_count((n - 1) as nat) <= usize::MAX,
    ensures
        count == spec_vertex_count(n as nat),
    decreases n,
{
    if n == 0 {
        3
    } else {
        proof {
            let m = (n - 1) as nat;
            lemma_vertex_count_increases(m);
            if m > 0 {
                lemma_vertex_count_increases((m - 1) as nat);
            }
            lemma_vertex_count_closed_form(m);
        }
        4 * vertex_count(n - 1) - 3 * (1 + power_of_two(n - 1))
    }
}

} // verus!
