//! Vertex identifiers made by recursive bisection, and a pairing function
//! to fold two of them into one number.
//!
//! An identifier in RBPI space is a bit pattern; the midpoint of two
//! identifiers is the one that sorts first with one more bit set above
//! both. The normalized space shifts every identifier by one, so that 0 is
//! free to stand for the far end.

use integer_sqrt::IntegerSquareRoot;
use vstd::arithmetic::div_mod::lemma_div_basics;
use vstd::arithmetic::div_mod::lemma_div_is_ordered;
use vstd::arithmetic::div_mod::lemma_fundamental_div_mod_converse;
use vstd::arithmetic::div_mod::lemma_small_mod;
use vstd::arithmetic::power2::lemma2_to64;
use vstd::arithmetic::power2::lemma2_to64_rest;
use vstd::arithmetic::power2::lemma_pow2_adds;
use vstd::arithmetic::power2::lemma_pow2_pos;
use vstd::arithmetic::power2::lemma_pow2_strictly_increases;
use vstd::arithmetic::power2::pow2;
use vstd::bits::lemma_u32_low_bits_mask_is_mod;
use vstd::bits::lemma_u32_pow2_no_overflow;
use vstd::bits::lemma_u32_shl_is_mul;
use vstd::bits::lemma_u32_shr_is_div;
use vstd::bits::low_bits_mask;
use vstd::prelude::*;
use vstd::std_specs::bits::axiom_u32_leading_zeros;
use vstd::std_specs::bits::u32_leading_zeros;

verus! {

/// `x` without its `zeros` highest bits, for `zeros` in `0..32`.
pub open spec fn low_bits(x: u32, zeros: u32) -> u32 {
    x & (u32::MAX >> zeros)
}

/// The larger of the numbers of leading zeros of `a` and `b`: what is
/// left below it is the part that both have bits for.
pub open spec fn common_zeros(a: u32, b: u32) -> u32 {
    if u32_leading_zeros(a) >= u32_leading_zeros(b) {
        u32_leading_zeros(a)
    } else {
        u32_leading_zeros(b)
    }
}

/// Whether `a` comes before `b` in RBPI order: zero comes first; two
/// other identifiers go by their common low bits, and by their value
/// where these are equal.
pub open spec fn rbpi_before(a: u32, b: u32) -> bool {
    if a == 0 || b == 0 {
        a == 0
    } else {
        let ma = low_bits(a, common_zeros(a, b));
        let mb = low_bits(b, common_zeros(a, b));
        if ma == mb {
            a < b
        } else {
            ma < mb
        }
    }
}

/// The two identifiers in RBPI order.
pub open spec fn spec_rbpi_ordered(a: u32, b: u32) -> (u32, u32) {
    if rbpi_before(a, b) {
        (a, b)
    } else {
        (b, a)
    }
}

/// The two normalized identifiers in order: 0 goes last; two others go by
/// the RBPI order of what they stand for.
pub open spec fn spec_nrbpi_ordered(a: u32, b: u32) -> (u32, u32) {
    if a == 0 {
        (b, 0)
    } else if b == 0 {
        (a, 0)
    } else if rbpi_before((a - 1) as u32, (b - 1) as u32) {
        (a, b)
    } else {
        (b, a)
    }
}

/// The number of bits up to the highest one set.
pub open spec fn bit_length(x: u32) -> u32 {
    (32 - u32_leading_zeros(x)) as u32
}

/// The bit at which the midpoint of two different normalized identifiers
/// is set: just above the first of them in order if the other is 0,
/// just above both if not.
pub open spec fn mean_depth(a: u32, b: u32) -> u32 {
    let (first, second) = spec_nrbpi_ordered(a, b);
    if second == 0 {
        bit_length((first - 1) as u32)
    } else if bit_length((first - 1) as u32) >= bit_length((second - 1) as u32) {
        bit_length((first - 1) as u32)
    } else {
        bit_length((second - 1) as u32)
    }
}

/// The midpoint of two normalized identifiers, as a number that may be
/// too large for 32 bits: an identifier is its own midpoint; for two
/// different ones it is the first of them in order with the bit at
/// `mean_depth` set.
pub open spec fn spec_nrbpi_mean(a: u32, b: u32) -> int {
    if a == b {
        a as int
    } else {
        let first = (spec_nrbpi_ordered(a, b).0 - 1) as u32;
        (first | (1u32 << mean_depth(a, b))) + 1
    }
}

/// Whether the midpoint of two normalized identifiers can be computed in
/// 32 bits.
pub open spec fn nrbpi_mean_fits(a: u32, b: u32) -> bool {
    a == b || (mean_depth(a, b) < 32 && spec_nrbpi_mean(a, b) <= u32::MAX)
}

/// The order of two identifiers does not depend on the order in which
/// they are given, in RBPI space or in normalized space, and neither does
/// their midpoint.
pub proof fn lemma_order_symmetric(a: u32, b: u32)
    ensures
        spec_rbpi_ordered(a, b) == spec_rbpi_ordered(b, a),
        spec_nrbpi_ordered(a, b) == spec_nrbpi_ordered(b, a),
        mean_depth(a, b) == mean_depth(b, a),
        spec_nrbpi_mean(a, b) == spec_nrbpi_mean(b, a),
        nrbpi_mean_fits(a, b) == nrbpi_mean_fits(b, a),
{
}

/// The low bits in numbers: `x` without its `zeros` highest bits is the
/// remainder of `x` modulo `2^(32 - zeros)`.
pub proof fn lemma_low_bits_is_remainder(x: u32, zeros: u32)
    requires
        zeros < 32,
    ensures
        low_bits(x, zeros) == x as nat % pow2((32 - zeros) as nat),
{
    lemma2_to64();
    lemma2_to64_rest();
    if zeros == 0 {
        assert(x & (0xffff_ffffu32 >> 0u32) == x) by (bit_vector);
        lemma_small_mod(x as nat, pow2(32));
    } else {
        let n = (32 - zeros) as nat;
        let high = pow2(zeros as nat) as int;
        let low = pow2(n) as int;
        lemma_pow2_adds(zeros as nat, n);
        lemma_pow2_pos(zeros as nat);
        lemma_pow2_pos(n);
        lemma_u32_shr_is_div(u32::MAX, zeros);
        assert(high * (low - 1) + (high - 1) == 0xffff_ffff) by (nonlinear_arith)
            requires
                high * low == 0x1_0000_0000,
        ;
        lemma_fundamental_div_mod_converse(0xffff_ffff, high, low - 1, high - 1);
        assert((u32::MAX >> zeros) == low_bits_mask(n));
        lemma_u32_pow2_no_overflow(n);
        lemma_u32_low_bits_mask_is_mod(x, n);
    }
}

/// The RBPI order in numbers: of two identifiers other than zero, the one
/// with the smaller remainder modulo `2^bits` comes first, `bits` being
/// the bit length of the shorter of the two; where the remainders are
/// equal, the smaller identifier comes first.
pub proof fn lemma_rbpi_before_compares_remainders(a: u32, b: u32)
    requires
        a != 0,
        b != 0,
    ensures
        common_zeros(a, b) < 32,
        rbpi_before(a, b) == ({
            let bits = (32 - common_zeros(a, b)) as nat;
            let first = a as nat % pow2(bits);
            let second = b as nat % pow2(bits);
            first < second || (first == second && a < b)
        }),
{
    axiom_u32_leading_zeros(a);
    axiom_u32_leading_zeros(b);
    lemma_low_bits_is_remainder(a, common_zeros(a, b));
    lemma_low_bits_is_remainder(b, common_zeros(a, b));
}

/// Setting a bit in numbers: where `n` is less than `2^depth`, setting
/// the bit at `depth` adds `2^depth`.
pub proof fn lemma_set_bit_adds(n: u32, depth: u32)
    requires
        depth < 32,
        n < pow2(depth as nat),
    ensures
        (n | (1u32 << depth)) == n + pow2(depth as nat),
{
    lemma_u32_pow2_no_overflow(depth as nat);
    lemma_u32_shl_is_mul(1, depth);
    let bit = 1u32 << depth;
    assert(n < bit ==> (n | bit) == n + bit) by (bit_vector)
        requires
            depth < 32,
            bit == 1u32 << depth,
    ;
}

/// A number is less than two to the power of its bit length.
pub proof fn lemma_below_bit_length(x: u32)
    ensures
        bit_length(x) <= 32,
        bit_length(x) < 32 ==> x < pow2(bit_length(x) as nat),
{
    axiom_u32_leading_zeros(x);
    let length = bit_length(x);
    if length < 32 {
        lemma_u32_shr_is_div(x, length);
        lemma_pow2_pos(length as nat);
        assert(x >> length == 0);
        if x as nat >= pow2(length as nat) {
            lemma_div_is_ordered(pow2(length as nat) as int, x as int, pow2(length as nat) as int);
            lemma_div_basics(pow2(length as nat) as int);
        }
    }
}

/// The midpoint in numbers: the midpoint of two different normalized
/// identifiers, where it fits in 32 bits, is the first of them in order
/// plus `2^mean_depth`.
pub proof fn lemma_mean_is_sum(a: u32, b: u32)
    requires
        a != b,
        nrbpi_mean_fits(a, b),
    ensures
        spec_nrbpi_mean(a, b) == spec_nrbpi_ordered(a, b).0 + pow2(mean_depth(a, b) as nat),
{
    let (first, second) = spec_nrbpi_ordered(a, b);
    let plain = (first - 1) as u32;
    let depth = mean_depth(a, b);
    lemma_below_bit_length(plain);
    if bit_length(plain) < depth {
        lemma_pow2_strictly_increases(bit_length(plain) as nat, depth as nat);
    }
    lemma_set_bit_adds(plain, depth);
}

/// Szudzik's pairing of two natural numbers, as a number that may be too
/// large for 32 bits.
pub open spec fn spec_elegant_pair(x: int, y: int) -> int {
    if x >= y {
        x * x + x + y
    } else {
        y * y + x
    }
}

/// Whether `root` is the integer square root of `z`: the largest number
/// whose square is at most `z`.
pub open spec fn is_integer_sqrt(root: int, z: int) -> bool {
    0 <= root && root * root <= z < (root + 1) * (root + 1)
}

/// The integer square root of `z`.
pub open spec fn spec_integer_sqrt(z: int) -> int {
    choose|root: int| is_integer_sqrt(root, z)
}

/// The pair that Szudzik's pairing maps to `z`.
pub open spec fn spec_elegant_unpair(z: int) -> (int, int) {
    let sz = spec_integer_sqrt(z);
    let rest = z - sz * sz;
    if rest < sz {
        (rest, sz)
    } else {
        (sz, rest - sz)
    }
}

/// A number has one integer square root.
pub proof fn lemma_integer_sqrt_unique(first: int, second: int, z: int)
    requires
        is_integer_sqrt(first, z),
        is_integer_sqrt(second, z),
    ensures
        first == second,
{
    if first < second {
        assert((first + 1) * (first + 1) <= second * second) by (nonlinear_arith)
            requires
                0 <= first,
                first + 1 <= second,
        ;
    } else if second < first {
        assert((second + 1) * (second + 1) <= first * first) by (nonlinear_arith)
            requires
                0 <= second,
                second + 1 <= first,
        ;
    }
}

/// Unpairing undoes pairing: no two pairs of natural numbers are mapped
/// to the same number.
pub proof fn lemma_unpair_pair(x: int, y: int)
    requires
        0 <= x,
        0 <= y,
    ensures
        spec_elegant_unpair(spec_elegant_pair(x, y)) == (x, y),
{
    let z = spec_elegant_pair(x, y);
    let m = if x >= y {
        x
    } else {
        y
    };
    assert(is_integer_sqrt(m, z)) by (nonlinear_arith)
        requires
            0 <= x,
            0 <= y,
            m == (if x >= y {
                x
            } else {
                y
            }),
            z == (if x >= y {
                x * x + x + y
            } else {
                y * y + x
            }),
    ;
    lemma_integer_sqrt_unique(m, spec_integer_sqrt(z), z);
}

/// Pairing undoes unpairing: every natural number is the image of a pair
/// of natural numbers.
pub proof fn lemma_pair_unpair(z: int, root: int)
    requires
        is_integer_sqrt(root, z),
    ensures
        spec_integer_sqrt(z) == root,
        spec_elegant_unpair(z).0 >= 0,
        spec_elegant_unpair(z).1 >= 0,
        spec_elegant_unpair(z).0 <= root,
        spec_elegant_unpair(z).1 <= root,
        spec_elegant_pair(spec_elegant_unpair(z).0, spec_elegant_unpair(z).1) == z,
{
    lemma_integer_sqrt_unique(root, spec_integer_sqrt(z), z);
    assert((root + 1) * (root + 1) == root * root + 2 * root + 1) by (nonlinear_arith);
}

/// The two identifiers in RBPI order.
#[inline]
pub fn rbpi_ordered(a: u32, b: u32) -> (pair: (u32, u32))
    ensures
        pair == spec_rbpi_ordered(a, b),
        pair == (a, b) || pair == (b, a),
{
    if a == 0 || b == 0 {
        assert(a | b == (if a == 0 {
            b
        } else {
            a
        })) by (bit_vector)
            requires
                a == 0 || b == 0,
        ;
        (0, a | b)
    } else {
        proof {
            axiom_u32_leading_zeros(a);
            axiom_u32_leading_zeros(b);
        }
        let za = u32::leading_zeros(a);
        let zb = u32::leading_zeros(b);
        let zeros = if za >= zb {
            za
        } else {
            zb
        };
        let mask = u32::MAX >> zeros;
        let ma = a & mask;
        let mb = b & mask;

        if ma == mb {
            if a < b {
                (a, b)
            } else {
                (b, a)
            }
        } else {
            if ma < mb {
                (a, b)
            } else {
                (b, a)
            }
        }
    }
}

/// The two normalized identifiers in order.
#[inline]
pub fn nrbpi_ordered(a: u32, b: u32) -> (pair: (u32, u32))
    ensures
        pair == spec_nrbpi_ordered(a, b),
        pair == (a, b) || pair == (b, a),
{
    if a == 0 {
        (b, 0)
    } else if b == 0 {
        (a, 0)
    } else {
        let (a, b) = rbpi_ordered(nrbpi_to_rbpi(a), nrbpi_to_rbpi(b));
        (rbpi_to_nrbpi(a), rbpi_to_nrbpi(b))
    }
}

/// The first of the two identifiers in RBPI order.
#[inline]
pub fn rbpi_min(a: u32, b: u32) -> (first: u32)
    ensures
        first == spec_rbpi_ordered(a, b).0,
        first == a || first == b,
{
    rbpi_ordered(a, b).0
}

/// The identifier with the bit at `depth` set.
#[inline]
pub fn rbpi_next(n: u32, depth: u32) -> (next: u32)
    requires
        depth < 32,
    ensures
        next == n | (1u32 << depth),
{
    n | (1 << depth)
}

/// From RBPI space to normalized RBPI space.
#[inline]
pub fn rbpi_to_nrbpi(a: u32) -> (normalized: u32)
    requires
        a < u32::MAX,
    ensures
        normalized == a + 1,
{
    a + 1
}

/// From normalized RBPI space to RBPI space.
#[inline]
pub fn nrbpi_to_rbpi(a: u32) -> (plain: u32)
    requires
        a > 0,
    ensures
        plain == a - 1,
{
    a - 1
}

/// The midpoint of two normalized identifiers.
#[inline]
pub fn nrbpi_mean(a: u32, b: u32) -> (mean: u32)
    requires
        nrbpi_mean_fits(a, b),
    ensures
        mean == spec_nrbpi_mean(a, b),
{
    if a == b {
        a
    } else {
        let (a, b) = nrbpi_ordered(a, b);
        if b == 0 {
            let a = nrbpi_to_rbpi(a);

            proof {
                axiom_u32_leading_zeros(a);
            }
            let depth = 32 - u32::leading_zeros(a);
            rbpi_to_nrbpi(rbpi_next(a, depth))
        } else {
            let a = nrbpi_to_rbpi(a);
            let b = nrbpi_to_rbpi(b);

            proof {
                axiom_u32_leading_zeros(a);
                axiom_u32_leading_zeros(b);
            }
            let za = u32::leading_zeros(a);
            let zb = u32::leading_zeros(b);
            let depth = 32 - (if za <= zb {
                za
            } else {
                zb
            });
            rbpi_to_nrbpi(rbpi_next(a, depth))
        }
    }
}

/// Implementation of Matthew Szudzik's "elegant" pairing function.
#[inline]
pub fn elegant_pair(x: u32, y: u32) -> (z: u32)
    requires
        spec_elegant_pair(x as int, y as int) <= u32::MAX,
    ensures
        z == spec_elegant_pair(x as int, y as int),
{
    if x >= y {
        assert(x * x <= spec_elegant_pair(x as int, y as int)) by (nonlinear_arith)
            requires
                x >= y,
        ;
        x * x + x + y
    } else {
        assert(y * y <= spec_elegant_pair(x as int, y as int)) by (nonlinear_arith)
            requires
                x < y,
        ;
        y * y + x
    }
}

/// The integer square root of `z`, by `IntegerSquareRoot::integer_sqrt` of
/// the `integer-sqrt` crate. The contract is taken on trust from that
/// crate and not proved here: its documentation promises the integer
/// square root, the largest number whose square is at most `z`, and for
/// an unsigned argument the call does not panic.
#[verifier::external_body]
fn integer_sqrt_u32(z: u32) -> (root: u32)
    ensures
        is_integer_sqrt(root as int, z as int),
{
    z.integer_sqrt()
}

/// Implementation of Matthew Szudzik's "elegant" unpairing function.
#[inline]
pub fn elegant_unpair(z: u32) -> (pair: (u32, u32))
    ensures
        (pair.0 as int, pair.1 as int) == spec_elegant_unpair(z as int),
        spec_elegant_pair(pair.0 as int, pair.1 as int) == z,
{
    let sz = integer_sqrt_u32(z);
    proof {
        lemma_pair_unpair(z as int, sz as int);
    }
    let sz2 = sz * sz;
    let zmsz2 = z - sz2;

    if zmsz2 < sz {
        (zmsz2, sz)
    } else {
        (sz, zmsz2 - sz)
    }
}

/// The two coordinates of the midpoint of two paired identifiers, before
/// they are paired again.
pub open spec fn nrbpi2_mean_parts(a: u32, b: u32) -> (int, int) {
    let first = spec_elegant_unpair(a as int);
    let second = spec_elegant_unpair(b as int);
    (
        spec_nrbpi_mean(first.0 as u32, second.0 as u32),
        spec_nrbpi_mean(first.1 as u32, second.1 as u32),
    )
}

/// Whether the midpoint of two paired identifiers can be computed in 32
/// bits.
pub open spec fn nrbpi2_mean_fits(a: u32, b: u32) -> bool {
    let first = spec_elegant_unpair(a as int);
    let second = spec_elegant_unpair(b as int);
    let parts = nrbpi2_mean_parts(a, b);
    &&& nrbpi_mean_fits(first.0 as u32, second.0 as u32)
    &&& nrbpi_mean_fits(first.1 as u32, second.1 as u32)
    &&& spec_elegant_pair(parts.0, parts.1) <= u32::MAX
}

/// The midpoint of two identifiers that each pair two normalized
/// identifiers: the pair of the midpoints of the two coordinates.
#[inline]
pub fn nrbpi2_mean(a: u32, b: u32) -> (mean: u32)
    requires
        nrbpi2_mean_fits(a, b),
    ensures
        mean == spec_elegant_pair(nrbpi2_mean_parts(a, b).0, nrbpi2_mean_parts(a, b).1),
{
    let (ax, ay) = elegant_unpair(a);
    let (bx, by) = elegant_unpair(b);

    let cx = nrbpi_mean(ax, bx);
    let cy = nrbpi_mean(ay, by);
    elegant_pair(cx, cy)
}

} // verus!
