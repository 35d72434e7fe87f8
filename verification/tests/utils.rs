use geosphere::topology::sphere::vertex_count;
use geosphere::topology::utils::elegant_pair;
use geosphere::topology::utils::elegant_unpair;
use geosphere::topology::utils::nrbpi2_mean;
use geosphere::topology::utils::nrbpi_ordered;
use geosphere::topology::utils::nrbpi_to_rbpi;
use geosphere::topology::utils::rbpi_min;
use geosphere::topology::utils::rbpi_next;
use geosphere::topology::utils::rbpi_ordered;
use geosphere::topology::utils::rbpi_to_nrbpi;

#[test]
fn rbpi_min1() {
    assert_eq!(rbpi_min(0, 4), 0);
    assert_eq!(rbpi_min(2, 4), 4);
    assert_eq!(rbpi_min(2, 6), 2);
    assert_eq!(rbpi_min(1, 6), 6);
    assert_eq!(rbpi_min(1, 5), 1);
    assert_eq!(rbpi_min(3, 5), 5);
    assert_eq!(rbpi_min(3, 7), 3);
}

#[test]
fn nrbpi_mean() {
    assert_eq!(geosphere::topology::utils::nrbpi_mean(1, 3), 5);
    assert_eq!(geosphere::topology::utils::nrbpi_mean(3, 2), 7);
    assert_eq!(geosphere::topology::utils::nrbpi_mean(2, 4), 6);
    assert_eq!(geosphere::topology::utils::nrbpi_mean(4, 0), 8);
}

#[test]
fn nrbpi_mean_of_equal_identifiers_is_the_identifier() {
    for a in 0..64u32 {
        assert_eq!(geosphere::topology::utils::nrbpi_mean(a, a), a);
    }
    assert_eq!(geosphere::topology::utils::nrbpi_mean(u32::MAX, u32::MAX), u32::MAX);
}

#[test]
fn nrbpi_mean_does_not_depend_on_the_order() {
    for a in 0..40u32 {
        for b in 0..40u32 {
            assert_eq!(
                geosphere::topology::utils::nrbpi_mean(a, b),
                geosphere::topology::utils::nrbpi_mean(b, a)
            );
        }
    }
}

#[test]
fn rbpi_ordered_puts_zero_first() {
    assert_eq!(rbpi_ordered(0, 9), (0, 9));
    assert_eq!(rbpi_ordered(9, 0), (0, 9));
    assert_eq!(rbpi_ordered(0, 0), (0, 0));
}

#[test]
fn rbpi_ordered_goes_by_common_low_bits() {
    // 2 = 0b10 and 4 = 0b100 share two bits: 0b10 against 0b00.
    assert_eq!(rbpi_ordered(2, 4), (4, 2));
    assert_eq!(rbpi_ordered(4, 2), (4, 2));
    // 2 = 0b10 and 6 = 0b110 share two bits, both 0b10: the value decides.
    assert_eq!(rbpi_ordered(6, 2), (2, 6));
    assert_eq!(rbpi_ordered(2, 6), (2, 6));
    // All 32 bits in use.
    assert_eq!(rbpi_ordered(u32::MAX, u32::MAX - 1), (u32::MAX - 1, u32::MAX));
    assert_eq!(rbpi_ordered(7, 7), (7, 7));
}

#[test]
fn rbpi_ordered_returns_its_arguments() {
    for a in 0..50u32 {
        for b in 0..50u32 {
            let (first, second) = rbpi_ordered(a, b);
            assert!((first, second) == (a, b) || (first, second) == (b, a));
            assert_eq!(rbpi_min(a, b), first);
        }
    }
}

#[test]
fn nrbpi_ordered_puts_zero_last() {
    assert_eq!(nrbpi_ordered(0, 5), (5, 0));
    assert_eq!(nrbpi_ordered(5, 0), (5, 0));
    assert_eq!(nrbpi_ordered(0, 0), (0, 0));
}

#[test]
fn nrbpi_ordered_is_rbpi_order_shifted_by_one() {
    // In RBPI space 2 and 4 are ordered (4, 2).
    assert_eq!(nrbpi_ordered(3, 5), (5, 3));
    assert_eq!(nrbpi_ordered(5, 3), (5, 3));
    // 1 stands for 0, which comes first.
    assert_eq!(nrbpi_ordered(3, 1), (1, 3));
    assert_eq!(nrbpi_ordered(u32::MAX, 1), (1, u32::MAX));
}

#[test]
fn rbpi_next_sets_one_bit() {
    assert_eq!(rbpi_next(0, 0), 1);
    assert_eq!(rbpi_next(3, 2), 7);
    assert_eq!(rbpi_next(4, 2), 4);
    assert_eq!(rbpi_next(1, 31), 0x8000_0001);
}

#[test]
fn normalizing_shifts_by_one() {
    assert_eq!(rbpi_to_nrbpi(0), 1);
    assert_eq!(rbpi_to_nrbpi(41), 42);
    assert_eq!(rbpi_to_nrbpi(u32::MAX - 1), u32::MAX);
    assert_eq!(nrbpi_to_rbpi(1), 0);
    assert_eq!(nrbpi_to_rbpi(u32::MAX), u32::MAX - 1);
    for a in 0..100u32 {
        assert_eq!(nrbpi_to_rbpi(rbpi_to_nrbpi(a)), a);
    }
}

#[test]
fn elegant_pair_values() {
    assert_eq!(elegant_pair(0, 0), 0);
    assert_eq!(elegant_pair(0, 1), 1);
    assert_eq!(elegant_pair(1, 0), 2);
    assert_eq!(elegant_pair(1, 1), 3);
    assert_eq!(elegant_pair(0, 2), 4);
    assert_eq!(elegant_pair(2, 2), 8);
    assert_eq!(elegant_pair(3, 5), 28);
    assert_eq!(elegant_pair(5, 3), 33);
    assert_eq!(elegant_pair(65535, 65535), u32::MAX);
    assert_eq!(elegant_pair(0, 65535), 65535 * 65535);
}

#[test]
fn elegant_unpair_values() {
    assert_eq!(elegant_unpair(0), (0, 0));
    assert_eq!(elegant_unpair(1), (0, 1));
    assert_eq!(elegant_unpair(2), (1, 0));
    assert_eq!(elegant_unpair(3), (1, 1));
    assert_eq!(elegant_unpair(8), (2, 2));
    assert_eq!(elegant_unpair(28), (3, 5));
    assert_eq!(elegant_unpair(33), (5, 3));
    assert_eq!(elegant_unpair(u32::MAX), (65535, 65535));
    assert_eq!(elegant_unpair(u32::MAX - 1), (65535, 65534));
}

#[test]
fn elegant_unpair_undoes_elegant_pair() {
    for x in 0..60u32 {
        for y in 0..60u32 {
            assert_eq!(elegant_unpair(elegant_pair(x, y)), (x, y));
        }
    }
    for z in 0..5000u32 {
        let (x, y) = elegant_unpair(z);
        assert_eq!(elegant_pair(x, y), z);
    }
}

#[test]
fn nrbpi2_mean_pairs_the_means_of_the_coordinates() {
    // 1 is the pair (0, 1) and 2 the pair (1, 0): both coordinates have the
    // midpoint 2, and (2, 2) is paired to 8.
    assert_eq!(nrbpi2_mean(1, 2), 8);
    assert_eq!(nrbpi2_mean(2, 1), 8);
    // A number is its own midpoint.
    assert_eq!(nrbpi2_mean(28, 28), 28);
    for a in 0..30u32 {
        for b in 0..30u32 {
            let (ax, ay) = elegant_unpair(a);
            let (bx, by) = elegant_unpair(b);
            let expected = elegant_pair(
                geosphere::topology::utils::nrbpi_mean(ax, bx),
                geosphere::topology::utils::nrbpi_mean(ay, by),
            );
            assert_eq!(nrbpi2_mean(a, b), expected);
        }
    }
}

#[test]
fn triangle_vertex_count_values() {
    assert_eq!(vertex_count(0), 3);
    assert_eq!(vertex_count(1), 6);
    assert_eq!(vertex_count(2), 15);
    assert_eq!(vertex_count(3), 45);
    assert_eq!(vertex_count(8), 33153);
    for n in 0..12u32 {
        let side = (1usize << n) + 1;
        assert_eq!(vertex_count(n), side * (side + 1) / 2);
    }
}

#[test]
fn rbpi_order_does_not_depend_on_the_order_given() {
    for a in 0..70u32 {
        for b in 0..70u32 {
            assert_eq!(rbpi_ordered(a, b), rbpi_ordered(b, a));
            assert_eq!(nrbpi_ordered(a, b), nrbpi_ordered(b, a));
        }
    }
}

#[test]
fn nrbpi_mean_adds_a_power_of_two_to_the_first_in_order() {
    for a in 0..60u32 {
        for b in 0..60u32 {
            if a == b {
                continue;
            }
            let (first, second) = nrbpi_ordered(a, b);
            let length = |x: u32| 32 - x.leading_zeros();
            let depth = if second == 0 {
                length(first - 1)
            } else {
                length(first - 1).max(length(second - 1))
            };
            assert_eq!(geosphere::topology::utils::nrbpi_mean(a, b), first + (1 << depth));
        }
    }
}

#[test]
fn rbpi_order_compares_remainders() {
    for a in 1..60u32 {
        for b in 1..60u32 {
            let bits = (32 - a.leading_zeros()).min(32 - b.leading_zeros());
            let (ra, rb) = (a % (1 << bits), b % (1 << bits));
            let expected = if ra < rb || (ra == rb && a <= b) { (a, b) } else { (b, a) };
            assert_eq!(rbpi_ordered(a, b), expected);
        }
    }
}
