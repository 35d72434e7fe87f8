use geosphere::planet::count::edge_count;
use geosphere::planet::count::face_count;
use geosphere::planet::count::vertex_count;
use geosphere::planet::count::MAX_GENERATION;
use geosphere::planet::Edge;

#[test]
fn face_count_is_twenty_times_a_power_of_four() {
    for g in 0..=10u32 {
        assert_eq!(face_count(g), 20 * 4u64.pow(g));
    }
}

#[test]
fn counts_of_the_first_generations() {
    assert_eq!(face_count(0), 20);
    assert_eq!(edge_count(0), 30);
    assert_eq!(vertex_count(0), 12);
    assert_eq!(face_count(1), 80);
    assert_eq!(edge_count(1), 120);
    assert_eq!(vertex_count(1), 42);
    assert_eq!(face_count(2), 320);
    assert_eq!(edge_count(2), 480);
    assert_eq!(vertex_count(2), 162);
    assert_eq!(vertex_count(3), 642);
}

#[test]
fn counts_follow_their_recurrences() {
    for g in 0..MAX_GENERATION {
        assert_eq!(face_count(g + 1), 4 * face_count(g));
        assert_eq!(edge_count(g + 1), edge_count(g) * 2 + face_count(g) * 3);
        assert_eq!(vertex_count(g + 1), vertex_count(g) + edge_count(g));
    }
}

#[test]
fn counts_satisfy_the_formula_of_euler() {
    for g in 0..=MAX_GENERATION {
        assert_eq!(vertex_count(g) + face_count(g), edge_count(g) + 2);
    }
}

#[test]
fn counts_of_the_last_generation() {
    assert_eq!(MAX_GENERATION, 29);
    assert_eq!(face_count(29), 20 << 58);
    assert_eq!(edge_count(29), 30 << 58);
    assert_eq!(vertex_count(29), (10 << 58) + 2);
    // One generation more would not fit in 64 bits.
    assert!(edge_count(29).checked_mul(4).is_none());
}

#[test]
fn edge_count_by_the_name_of_the_edge() {
    for g in 0..=MAX_GENERATION {
        assert_eq!(Edge::count(g), edge_count(g));
    }
}

#[test]
fn generation_population_is_the_edge_count_of_the_generation() {
    assert_eq!(Edge::new(0, 7, (1, 8)).generation_population(), 30);
    assert_eq!(Edge::new(1, 7, (1, 8)).generation_population(), 120);
    assert_eq!(Edge::new(3, 0, (1, 8)).generation_population(), 1920);
}
