use geosphere::location::Norm;
use geosphere::location::One;
use geosphere::location::Vector3d;
use geosphere::planet::checked_great_edge_index;
use geosphere::planet::count::edge_count;
use geosphere::planet::count::face_count;
use geosphere::planet::count::vertex_count;
use geosphere::planet::great_edge_index;
use geosphere::planet::seed::seed_edge_vertices;
use geosphere::planet::seed::seed_face_vertices;
use geosphere::planet::Edge;
use geosphere::planet::Planet;
use geosphere::planet::Region;
use geosphere::planet::Vertices;
use std::collections::HashMap;
use std::collections::HashSet;
use std::ops::Add;
use std::ops::Div;
use std::ops::Mul;
use std::ops::Neg;
use std::ops::Sub;

/// Single precision numbers with the arithmetic that the mesh asks for.
#[derive(Clone, Copy, Debug, PartialEq)]
struct Real(f32);

impl One for Real {
    const ONE: Real = Real(1.0);
}

impl Norm for Real {
    type Output = Real;

    fn norm(v: &[Real]) -> Real {
        let mut n = 0.0;
        for x in v.iter() {
            n += x.0 * x.0;
        }
        Real(n.sqrt())
    }
}

impl Add for Real {
    type Output = Real;

    fn add(self, other: Real) -> Real {
        Real(self.0 + other.0)
    }
}

impl Sub for Real {
    type Output = Real;

    fn sub(self, other: Real) -> Real {
        Real(self.0 - other.0)
    }
}

impl Mul for Real {
    type Output = Real;

    fn mul(self, other: Real) -> Real {
        Real(self.0 * other.0)
    }
}

impl Div for Real {
    type Output = Real;

    fn div(self, other: Real) -> Real {
        Real(self.0 / other.0)
    }
}

fn length(v: &Vector3d<Real>) -> f32 {
    (v.x.0 * v.x.0 + v.y.0 * v.y.0 + v.z.0 * v.z.0).sqrt()
}

fn bits(v: &Vector3d<Real>) -> (u32, u32, u32) {
    (v.x.0.to_bits(), v.y.0.to_bits(), v.z.0.to_bits())
}

fn point(x: f32, y: f32, z: f32) -> Vector3d<Real> {
    Vector3d::new(Real(x), Real(y), Real(z))
}

/// The seed store of a unit planet.
fn seed_store() -> Vertices<Real> {
    Vertices::from(Planet::new(Real(1.0)).positions())
}

fn seed_region(index: u64) -> Region {
    Region::from_vertices(index, seed_face_vertices(index))
}

fn record(region: &Region) -> (u32, u64, [u64; 3], [u64; 3]) {
    match region {
        Region::Child { generation, index, vertices, edges_index, .. } => {
            (*generation, *index, *vertices, *edges_index)
        }
        Region::Root(_) => panic!("the root has no record"),
    }
}

fn children(region: &Region) -> &Vec<Region> {
    match region {
        Region::Child { children: Some(children), .. } => children,
        Region::Root(children) => children,
        _ => panic!("a leaf has no children"),
    }
}

fn is_leaf(region: &Region) -> bool {
    matches!(region, Region::Child { children: None, .. })
}

#[test]
fn great_edge_index_follows_the_table() {
    let table: [(u64, u64); 30] = [
        (0, 1),
        (0, 5),
        (0, 7),
        (0, 10),
        (0, 11),
        (1, 5),
        (1, 7),
        (1, 8),
        (1, 9),
        (2, 3),
        (2, 4),
        (2, 6),
        (2, 10),
        (2, 11),
        (3, 4),
        (3, 6),
        (3, 8),
        (3, 9),
        (4, 5),
        (4, 9),
        (4, 11),
        (5, 9),
        (5, 11),
        (6, 7),
        (6, 8),
        (6, 10),
        (7, 8),
        (7, 10),
        (8, 9),
        (10, 11),
    ];
    for (index, (v, w)) in table.iter().enumerate() {
        assert_eq!(great_edge_index(*v, *w), index as u64);
        assert_eq!(great_edge_index(*w, *v), index as u64);
        assert_eq!(seed_edge_vertices(index as u64), (*v, *w));
    }
}

#[test]
fn checked_great_edge_index_knows_the_thirty_edges() {
    let mut found = 0;
    for v in 0..14u64 {
        for w in 0..14u64 {
            match checked_great_edge_index(v, w) {
                Some(index) => {
                    assert!(index < 30);
                    assert_eq!(great_edge_index(v, w), index);
                    assert_eq!(checked_great_edge_index(w, v), Some(index));
                    found += 1;
                }
                None => {}
            }
        }
    }
    // Each of the 30 edges is found in both orders.
    assert_eq!(found, 60);
    assert_eq!(checked_great_edge_index(0, 0), None);
    assert_eq!(checked_great_edge_index(0, 2), None);
    assert_eq!(checked_great_edge_index(9, 10), None);
    assert_eq!(checked_great_edge_index(10, 12), None);
    assert_eq!(checked_great_edge_index(11, 5), Some(22));
}

#[test]
fn from_vertices_looks_up_the_three_edges() {
    let region = Region::from_vertices(0, [0, 11, 5]);
    assert_eq!(record(&region), (0, 0, [0, 11, 5], [4, 22, 1]));
    assert!(is_leaf(&region));
    let region = Region::from_vertices(19, [3, 6, 8]);
    assert_eq!(record(&region), (0, 19, [3, 6, 8], [15, 24, 16]));
}

#[test]
fn new_region_takes_its_record_from_its_edges() {
    let region = Region::new(
        7,
        [Edge::new(3, 10, (1, 2)), Edge::new(3, 11, (2, 3)), Edge::new(3, 12, (3, 1))],
    );
    assert_eq!(record(&region), (3, 7, [1, 2, 3], [10, 11, 12]));
    assert!(is_leaf(&region));
}

#[test]
fn edges_of_a_face_follow_its_winding() {
    let region = Region::from_vertices(3, [5, 11, 4]);
    let first = region.edge(0);
    assert_eq!((first.generation(), first.index(), first.start(), first.end()), (0, 22, 5, 11));
    let second = region.edge(1);
    assert_eq!((second.generation(), second.index(), second.start(), second.end()), (0, 20, 11, 4));
    let third = region.edge(2);
    assert_eq!((third.generation(), third.index(), third.start(), third.end()), (0, 18, 4, 5));
}

#[test]
fn edges_of_the_root_are_the_seed_edges() {
    let root = Region::Root(Vec::new());
    let edge = root.edge(0);
    assert_eq!((edge.generation(), edge.index(), edge.start(), edge.end()), (0, 0, 0, 1));
    let edge = root.edge(29);
    assert_eq!((edge.generation(), edge.index(), edge.start(), edge.end()), (0, 29, 10, 11));
    let edge = root.edge(13);
    assert_eq!((edge.start(), edge.end()), (2, 11));
}

#[test]
fn negated_edge_swaps_its_endpoints() {
    let edge = Edge::new(2, 17, (40, 3));
    let back = -edge;
    assert_eq!((back.generation(), back.index(), back.start(), back.end()), (2, 17, 3, 40));
    let again = -back;
    assert_eq!((again.start(), again.end()), (40, 3));
}

#[test]
fn vertices_distinguish_written_from_unwritten() {
    let mut store: Vertices<Real> = Vertices::new();
    assert_eq!(store.len(), 0);
    assert!(store.get(0).is_none());
    store.set(3, point(0.0, 0.0, 0.0));
    assert_eq!(store.len(), 4);
    assert!(store.get(0).is_none());
    assert!(store.get(1).is_none());
    assert!(store.get(2).is_none());
    // The origin is a position like any other.
    assert_eq!(bits(store.get(3).unwrap()), (0, 0, 0));
    assert!(store.get(4).is_none());
    assert!(store.get(u64::MAX).is_none());
    store.set(1, point(1.0, 2.0, 3.0));
    assert_eq!(store.len(), 4);
    assert_eq!(bits(store.get(1).unwrap()), bits(&point(1.0, 2.0, 3.0)));
    store.set(1, point(4.0, 5.0, 6.0));
    assert_eq!(bits(store.get(1).unwrap()), bits(&point(4.0, 5.0, 6.0)));
    assert_eq!(bits(store.get(3).unwrap()), (0, 0, 0));
}

#[test]
fn vertices_from_a_vector_are_all_written() {
    let store = Vertices::from(vec![point(1.0, 0.0, 0.0), point(0.0, 1.0, 0.0)]);
    assert_eq!(store.len(), 2);
    assert_eq!(bits(store.get(0).unwrap()), bits(&point(1.0, 0.0, 0.0)));
    assert_eq!(bits(store.get(1).unwrap()), bits(&point(0.0, 1.0, 0.0)));
    assert!(store.get(2).is_none());
}

#[test]
fn split_numbers_midpoint_and_halves() {
    let mut store = seed_store();
    // Seed edge 4 joins vertices 0 and 11.
    let (start, v, end) = Edge::new(0, 4, (0, 11)).split(&mut store);
    assert_eq!(v, 12 + 4);
    assert_eq!((start.generation(), start.index(), start.start(), start.end()), (1, 8, 0, 16));
    assert_eq!((end.generation(), end.index(), end.start(), end.end()), (1, 9, 16, 11));
    assert_eq!(store.len(), 17);
    // An edge of generation 2: the vertices of generation 2 start at 162.
    let mut store = Vertices::from(vec![point(1.0, 0.0, 0.0); 200]);
    let (start, v, end) = Edge::new(2, 100, (150, 7)).split(&mut store);
    assert_eq!(v, 162 + 100);
    assert_eq!((start.generation(), start.index(), start.start(), start.end()), (3, 201, 150, 262));
    assert_eq!((end.generation(), end.index(), end.start(), end.end()), (3, 200, 262, 7));
}

#[test]
fn split_writes_the_normalized_midpoint() {
    let mut store = Vertices::from(vec![point(1.0, 0.0, 0.0), point(0.0, 1.0, 0.0)]);
    let (_, v, _) = Edge::new(0, 0, (0, 1)).split(&mut store);
    assert_eq!(v, 12);
    assert_eq!(store.len(), 13);
    for unwritten in 2..12 {
        assert!(store.get(unwritten).is_none());
    }
    let middle = store.get(12).unwrap();
    let expected = 0.5f32 / (0.5f32 * 0.5 + 0.5 * 0.5).sqrt();
    assert_eq!(middle.x.0, expected);
    assert_eq!(middle.y.0, expected);
    assert_eq!(middle.z.0, 0.0);
    assert!((length(middle) - 1.0).abs() < 1e-6);
}

#[test]
fn split_leaves_a_written_midpoint_alone() {
    let mut store = Vertices::from(vec![point(1.0, 0.0, 0.0), point(0.0, 1.0, 0.0)]);
    store.set(12, point(9.0, 9.0, 9.0));
    let (start, v, end) = Edge::new(0, 0, (0, 1)).split(&mut store);
    assert_eq!((start.index(), v, end.index()), (0, 12, 1));
    assert_eq!(bits(store.get(12).unwrap()), bits(&point(9.0, 9.0, 9.0)));
    assert_eq!(store.len(), 13);
}

#[test]
fn shared_seed_edges_split_alike_from_both_sides() {
    let mut pairs = 0;
    for first in 0..20u64 {
        for second in 0..20u64 {
            if first == second {
                continue;
            }
            let one = seed_region(first);
            let other = seed_region(second);
            for i in 0..3u64 {
                for j in 0..3u64 {
                    let e = one.edge(i);
                    let f = other.edge(j);
                    if e.index() != f.index() {
                        continue;
                    }
                    pairs += 1;
                    // The two faces walk the edge in opposite directions.
                    assert_eq!((e.start(), e.end()), (f.end(), f.start()));
                    let mut left = seed_store();
                    let mut right = seed_store();
                    let (e_start, v, e_end) = e.split(&mut left);
                    let (f_start, w, f_end) = f.split(&mut right);
                    assert_eq!(v, w);
                    assert_eq!(bits(left.get(v).unwrap()), bits(right.get(w).unwrap()));
                    // The halves are the same two edges, walked the other way.
                    assert_eq!(
                        (e_start.index(), e_start.start(), e_start.end()),
                        (f_end.index(), f_end.end(), f_end.start())
                    );
                    assert_eq!(
                        (e_end.index(), e_end.start(), e_end.end()),
                        (f_start.index(), f_start.end(), f_start.start())
                    );
                    // Splitting from the second side after the first changes nothing.
                    let before = bits(left.get(v).unwrap());
                    let length_before = left.len();
                    f.split(&mut left);
                    assert_eq!(bits(left.get(v).unwrap()), before);
                    assert_eq!(left.len(), length_before);
                }
            }
        }
    }
    // 30 edges, each seen from both of its faces.
    assert_eq!(pairs, 60);
}

#[test]
fn refine_makes_the_four_children_of_a_face() {
    let mut store = seed_store();
    let mut region = Region::from_vertices(0, [0, 11, 5]);
    region.refine(&mut store);
    assert_eq!(record(&region), (0, 0, [0, 11, 5], [4, 22, 1]));
    let made = children(&region);
    assert_eq!(made.len(), 4);
    // Edge 4 = (0, 11) has midpoint 16, edge 22 = (11, 5) midpoint 34, edge 1 = (5, 0)
    // midpoint 13. The inner edges are 60, 61, 62.
    assert_eq!(record(&made[0]), (1, 0, [0, 16, 13], [8, 60, 2]));
    assert_eq!(record(&made[1]), (1, 1, [16, 11, 34], [9, 45, 61]));
    assert_eq!(record(&made[2]), (1, 2, [34, 5, 13], [44, 3, 62]));
    assert_eq!(record(&made[3]), (1, 3, [13, 16, 34], [60, 61, 62]));
    for child in made.iter() {
        assert!(is_leaf(child));
    }
    for v in [13u64, 16, 34] {
        assert!((length(store.get(v).unwrap()) - 1.0).abs() < 1e-6);
    }
    assert_eq!(store.len(), 35);
}

#[test]
fn refine_of_a_split_face_keeps_it_and_goes_on_below() {
    let mut store = seed_store();
    let mut region = Region::from_vertices(0, [0, 11, 5]);
    region.refine(&mut store);
    let own = record(&region);
    let below: Vec<_> = children(&region).iter().map(record).collect();
    let written: Vec<_> = (0..store.len() as u64).map(|i| store.get(i).map(bits)).collect();

    region.refine(&mut store);

    // The face and its four children are the ones they were.
    assert_eq!(record(&region), own);
    let now: Vec<_> = children(&region).iter().map(record).collect();
    assert_eq!(now, below);
    // What was written is still there; the children have been split.
    for (i, position) in written.iter().enumerate() {
        if position.is_some() {
            assert_eq!(store.get(i as u64).map(bits), *position);
        }
    }
    for child in children(&region).iter() {
        assert_eq!(children(child).len(), 4);
        for grandchild in children(child).iter() {
            assert!(is_leaf(grandchild));
        }
    }
    let mut indexes = Vec::new();
    region.fill_indexes(&mut indexes);
    assert_eq!(indexes.len(), 3 * 16);
}

#[test]
fn fill_indexes_appends_the_corners_of_the_leaves() {
    let region = Region::from_vertices(3, [5, 11, 4]);
    let mut indexes = vec![99];
    region.fill_indexes(&mut indexes);
    assert_eq!(indexes, vec![99, 5, 11, 4]);

    let mut store = seed_store();
    let mut region = Region::from_vertices(0, [0, 11, 5]);
    region.refine(&mut store);
    let mut indexes = Vec::new();
    region.fill_indexes(&mut indexes);
    assert_eq!(indexes, vec![0, 16, 13, 16, 11, 34, 34, 5, 13, 13, 16, 34]);
}

#[test]
fn new_planet_is_the_icosahedron() {
    let planet = Planet::new(Real(1.0));
    assert_eq!(planet.generation_number(), 0);
    assert_eq!(planet.vertices().len(), 12);
    let t = (1.0 + 5.0f32.sqrt()) / 2.0;
    let l = (1.0 + t * t).sqrt();
    let first = planet.vertices().get(0).unwrap();
    assert_eq!((first.x.0, first.y.0, first.z.0), (-1.0 / l, t / l, 0.0 / l));
    let last = planet.vertices().get(11).unwrap();
    assert_eq!((last.x.0, last.y.0, last.z.0), (-t / l, 0.0 / l, 1.0 / l));
    for i in 0..12 {
        assert!((length(planet.vertices().get(i).unwrap()) - 1.0).abs() < 1e-6);
    }
    let indices = planet.indices();
    assert_eq!(indices.len(), 60);
    assert_eq!(&indices[0..6], &[0, 11, 5, 0, 5, 1]);
    assert_eq!(&indices[57..60], &[3, 6, 8]);
    for face in 0..20u64 {
        let corners = seed_face_vertices(face);
        assert_eq!(&indices[3 * face as usize..3 * face as usize + 3], &corners);
    }
}

#[test]
fn new_planet_is_scaled_by_its_radius() {
    let planet = Planet::new(Real(3.0));
    let unit = Planet::new(Real(1.0));
    for i in 0..12 {
        let scaled = planet.vertices().get(i).unwrap();
        let plain = unit.vertices().get(i).unwrap();
        assert_eq!(scaled.x.0, plain.x.0 * 3.0);
        assert_eq!(scaled.y.0, plain.y.0 * 3.0);
        assert_eq!(scaled.z.0, plain.z.0 * 3.0);
        assert!((length(scaled) - 3.0).abs() < 1e-5);
    }
}

#[test]
fn one_refinement_of_the_unit_planet() {
    let mut planet = Planet::new(Real(1.0));
    let seed: Vec<_> = (0..12).map(|i| bits(planet.vertices().get(i).unwrap())).collect();
    planet.refine();
    assert_eq!(planet.generation_number(), 1);
    assert_eq!(planet.vertices().len(), 42);
    assert_eq!(planet.positions().len(), 42);
    assert_eq!(planet.indices().len(), 3 * 80);
    assert_eq!(bits(planet.vertices().get(0).unwrap()), seed[0]);
    for i in 0..12 {
        assert_eq!(bits(planet.vertices().get(i).unwrap()), seed[i as usize]);
    }
    for i in 12..42 {
        let position = planet.vertices().get(i).unwrap();
        assert!((length(position) - 1.0).abs() < 1e-6);
    }
}

#[test]
fn counts_match_the_tree_that_is_built() {
    let mut planet = Planet::new(Real(1.0));
    for g in 0..=5u32 {
        let indices = planet.indices();
        // Leaves.
        assert_eq!(indices.len() as u64, 3 * face_count(g));
        // Vertices: every slot written, every vertex used by some face.
        assert_eq!(planet.vertices().len() as u64, vertex_count(g));
        for i in 0..planet.vertices().len() as u64 {
            assert!(planet.vertices().get(i).is_some());
        }
        let used: HashSet<u64> = indices.iter().copied().collect();
        assert_eq!(used.len() as u64, vertex_count(g));
        // Edges: the sides of all triangles, each shared by two of them.
        let mut sides: HashMap<(u64, u64), u32> = HashMap::new();
        for triangle in indices.chunks(3) {
            for k in 0..3 {
                let (a, b) = (triangle[k], triangle[(k + 1) % 3]);
                *sides.entry((a.min(b), a.max(b))).or_insert(0) += 1;
            }
        }
        assert_eq!(sides.len() as u64, edge_count(g));
        assert!(sides.values().all(|count| *count == 2));
        if g < 5 {
            planet.refine();
        }
    }
}

#[test]
fn index_buffer_is_sized_and_in_range() {
    let mut planet = Planet::new(Real(1.0));
    for d in 0..=4u32 {
        let indices = planet.indices();
        assert_eq!(indices.len() as u64, 3 * 20 * 4u64.pow(d));
        let count = planet.vertices().len() as u64;
        assert!(indices.iter().all(|index| *index < count));
        if d < 4 {
            planet.refine();
        }
    }
}

#[test]
fn no_vertex_is_written_twice_with_two_positions() {
    let mut planet = Planet::new(Real(1.0));
    let mut seen: Vec<(u32, u32, u32)> = Vec::new();
    for _ in 0..4 {
        for i in 0..planet.vertices().len() as u64 {
            let now = bits(planet.vertices().get(i).unwrap());
            if (i as usize) < seen.len() {
                assert_eq!(now, seen[i as usize]);
            } else {
                seen.push(now);
            }
        }
        planet.refine();
    }
    assert_eq!(planet.generation_number(), 4);
    assert_eq!(planet.vertices().len() as u64, vertex_count(4));
    for (i, before) in seen.iter().enumerate() {
        assert_eq!(bits(planet.vertices().get(i as u64).unwrap()), *before);
    }
}

#[test]
fn shared_edges_give_the_same_position_from_both_sides() {
    // Every vertex of generation 2 is the normalized midpoint of the two
    // ends of its edge, whichever of the two faces at that edge wrote it.
    let mut planet = Planet::new(Real(1.0));
    planet.refine();
    let indices = planet.indices();
    let before = planet.positions();
    planet.refine();
    let after = planet.positions();
    let finer = planet.indices();
    assert_eq!(finer.len(), 4 * indices.len());
    for (face, triangle) in indices.chunks(3).enumerate() {
        let child = &finer[12 * face..12 * face + 12];
        // The children in the corners keep one corner each.
        assert_eq!(child[0], triangle[0]);
        assert_eq!(child[4], triangle[1]);
        assert_eq!(child[7], triangle[2]);
        // The child in the centre has the three midpoints: those of the
        // third, the first and the second side.
        let midpoints = [child[10], child[11], child[9]];
        for k in 0..3 {
            let a = before[triangle[k] as usize];
            let b = before[triangle[(k + 1) % 3] as usize];
            let forward = ((a + b) / Real(2.0)).normal();
            let backward = ((b + a) / Real(2.0)).normal();
            assert_eq!(bits(&forward), bits(&backward));
            assert_eq!(bits(&after[midpoints[k] as usize]), bits(&forward));
        }
    }
}

#[test]
fn try_refine_refines_where_it_can() {
    let mut planet = Planet::new(Real(1.0));
    assert!(planet.can_refine());
    assert!(planet.try_refine());
    assert_eq!(planet.generation_number(), 1);
    assert_eq!(planet.vertices().len(), 42);
}

#[test]
fn refining_a_region_by_hand_matches_the_planet() {
    let mut planet = Planet::new(Real(1.0));
    let mut store = seed_store();
    let mut root = Region::Root((0..20).map(seed_region).collect());
    for _ in 0..3 {
        planet.refine();
        root.refine(&mut store);
    }
    let mut indexes = Vec::new();
    root.fill_indexes(&mut indexes);
    assert_eq!(indexes, planet.indices());
    assert_eq!(store.len(), planet.vertices().len());
    for i in 0..store.len() as u64 {
        assert_eq!(bits(store.get(i).unwrap()), bits(planet.vertices().get(i).unwrap()));
    }
}

#[test]
fn neg_trait_and_method_agree() {
    let edge = Edge::new(1, 5, (2, 9));
    let by_method = edge.neg();
    let by_operator = -edge;
    assert_eq!((by_method.start(), by_method.end()), (by_operator.start(), by_operator.end()));
}

#[test]
fn leaf_nodes_are_faces_without_children() {
    let mut region = Region::from_vertices(0, [0, 11, 5]);
    assert!(region.is_leaf_node());
    assert!(!Region::Root(Vec::new()).is_leaf_node());
    let mut store = seed_store();
    region.refine(&mut store);
    assert!(!region.is_leaf_node());
    assert!(children(&region).iter().all(|child| child.is_leaf_node()));
}

#[test]
fn positions_are_the_written_slots_of_the_store() {
    let mut planet = Planet::new(Real(2.0));
    planet.refine();
    planet.refine();
    let positions = planet.positions();
    assert_eq!(positions.len(), planet.vertices().len());
    assert_eq!(positions.len() as u64, vertex_count(2));
    for (i, position) in positions.iter().enumerate() {
        assert_eq!(bits(position), bits(planet.vertices().get(i as u64).unwrap()));
    }
}

#[test]
fn seed_faces_are_bounded_by_seed_edges() {
    let mut walked: HashMap<u64, Vec<(u64, u64)>> = HashMap::new();
    for face in 0..20u64 {
        let corners = seed_face_vertices(face);
        for k in 0..3 {
            let (a, b) = (corners[k], corners[(k + 1) % 3]);
            let edge = great_edge_index(a, b);
            let (low, high) = seed_edge_vertices(edge);
            assert_eq!((low, high), (a.min(b), a.max(b)));
            walked.entry(edge).or_default().push((a, b));
        }
    }
    // Every edge lies between two faces, which walk it in opposite directions.
    assert_eq!(walked.len(), 30);
    for ways in walked.values() {
        assert_eq!(ways.len(), 2);
        assert_eq!(ways[0], (ways[1].1, ways[1].0));
    }
}

#[test]
fn faces_that_share_an_edge_walk_it_in_opposite_directions() {
    let mut planet = Planet::new(Real(1.0));
    for _ in 0..3 {
        planet.refine();
    }
    let mut walked: HashSet<(u64, u64)> = HashSet::new();
    for triangle in planet.indices().chunks(3) {
        for k in 0..3 {
            // No edge is walked twice in the same direction.
            assert!(walked.insert((triangle[k], triangle[(k + 1) % 3])));
        }
    }
    for (a, b) in walked.iter() {
        assert!(a != b);
        assert!(walked.contains(&(*b, *a)));
    }
}
