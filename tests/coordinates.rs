use planet_grid::parallelogram::ParallelogramCoordinate;
use planet_grid::triangle::{Direction, TriangleCoordinate};

const DIRECTIONS: [Direction; 6] =
    [Direction::NX, Direction::PX, Direction::NY, Direction::PY, Direction::NZ, Direction::PZ];

fn opposite(d: Direction) -> Direction {
    match d {
        Direction::NX => Direction::PX,
        Direction::PX => Direction::NX,
        Direction::NY => Direction::PY,
        Direction::PY => Direction::NY,
        Direction::NZ => Direction::PZ,
        Direction::PZ => Direction::NZ,
    }
}

fn normalized_fully(mut t: TriangleCoordinate) -> TriangleCoordinate {
    for _ in 0..4 {
        if !t.normalize() {
            return t;
        }
    }
    panic!("normalize did not settle: {:?}", t);
}

/// Every canonical cell of a planet, found by scanning each face.
fn cells(g: usize) -> Vec<TriangleCoordinate> {
    let g3 = 3 * g as isize;
    let mut out = Vec::new();
    for lat in 0..5u8 {
        for lon in 0..4u8 {
            for a in -3..=g3 + 3 {
                for b in -3..=g3 + 3 {
                    let c = g3 - a - b;
                    if (a - b).rem_euclid(3) != 0 || (b - c).rem_euclid(3) != 0 {
                        continue;
                    }
                    let mut t = TriangleCoordinate::new(g, [a, b, c], lat, lon);
                    if !t.normalize() {
                        out.push(t);
                    }
                }
            }
        }
    }
    out
}

#[test]
fn parallelogram_sizes_for_five() {
    // gp / 2 * 3 + gp % 2
    assert_eq!(ParallelogramCoordinate::parallelogram_width(5), 7);
    assert_eq!(ParallelogramCoordinate::parallelogram_height(5), 20);
    assert_eq!(ParallelogramCoordinate::parallelogram_area(5), 150);
    assert_eq!(ParallelogramCoordinate::parallelogram_area(5) * 5 + 2, 752);
}

#[test]
fn parallelogram_sizes_even_and_one() {
    assert_eq!(ParallelogramCoordinate::parallelogram_width(4), 6);
    assert_eq!(ParallelogramCoordinate::parallelogram_width(1), 1);
    assert_eq!(ParallelogramCoordinate::parallelogram_height(1), 4);
    assert_eq!(ParallelogramCoordinate::parallelogram_area(1), 6);
}

#[test]
fn cell_count_matches_storage() {
    for g in 1..=6 {
        let n = cells(g).len();
        assert_eq!(n, ParallelogramCoordinate::parallelogram_area(g) * 5 + 2);
    }
}

#[test]
fn cube_sum_is_kept() {
    for g in 1..=4 {
        for t in cells(g) {
            for d in DIRECTIONS {
                let mut n = t;
                n.navigate(d);
                assert_eq!(n.cube_coord.iter().sum::<isize>(), 3 * g as isize);
            }
        }
    }
}

#[test]
fn normalize_walks_over_two_borders() {
    let mut t = TriangleCoordinate::new(2, [-2, 1, 7], 0, 2);
    assert!(t.normalize());
    assert_eq!(t, TriangleCoordinate::new(2, [2, 5, -1], 4, 1));
    assert!(t.normalize());
    assert_eq!(t, TriangleCoordinate::new(2, [4, 1, 1], 4, 0));
    assert!(!t.normalize());
    assert_eq!(t, TriangleCoordinate::new(2, [4, 1, 1], 4, 0));
}

#[test]
fn normalize_leaves_canonical_coordinates() {
    for g in 1..=4 {
        for t in cells(g) {
            let mut n = t;
            assert!(!n.normalize());
            assert_eq!(n, t);
        }
    }
}

#[test]
fn normalize_snaps_far_corner_overflow() {
    // far past the corner of row 0: the cell next to the south pole
    let mut t = TriangleCoordinate::new(4, [-2, -2, 16], 0, 0);
    assert!(t.normalize());
    assert_eq!(t, TriangleCoordinate::new(4, [1, 1, 10], 3, 0));
}

#[test]
fn south_pole_from_every_face() {
    for lat in 0..5u8 {
        let mut t = TriangleCoordinate::new(5, [0, 0, 15], lat, 0);
        normalize_once_then_still(&mut t);
        assert_eq!(t, TriangleCoordinate::new(5, [0, 0, 15], 0, 0));
    }
}

#[test]
fn north_pole_from_every_face() {
    for lat in 0..5u8 {
        let mut t = TriangleCoordinate::new(5, [0, 0, 15], lat, 3);
        normalize_once_then_still(&mut t);
        assert_eq!(t, TriangleCoordinate::new(5, [0, 0, 15], 0, 3));
    }
}

fn normalize_once_then_still(t: &mut TriangleCoordinate) {
    t.normalize();
    let before = *t;
    assert!(!t.normalize());
    assert_eq!(*t, before);
}

#[test]
fn each_vertex_has_one_canonical_coordinate() {
    let g = 3;
    let mut found: Vec<Option<TriangleCoordinate>> = vec![None; 12];
    for lat in 0..5u8 {
        for lon in 0..4u8 {
            for k in 0..3 {
                let mut c = [0isize; 3];
                c[k] = 3 * g as isize;
                let corner = TriangleCoordinate::new(g, c, lat, lon);
                let vertex = corner.pole_indices()[k] as usize;
                let mut n = corner;
                n.normalize();
                let mut again = n;
                assert!(!again.normalize());
                match found[vertex] {
                    None => found[vertex] = Some(n),
                    Some(f) => assert_eq!(f, n),
                }
            }
        }
    }
    assert!(found.iter().all(|f| f.is_some()));
    assert_eq!(found[0], Some(TriangleCoordinate::new(g, [0, 0, 9], 0, 0)));
    assert_eq!(found[1], Some(TriangleCoordinate::new(g, [9, 0, 0], 4, 0)));
    assert_eq!(found[7], Some(TriangleCoordinate::new(g, [0, 9, 0], 0, 3)));
    assert_eq!(found[11], Some(TriangleCoordinate::new(g, [0, 0, 9], 0, 3)));
}

#[test]
fn navigate_inside_a_face() {
    let mut t = TriangleCoordinate::new(5, [4, 4, 7], 1, 0);
    t.navigate(Direction::PY);
    assert_eq!(t, TriangleCoordinate::new(5, [3, 6, 6], 1, 0));
    t.navigate(Direction::NY);
    assert_eq!(t, TriangleCoordinate::new(5, [4, 4, 7], 1, 0));
}

#[test]
fn navigate_is_mirrored_on_odd_rows() {
    let mut t = TriangleCoordinate::new(3, [1, 4, 4], 2, 1);
    t.navigate(Direction::NZ);
    assert_eq!(t, TriangleCoordinate::new(3, [0, 3, 6], 2, 1));
}

#[test]
fn navigate_across_a_turned_seam() {
    // crossing between two faces of row 0 turns the frame: the opposite
    // step does not lead back there
    let start = TriangleCoordinate::new(5, [1, 4, 10], 2, 0);
    let mut t = start;
    t.navigate(Direction::NX);
    assert_eq!(t, TriangleCoordinate::new(5, [4, 1, 10], 1, 0));
    t.navigate(Direction::PX);
    assert_eq!(t, TriangleCoordinate::new(5, [6, 0, 9], 1, 0));
}

#[test]
fn navigate_keeps_cells_canonical() {
    for g in 1..=5 {
        for t in cells(g) {
            for d in DIRECTIONS {
                let mut n = t;
                n.navigate(d);
                let mut again = n;
                assert!(!again.normalize(), "{:?} {:?} -> {:?}", t, d, n);
            }
        }
    }
}

#[test]
fn step_back_returns_off_turned_seams() {
    for g in 1..=5 {
        let g3 = 3 * g as isize;
        for t in cells(g) {
            if t.is_pole() {
                continue;
            }
            for d in DIRECTIONS {
                let mut n = t;
                n.navigate(d);
                let same_row_other_band =
                    n.triangle_longitude == t.triangle_longitude && n.triangle_latitude != t.triangle_latitude;
                let pole_elsewhere = n.cube_coord.contains(&g3)
                    && n.triangle_latitude != t.triangle_latitude
                    && !(t.triangle_longitude == 2 && n.triangle_longitude == 0);
                if same_row_other_band || pole_elsewhere {
                    continue;
                }
                n.navigate(opposite(d));
                assert_eq!(n, t);
            }
        }
    }
}

#[test]
fn packing_examples() {
    let t = TriangleCoordinate::new(5, [4, 4, 7], 1, 0);
    let p = ParallelogramCoordinate::from_triangle_coordinate(&t);
    assert_eq!(p, ParallelogramCoordinate::new(5, [2, 2], 1));
    let t = TriangleCoordinate::new(5, [2, 8, 5], 4, 2);
    let p = ParallelogramCoordinate::from_triangle_coordinate(&t);
    assert_eq!(p, ParallelogramCoordinate::new(5, [1, 15], 4));
    let t = TriangleCoordinate::new(5, [3, 6, 6], 0, 3);
    let p = ParallelogramCoordinate::from_triangle_coordinate(&t);
    assert_eq!(p, ParallelogramCoordinate::new(5, [6, 16], 0));
}

#[test]
fn unpacking_example() {
    let p = ParallelogramCoordinate::new(5, [3, 7], 2);
    let t = TriangleCoordinate::from_parallelogram_coordinate(&p);
    assert_eq!(t, TriangleCoordinate::new(5, [8, 5, 2], 2, 1));
}

#[test]
fn unpacking_below_the_band() {
    let p = ParallelogramCoordinate::new(4, [-1, -2], 0);
    let mut t = TriangleCoordinate::from_parallelogram_coordinate(&p);
    assert_eq!(t, TriangleCoordinate::new(4, [-2, -2, 16], 0, 0));
    assert!(t.normalize());
}

#[test]
fn poles_pack_to_shared_indices() {
    let south = ParallelogramCoordinate::from_triangle_coordinate(&TriangleCoordinate::new(5, [0, 0, 15], 0, 0));
    assert_eq!(south, ParallelogramCoordinate::new(5, [0, 0], 0));
    assert_eq!(south.index_in_total(), 0);
    let north = ParallelogramCoordinate::from_triangle_coordinate(&TriangleCoordinate::new(5, [0, 0, 15], 0, 3));
    assert_eq!(north, ParallelogramCoordinate::new(5, [7, 20], 0));
    assert_eq!(north.index_in_total(), 751);
}

#[test]
fn index_in_total_examples() {
    assert_eq!(ParallelogramCoordinate::new(5, [2, 2], 1).index_in_total(), 150 + 2 * 7 + 2 + 0 + 1);
    assert_eq!(ParallelogramCoordinate::new(4, [0, 3], 2).index_in_total(), 2 * 96 + 3 * 6 + 1);
}

#[test]
fn packing_round_trip_and_unique_indices() {
    for g in 1..=6 {
        let total = ParallelogramCoordinate::parallelogram_area(g) * 5 + 2;
        let mut seen = vec![false; total];
        for t in cells(g) {
            let p = ParallelogramCoordinate::from_triangle_coordinate(&t);
            assert_eq!(TriangleCoordinate::from_parallelogram_coordinate(&p), t);
            let i = p.index_in_total();
            assert!(i < total);
            assert!(!seen[i], "index {} twice", i);
            seen[i] = true;
        }
        assert!(seen.iter().all(|s| *s));
    }
}

#[test]
fn pole_indices_of_each_row() {
    assert_eq!(TriangleCoordinate::new(1, [1, 1, 1], 4, 3).pole_indices(), [10, 6, 11]);
    assert_eq!(TriangleCoordinate::new(1, [1, 1, 1], 4, 2).pole_indices(), [6, 10, 5]);
    assert_eq!(TriangleCoordinate::new(1, [1, 1, 1], 2, 1).pole_indices(), [3, 4, 9]);
    assert_eq!(TriangleCoordinate::new(1, [1, 1, 1], 0, 0).pole_indices(), [2, 1, 0]);
}

#[test]
fn is_pole_examples() {
    assert!(TriangleCoordinate::new(2, [0, 6, 0], 0, 1).is_pole());
    assert!(!TriangleCoordinate::new(2, [1, 4, 1], 0, 1).is_pole());
}

#[test]
fn rotate_cube_coord_example() {
    assert_eq!(TriangleCoordinate::rotate_cube_coord([1, 4, 10]), [-6, 9, -3]);
}

#[test]
fn south_pole_from_rounded_barycentric() {
    // the direction (0, -1, 0) lies at corner 2 of each face of row 0
    for lat in 0..5u8 {
        let t = TriangleCoordinate::from_rounded_barycentric(5, [-5, 5, 0], lat, 0);
        assert_eq!(t.triangle_latitude, 0);
        assert_eq!(t.cube_coord, [0, 0, 15]);
    }
}

#[test]
fn rounded_barycentric_inside_a_face() {
    let t = TriangleCoordinate::from_rounded_barycentric(3, [1, -1, 0], 2, 1);
    assert_eq!(t, TriangleCoordinate::new(3, [4, 4, 1], 2, 1));
}

#[test]
fn every_numbered_place_holds_a_cell() {
    for g in 1..=6 {
        let width = ParallelogramCoordinate::parallelogram_width(g) as isize;
        let height = ParallelogramCoordinate::parallelogram_height(g) as isize;
        for lat in 0..5u8 {
            for y in 0..height {
                let xs = if y % 2 == 0 { 1..=width } else { 0..=(width - 1 + (g % 2) as isize) };
                for x in xs {
                    let p = ParallelogramCoordinate::new(g, [x, y], lat);
                    let t = TriangleCoordinate::from_parallelogram_coordinate(&p);
                    let mut n = t;
                    assert!(!n.normalize(), "{:?} unpacks to {:?}", p, t);
                    assert_eq!(ParallelogramCoordinate::from_triangle_coordinate(&t), p);
                }
            }
        }
    }
}
