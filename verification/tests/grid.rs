use kinetics::grid::cell_coordinate;
use kinetics::grid::cell_key;
use kinetics::grid::SpatialIndex;
use kinetics::vec2::V;
use kinetics::vec2::COORD_LIMIT;
use rand::rngs::StdRng;
use rand::Rng;
use rand::SeedableRng;

#[test]
fn cell_coordinates_round_down() {
    assert_eq!(cell_coordinate(0, 10), 0);
    assert_eq!(cell_coordinate(9, 10), 0);
    assert_eq!(cell_coordinate(10, 10), 1);
    assert_eq!(cell_coordinate(-1, 10), -1);
    assert_eq!(cell_coordinate(-10, 10), -1);
    assert_eq!(cell_coordinate(-11, 10), -2);
    assert_eq!(cell_coordinate(-COORD_LIMIT, 1), -COORD_LIMIT);
    assert_eq!(cell_coordinate(COORD_LIMIT, 1), COORD_LIMIT);
    assert_eq!(cell_coordinate(-COORD_LIMIT, COORD_LIMIT), -1);
    assert_eq!(cell_coordinate(COORD_LIMIT, COORD_LIMIT), 1);
    assert_eq!(cell_coordinate(i64::MIN, 7), -1_317_624_576_693_539_402);
    assert_eq!(cell_coordinate(i64::MAX, 7), 1_317_624_576_693_539_401);
}

#[test]
fn cell_keys_tell_cells_apart() {
    assert_eq!(cell_key(0, 0), 0x8000_0000_8000_0000);
    assert_eq!(cell_key(-0x8000_0000, -0x8000_0000), 0);
    assert_eq!(cell_key(0x7fff_ffff, 0x7fff_ffff), u64::MAX);
    assert_eq!(cell_key(1, -1), 0x8000_0001_7fff_ffff);
    assert!(cell_key(0, 1) != cell_key(1, 0));
}

fn bucket(index: &SpatialIndex, cx: i64, cy: i64) -> Vec<usize> {
    match index.slots.get(&cell_key(cx, cy)) {
        Some(slot) => index.buckets[*slot].clone(),
        None => Vec::new(),
    }
}

#[test]
fn a_particle_is_filed_under_nine_cells() {
    let mut index = SpatialIndex::empty(10);
    index.file(V(25, -5), 4);
    for cx in 0..5 {
        for cy in -4..3 {
            let near = (1..=3).contains(&cx) && (-2..=0).contains(&cy);
            let expected: Vec<usize> = if near { vec![4] } else { Vec::new() };
            assert_eq!(bucket(&index, cx, cy), expected);
        }
    }
    index.insert(2, -1, 9);
    assert_eq!(bucket(&index, 2, -1), vec![4, 9]);
    assert_eq!(bucket(&index, 2, 0), vec![4]);
    assert_eq!(index.cell, 10);
}

#[test]
fn the_grid_files_particles_in_use_only() {
    let points = vec![V(0, 0), V(5, 5), V(100, 100)];
    let active = vec![true, false, true];
    let index = SpatialIndex::build(&points, &active, 10);
    assert_eq!(bucket(&index, 0, 0), vec![0]);
    assert_eq!(bucket(&index, 1, 1), vec![0]);
    assert_eq!(bucket(&index, 10, 10), vec![2]);
    assert_eq!(bucket(&index, 5, 5), Vec::<usize>::new());
    assert_eq!(index.neighbours(&points, &active, 0, 10), Vec::<usize>::new());
    assert_eq!(index.neighbours(&points, &active, 1, 10), vec![0]);
}

#[test]
fn neighbours_are_strictly_within_reach() {
    let points = vec![V(0, 0), V(6, 8), V(-6, -8), V(7, 8), V(0, 9), V(0, 0)];
    let active = vec![true; 6];
    let index = SpatialIndex::build(&points, &active, 10);
    let mut found = index.neighbours(&points, &active, 0, 10);
    found.sort();
    assert_eq!(found, vec![4, 5]);
    let mut found = index.neighbours(&points, &active, 0, 9);
    found.sort();
    assert_eq!(found, vec![5]);
    let mut found = index.neighbours(&points, &active, 5, 10);
    found.sort();
    assert_eq!(found, vec![0, 4]);
}

#[test]
fn neighbours_are_found_across_cell_borders() {
    let points = vec![V(-1, -1), V(0, 0), V(9, 0), V(10, 0), V(-10, -1), V(19, 0)];
    let active = vec![true; 6];
    let index = SpatialIndex::build(&points, &active, 10);
    let mut found = index.neighbours(&points, &active, 1, 10);
    found.sort();
    assert_eq!(found, vec![0, 2]);
    let mut found = index.neighbours(&points, &active, 0, 10);
    found.sort();
    assert_eq!(found, vec![1, 4]);
    let mut found = index.neighbours(&points, &active, 3, 10);
    found.sort();
    assert_eq!(found, vec![2, 5]);
}

fn brute(points: &Vec<V>, active: &Vec<bool>, i: usize, reach: i64) -> Vec<usize> {
    let mut found = Vec::new();
    for j in 0..points.len() {
        if j != i && active[j] && V::dist_sq(points[i], points[j]) < (reach * reach) as u64 {
            found.push(j);
        }
    }
    found
}

#[test]
fn every_close_pair_shares_a_bucket() {
    let mut rng = StdRng::seed_from_u64(2024);
    for round in 0..40 {
        let cell: i64 = rng.gen_range(1..400);
        let spread: i64 = rng.gen_range(1..2000);
        let n: usize = rng.gen_range(0..60);
        let mut points = Vec::new();
        let mut active = Vec::new();
        for _ in 0..n {
            points.push(V(rng.gen_range(-spread..=spread), rng.gen_range(-spread..=spread)));
            active.push(round % 4 != 0 || rng.gen_ratio(3, 4));
        }
        let index = SpatialIndex::build(&points, &active, cell);
        for a in 0..n {
            for b in 0..n {
                if a == b || !active[a] || !active[b] {
                    continue;
                }
                if V::dist_sq(points[a], points[b]) < (cell * cell) as u64 {
                    let cx = cell_coordinate(points[b].0, cell);
                    let cy = cell_coordinate(points[b].1, cell);
                    let shared = bucket(&index, cx, cy);
                    assert!(shared.contains(&a));
                    assert!(shared.contains(&b));
                }
            }
        }
        for i in 0..n {
            let reach = rng.gen_range(1..=cell);
            let mut found = index.neighbours(&points, &active, i, reach);
            found.sort();
            assert_eq!(found, brute(&points, &active, i, reach));
        }
    }
}

#[test]
fn the_grid_works_at_the_edge_of_the_lattice() {
    let points = vec![
        V(COORD_LIMIT, COORD_LIMIT),
        V(COORD_LIMIT - 1, COORD_LIMIT),
        V(-COORD_LIMIT, -COORD_LIMIT),
        V(-COORD_LIMIT, -COORD_LIMIT + 1),
    ];
    let active = vec![true; 4];
    for cell in [1, 2, 1000, COORD_LIMIT] {
        let index = SpatialIndex::build(&points, &active, cell);
        assert_eq!(index.neighbours(&points, &active, 0, cell), brute(&points, &active, 0, cell));
        assert_eq!(index.neighbours(&points, &active, 2, cell), brute(&points, &active, 2, cell));
    }
    let index = SpatialIndex::build(&points, &active, 2);
    assert_eq!(index.neighbours(&points, &active, 0, 2), vec![1]);
    assert_eq!(index.neighbours(&points, &active, 3, 2), vec![2]);
    assert_eq!(index.neighbours(&points, &active, 3, 1), Vec::<usize>::new());
}
