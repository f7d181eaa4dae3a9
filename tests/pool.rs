use verlet_pool::{DetectMode, Phase, SpatialHash, Solver};

fn solver(mode: DetectMode) -> Solver<u32, ()> {
    Solver::new(SpatialHash::new(3, 3), vec![()], 8, mode)
}

#[test]
fn new_solver_is_empty() {
    let s = solver(DetectMode::Slow);
    assert!(s.balls.is_empty());
    assert_eq!(s.boundaries.len(), 1);
    assert_eq!(s.substeps, 8);
}

#[test]
fn insert_particle_appends() {
    let mut s = solver(DetectMode::Slow);
    s.insert_particle(5);
    s.insert_particle(6);
    assert_eq!(s.balls, vec![5, 6]);
}

#[test]
fn restart_twice_leaves_empty_pool() {
    let mut s = solver(DetectMode::SpatialPartition);
    s.insert_particle(1);
    s.insert_particle(2);
    s.hash.hash(1, 1, 0);
    s.restart();
    assert!(s.balls.is_empty());
    assert!(s.hash.indices().is_empty());
    s.restart();
    assert!(s.balls.is_empty());
    assert!(s.hash.indices().is_empty());
    assert_eq!(s.hash.rows(), 3);
    assert_eq!(s.hash.cols(), 3);
}

#[test]
fn insert_after_restart_gives_exact_pool() {
    let mut s = solver(DetectMode::Slow);
    s.insert_particle(9);
    s.restart();
    for m in 0..4u32 {
        s.insert_particle(m * 10);
    }
    assert_eq!(s.balls.len(), 4);
    assert_eq!(s.balls, vec![0, 10, 20, 30]);
}

#[test]
fn retain_marked_keeps_order() {
    let mut s = solver(DetectMode::Slow);
    for v in [10u32, 20, 30, 40] {
        s.insert_particle(v);
    }
    s.retain_marked(&vec![true, false, true, false]);
    assert_eq!(s.balls, vec![10, 30]);
    s.retain_marked(&vec![false, false]);
    assert!(s.balls.is_empty());
}

#[test]
fn slow_mode_pairs_every_ordered_pair() {
    let mut s = solver(DetectMode::Slow);
    for v in 0..3u32 {
        s.insert_particle(v);
    }
    assert_eq!(
        s.solve_collisions(),
        vec![(0, 1), (0, 2), (1, 0), (1, 2), (2, 0), (2, 1)]
    );
    let pairs = s.collision_pairs(&vec![(1, 1), (1, 1), (1, 1)]);
    assert_eq!(pairs, vec![(0, 1), (0, 2), (1, 0), (1, 2), (2, 0), (2, 1)]);
    assert!(s.hash.indices().is_empty());
}

#[test]
fn slow_mode_with_one_particle_has_no_pairs() {
    let mut s = solver(DetectMode::Slow);
    s.insert_particle(1);
    assert!(s.solve_collisions().is_empty());
}

#[test]
fn grid_mode_rebuilds_hash_and_pairs_neighbours() {
    let mut s = solver(DetectMode::SpatialPartition);
    for v in 0..3u32 {
        s.insert_particle(v);
    }
    let pairs = s.collision_pairs(&vec![(1, 1), (0, 0), (9, 9)]);
    assert_eq!(pairs, vec![(0, 1)]);
    assert_eq!(s.hash.cell(1, 1), &vec![0]);
    assert_eq!(s.hash.cell(0, 0), &vec![1]);
    assert_eq!(s.hash.indices().len(), 2);
}

#[test]
fn schedule_repeats_four_phases_per_substep() {
    let mut s = solver(DetectMode::Slow);
    s.substeps = 2;
    assert_eq!(
        s.schedule(),
        vec![
            Phase::Gravity,
            Phase::Boundaries,
            Phase::Collisions,
            Phase::Integrate,
            Phase::Gravity,
            Phase::Boundaries,
            Phase::Collisions,
            Phase::Integrate,
        ]
    );
    s.substeps = 0;
    assert!(s.schedule().is_empty());
}
