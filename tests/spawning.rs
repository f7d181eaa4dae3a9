use verlet_pool::SpawnSchedule;

#[test]
fn spawns_only_on_period_frames() {
    let mut s = SpawnSchedule::new(2, 3, 100);
    assert!(s.update(1).is_empty());
    assert_eq!(s.spawn_count(), 0);
    assert_eq!(s.update(4), vec![(0, 0), (1, 1), (2, 2)]);
    assert_eq!(s.spawn_count(), 3);
}

#[test]
fn spawns_stop_at_max() {
    let mut s = SpawnSchedule::new(1, 3, 5);
    assert_eq!(s.update(0).len(), 3);
    assert_eq!(s.update(1), vec![(0, 3), (1, 4)]);
    assert_eq!(s.spawn_count(), 5);
    assert!(s.update(2).is_empty());
    assert_eq!(s.spawn_count(), 5);
}

#[test]
fn reset_restarts_the_count() {
    let mut s = SpawnSchedule::new(1, 2, 2);
    assert_eq!(s.update(7).len(), 2);
    assert!(s.update(8).is_empty());
    s.reset();
    assert_eq!(s.spawn_count(), 0);
    assert_eq!(s.update(9), vec![(0, 0), (1, 1)]);
}
