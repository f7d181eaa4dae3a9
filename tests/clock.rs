use verlet_pool::RunClock;

#[test]
fn sync_frames_advance_until_two_runs_complete() {
    let mut c = RunClock::new(3);
    for frame in 1..=2 {
        c.begin_frame();
        assert!(!c.end_frame(frame));
    }
    assert_eq!(c.sync_frames(), 2);
    assert_eq!(c.sim_runs(), 0);
    c.begin_frame();
    assert!(c.end_frame(3));
    assert_eq!(c.sync_frames(), 0);
    assert_eq!(c.sim_runs(), 1);
    for frame in 4..=6 {
        c.begin_frame();
        assert!(!c.end_frame(frame));
    }
    assert_eq!(c.sim_runs(), 2);
    assert_eq!(c.sync_frames(), 3);
    c.begin_frame();
    assert_eq!(c.sync_frames(), 3);
}

#[test]
fn frame_zero_neither_resets_nor_completes_a_run() {
    let mut c = RunClock::new(4);
    c.begin_frame();
    assert!(!c.end_frame(0));
    assert_eq!(c.sim_runs(), 0);
    assert_eq!(c.sync_frames(), 1);
}

#[test]
fn reset_happens_only_at_the_first_period() {
    let mut c = RunClock::new(2);
    assert!(c.end_frame(2));
    assert!(!c.end_frame(4));
    assert_eq!(c.sim_runs(), 2);
}
