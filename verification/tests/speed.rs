use pcurl::speed::SpeedFloor;

#[test]
fn trickling_chunk_is_dropped() {
    // About 10 KiB/s against a floor of 1 MiB/s over one second.
    let mut floor = SpeedFloor::new(1 << 20, 1);
    assert_eq!(floor.window_end_ms(), Some(1000));
    assert!(!floor.observe(200, 2048));
    assert!(!floor.observe(999, 8192));
    assert!(floor.observe(1000, 10240));
}

#[test]
fn fast_chunk_is_kept_window_by_window() {
    let mut floor = SpeedFloor::new(1000, 2);
    assert!(!floor.observe(2000, 2000));
    assert_eq!(floor.window_end_ms(), Some(4000));
    assert!(!floor.observe(3999, 2000));
    assert!(floor.observe(4000, 3999));
    assert!(!floor.observe(4000, 4000));
}

#[test]
fn stalled_chunk_is_dropped() {
    let mut floor = SpeedFloor::new(1, 1);
    assert!(!floor.observe(1000, 500));
    assert!(floor.observe(2000, 500));
}

#[test]
fn disabled_floor_drops_nothing() {
    let mut floor = SpeedFloor::new(0, 1);
    assert_eq!(floor.window_end_ms(), None);
    assert!(!floor.observe(u64::MAX, 0));
}

#[test]
fn extreme_values() {
    let mut floor = SpeedFloor::new(u64::MAX, u64::MAX);
    assert_eq!(floor.window_end_ms(), Some(u64::MAX));
    assert!(!floor.observe(u64::MAX, 0));
    let mut floor = SpeedFloor::new(u64::MAX, 1);
    assert!(floor.observe(u64::MAX, u64::MAX));
}
