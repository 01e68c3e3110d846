use debounced_watch::debounce::DebounceGate;

#[test]
fn burst_collapses_to_last_value() {
    let mut g = DebounceGate::new(500);
    g.offer(1, 0);
    assert_eq!(g.tick(40), None);
    g.offer(0, 50);
    g.offer(1, 80);
    assert_eq!(g.deadline(), Some(580));
    assert_eq!(g.tick(500), None);
    assert_eq!(g.tick(579), None);
    assert_eq!(g.tick(580), Some(1));
    assert_eq!(g.tick(2000), None);
    assert_eq!(g.deadline(), None);
}

#[test]
fn single_value_passes_after_silence() {
    let mut g = DebounceGate::new(500);
    g.offer(3, 1000);
    assert_eq!(g.tick(1499), None);
    assert_eq!(g.tick(1600), Some(3));
    assert_eq!(g.tick(5000), None);
}

#[test]
fn tick_with_nothing_pending() {
    let mut g = DebounceGate::new(10);
    assert_eq!(g.tick(0), None);
    assert_eq!(g.tick(u64::MAX), None);
    assert_eq!(g.delay(), 10);
}

#[test]
fn due_time_saturates() {
    let mut g = DebounceGate::new(500);
    g.offer(7, u64::MAX - 100);
    assert_eq!(g.deadline(), Some(u64::MAX));
    assert_eq!(g.tick(u64::MAX - 1), None);
    assert_eq!(g.tick(u64::MAX), Some(7));
}

#[test]
fn zero_delay_fires_at_once() {
    let mut g = DebounceGate::new(0);
    g.offer(2, 30);
    assert_eq!(g.tick(30), Some(2));
}
