use netdisk_monitor::metrics::{CounterSample, MetricsEngine, MetricsSnapshot};

const SECOND: u64 = 1_000_000_000;

#[test]
fn counter_reset_does_not_create_negative_rate() {
    let mut engine = MetricsEngine::default();
    engine.update(CounterSample::new(1_000, 2_000, 500, 800), SECOND);

    let snapshot = engine.update(CounterSample::new(100, 100, 10, 10), SECOND);

    assert_eq!(snapshot.network_down_bps, 0);
}

#[test]
fn reset_clears_session_totals() {
    let mut engine = MetricsEngine::default();
    engine.update(CounterSample::new(1_000, 2_000, 500, 800), SECOND);
    engine.update(CounterSample::new(1_500, 2_400, 800, 1_000), SECOND);

    engine.reset_session_totals();

    assert_eq!(engine.snapshot().session_network_down, 0);
}

#[test]
fn first_update_only_records_the_sample() {
    let mut engine = MetricsEngine::default();
    let snapshot = engine.update(CounterSample::new(1_000, 2_000, 500, 800), SECOND);
    assert_eq!(snapshot.network_down_bps, 0);
    assert_eq!(snapshot.network_up_bps, 0);
    assert_eq!(snapshot.disk_read_bps, 0);
    assert_eq!(snapshot.disk_write_bps, 0);
    assert_eq!(snapshot.session_network_down, 0);
    assert_eq!(snapshot.session_disk_write, 0);
    assert_eq!(snapshot.session_duration_secs, 1);
}

#[test]
fn rates_and_totals_follow_counter_growth() {
    let mut engine = MetricsEngine::default();
    engine.update(CounterSample::new(1_000, 2_000, 500, 800), SECOND);
    let snapshot = engine.update(CounterSample::new(1_500, 2_400, 800, 1_000), 2 * SECOND);
    assert_eq!(
        snapshot,
        MetricsSnapshot {
            network_down_bps: 250,
            network_up_bps: 200,
            disk_read_bps: 150,
            disk_write_bps: 100,
            session_network_down: 500,
            session_network_up: 400,
            session_disk_read: 300,
            session_disk_write: 200,
            session_duration_secs: 3,
        }
    );
    assert_eq!(engine.snapshot(), snapshot);
}

#[test]
fn rate_rounds_down_to_whole_bytes_per_second() {
    let mut engine = MetricsEngine::default();
    engine.update(CounterSample::new(0, 0, 0, 0), SECOND);
    // 1000 bytes over 1.5 s is 666.67 bytes per second.
    let snapshot = engine.update(CounterSample::new(1_000, 0, 0, 0), 1_500_000_000);
    assert_eq!(snapshot.network_down_bps, 666);
}

#[test]
fn zero_elapsed_time_scales_growth_by_two_to_the_fifty_second() {
    let mut engine = MetricsEngine::default();
    engine.update(CounterSample::new(0, 0, 0, 0), SECOND);
    let snapshot = engine.update(CounterSample::new(3, 0, 4_096, u64::MAX), 0);
    // 3 bytes over 2^-52 s.
    assert_eq!(snapshot.network_down_bps, 13_510_798_882_111_488);
    assert_eq!(snapshot.network_up_bps, 0);
    // 4096 * 2^52 = 2^64 no longer fits: capped.
    assert_eq!(snapshot.disk_read_bps, u64::MAX);
    assert_eq!(snapshot.disk_write_bps, u64::MAX);
    assert_eq!(snapshot.session_network_down, 3);
    assert_eq!(snapshot.session_duration_secs, 1);
}

#[test]
fn session_clock_rounds_ticks_to_milliseconds() {
    let mut engine = MetricsEngine::default();
    // 999.5 ms rounds up to 1000 ms.
    let snapshot = engine.update(CounterSample::default(), 999_500_000);
    assert_eq!(snapshot.session_duration_secs, 1);
    let mut engine = MetricsEngine::default();
    // 999.4999 ms rounds down to 999 ms.
    let snapshot = engine.update(CounterSample::default(), 999_499_999);
    assert_eq!(snapshot.session_duration_secs, 0);
}

#[test]
fn session_total_is_counter_growth_over_many_ticks() {
    let mut engine = MetricsEngine::default();
    engine.update(CounterSample::new(100, 0, 0, 0), SECOND);
    for step in 1..=10u64 {
        engine.update(CounterSample::new(100 + step * 7, 0, 0, 0), SECOND);
    }
    assert_eq!(engine.snapshot().session_network_down, 70);
    assert_eq!(engine.snapshot().network_down_bps, 7);
    assert_eq!(engine.snapshot().session_duration_secs, 11);
}

#[test]
fn reset_keeps_rates_and_measures_from_the_last_sample() {
    let mut engine = MetricsEngine::default();
    engine.update(CounterSample::new(1_000, 0, 0, 0), SECOND);
    engine.update(CounterSample::new(1_500, 0, 0, 0), SECOND);
    engine.reset_session_totals();
    let after_reset = engine.snapshot();
    assert_eq!(after_reset.network_down_bps, 500);
    assert_eq!(after_reset.session_duration_secs, 0);
    let snapshot = engine.update(CounterSample::new(1_600, 0, 0, 0), SECOND);
    assert_eq!(snapshot.session_network_down, 100);
    assert_eq!(snapshot.session_duration_secs, 1);
}

#[test]
fn counter_going_back_leaves_session_total_unchanged() {
    let mut engine = MetricsEngine::default();
    engine.update(CounterSample::new(0, 0, 0, 0), SECOND);
    engine.update(CounterSample::new(0, 0, 400, 0), SECOND);
    let snapshot = engine.update(CounterSample::new(0, 0, 50, 0), SECOND);
    assert_eq!(snapshot.disk_read_bps, 0);
    assert_eq!(snapshot.session_disk_read, 400);
}

#[test]
fn default_values_are_zero() {
    assert_eq!(CounterSample::default(), CounterSample::new(0, 0, 0, 0));
    let engine = MetricsEngine::default();
    assert_eq!(engine.snapshot(), MetricsSnapshot::default());
    assert_eq!(engine.snapshot().session_network_up, 0);
}

#[test]
fn can_update_detects_overflowing_totals() {
    let mut engine = MetricsEngine::default();
    assert!(engine.can_update(CounterSample::new(0, 0, 0, 0), SECOND));
    engine.update(CounterSample::new(0, 0, 0, 0), SECOND);
    assert!(engine.can_update(CounterSample::new(u64::MAX, 0, 0, 0), SECOND));
    engine.update(CounterSample::new(u64::MAX, 0, 0, 0), SECOND);
    engine.update(CounterSample::new(0, 0, 0, 0), SECOND);
    // Another u64::MAX of growth would overflow the session total.
    assert!(!engine.can_update(CounterSample::new(u64::MAX, 0, 0, 0), SECOND));
    assert!(engine.can_update(CounterSample::new(0, 5, 0, 0), SECOND));
}
