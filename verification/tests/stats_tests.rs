use globalping_probe::probe::client::{DRAIN_TIMEOUT_SECS, MEASUREMENT_TIMEOUT_SECS, STATS_INTERVAL_SECS};
use globalping_probe::probe::stats::MeasurementStats;
use std::time::Duration;

#[test]
fn stats_initial_counts_are_zero() {
    let s = MeasurementStats::new();
    assert_eq!(s.started(), 0);
    assert_eq!(s.finished(), 0);
}

#[test]
fn stats_record_start_increments_started_only() {
    let mut s = MeasurementStats::new();
    s.record_start();
    assert_eq!(s.started(), 1);
    assert_eq!(s.finished(), 0);
}

#[test]
fn stats_record_finish_increments_finished_only() {
    let mut s = MeasurementStats::new();
    s.record_finish();
    assert_eq!(s.started(), 0);
    assert_eq!(s.finished(), 1);
}

#[test]
fn stats_take_returns_current_and_resets() {
    let mut s = MeasurementStats::new();
    s.record_start();
    s.record_start();
    s.record_finish();
    let (started, finished) = s.take();
    assert_eq!(started, 2);
    assert_eq!(finished, 1);
    assert_eq!(s.started(), 0);
    assert_eq!(s.finished(), 0);
}

#[test]
fn stats_take_on_zero_returns_zeros() {
    let mut s = MeasurementStats::new();
    assert_eq!(s.take(), (0, 0));
}

#[test]
fn stats_multiple_takes_are_independent() {
    let mut s = MeasurementStats::new();
    s.record_start();
    let first = s.take();
    assert_eq!(first, (1, 0));

    s.record_start();
    s.record_finish();
    let second = s.take();
    assert_eq!(second, (1, 1));

    assert_eq!(s.take(), (0, 0));
}

#[test]
fn stats_start_and_finish_independence() {
    let mut s = MeasurementStats::new();
    for _ in 0..5 {
        s.record_start();
    }
    for _ in 0..3 {
        s.record_finish();
    }
    assert_eq!(s.started(), 5);
    assert_eq!(s.finished(), 3);
}

#[test]
fn measurement_timeout_is_thirty_seconds() {
    assert_eq!(Duration::from_secs(MEASUREMENT_TIMEOUT_SECS), Duration::from_secs(30),
        "hard measurement timeout must be 30 s");
}

#[test]
fn stats_interval_is_sixty_seconds() {
    assert_eq!(Duration::from_secs(STATS_INTERVAL_SECS), Duration::from_secs(60),
        "stats flush interval must be 60 s");
}

#[test]
fn in_progress_flag_does_not_affect_stats_shape() {
    let mut s = MeasurementStats::new();
    s.record_start();
    s.record_finish();
    s.record_start();
    s.record_finish();
    let (started, finished) = s.take();
    assert_eq!(started, 2);
    assert_eq!(finished, 2);
}

#[test]
fn drain_timeout_constant_is_reasonable() {
    let drain = Duration::from_secs(DRAIN_TIMEOUT_SECS);
    assert!(drain >= Duration::from_secs(1),
        "drain timeout must be at least 1 s to allow measurements to finish");
    assert!(drain <= Duration::from_secs(30),
        "drain timeout must not exceed 30 s to avoid slow shutdowns");
}

#[test]
fn drain_timeout_is_five_seconds() {
    assert_eq!(Duration::from_secs(DRAIN_TIMEOUT_SECS), Duration::from_secs(5));
}
