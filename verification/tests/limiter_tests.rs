use globalping_probe::probe::limiter::{MeasurementLimiter, MAX_CONCURRENT};

// A slot taken with `try_acquire` is held until `release` gives it back.

#[test]
fn new_limiter_has_correct_capacity() {
    let lim = MeasurementLimiter::with_capacity(3);
    assert_eq!(lim.capacity(), 3);
    assert_eq!(lim.in_flight(), 0);
}

#[test]
fn acquiring_slots_reduces_available() {
    let mut lim = MeasurementLimiter::with_capacity(3);
    assert!(lim.try_acquire());
    assert_eq!(lim.in_flight(), 1);
    assert!(lim.try_acquire());
    assert_eq!(lim.in_flight(), 2);
    assert!(lim.try_acquire());
    assert_eq!(lim.in_flight(), 3);
}

#[test]
fn try_acquire_returns_none_when_full() {
    let mut lim = MeasurementLimiter::with_capacity(2);
    assert!(lim.try_acquire());
    assert!(lim.try_acquire());
    assert!(!lim.try_acquire(), "should be at capacity");
}

#[test]
fn dropping_slot_restores_capacity() {
    let mut lim = MeasurementLimiter::with_capacity(1);
    assert!(lim.try_acquire());
    assert_eq!(lim.in_flight(), 1);
    assert!(!lim.try_acquire());
    lim.release();
    assert_eq!(lim.in_flight(), 0);
    assert!(lim.try_acquire(), "slot should be free again");
}

#[test]
fn default_capacity_is_max_concurrent() {
    let lim = MeasurementLimiter::new();
    assert_eq!(lim.capacity(), MAX_CONCURRENT);
}

#[test]
fn in_flight_saturates_at_zero() {
    let mut lim = MeasurementLimiter::with_capacity(2);
    assert_eq!(lim.in_flight(), 0);
    lim.release();
    assert_eq!(lim.in_flight(), 0);
}

#[test]
fn limiter_default_capacity_is_three() {
    let lim = MeasurementLimiter::new();
    assert_eq!(lim.capacity(), MAX_CONCURRENT);
    assert_eq!(lim.capacity(), 3);
}

#[test]
fn limiter_starts_with_zero_in_flight() {
    let lim = MeasurementLimiter::new();
    assert_eq!(lim.in_flight(), 0);
}

#[test]
fn limiter_tracks_in_flight_count() {
    let mut lim = MeasurementLimiter::with_capacity(3);
    assert!(lim.try_acquire());
    assert_eq!(lim.in_flight(), 1);
    assert!(lim.try_acquire());
    assert_eq!(lim.in_flight(), 2);
    assert!(lim.try_acquire());
    assert_eq!(lim.in_flight(), 3);
}

#[test]
fn limiter_returns_none_when_at_capacity() {
    let mut lim = MeasurementLimiter::with_capacity(2);
    assert!(lim.try_acquire());
    assert!(lim.try_acquire());
    assert!(!lim.try_acquire(), "limiter must reject at capacity");
}

#[test]
fn limiter_releases_slot_on_drop() {
    let mut lim = MeasurementLimiter::with_capacity(1);
    assert!(lim.try_acquire());
    assert!(!lim.try_acquire());
    lim.release();
    assert!(lim.try_acquire());
    lim.release();
    assert_eq!(lim.in_flight(), 0);
}

#[test]
fn limiter_slot_can_be_cycled_many_times() {
    let mut lim = MeasurementLimiter::with_capacity(1);
    for i in 0..20 {
        assert!(lim.try_acquire(), "failed at iteration {i}");
        assert_eq!(lim.in_flight(), 1);
        lim.release();
        assert_eq!(lim.in_flight(), 0);
    }
}

#[test]
fn limiter_multiple_slots_all_released_together() {
    let mut lim = MeasurementLimiter::with_capacity(3);
    assert!(lim.try_acquire());
    assert!(lim.try_acquire());
    assert!(lim.try_acquire());
    assert_eq!(lim.in_flight(), 3);
    lim.release();
    lim.release();
    lim.release();
    assert_eq!(lim.in_flight(), 0);
    assert!(lim.try_acquire());
}

#[test]
fn idle_only_without_slots_taken() {
    let mut lim = MeasurementLimiter::with_capacity(2);
    assert!(lim.is_idle());
    assert!(lim.try_acquire());
    assert!(!lim.is_idle());
    lim.release();
    assert!(lim.is_idle());
}

#[test]
fn zero_capacity_grants_nothing() {
    let mut lim = MeasurementLimiter::with_capacity(0);
    assert!(!lim.try_acquire());
    assert_eq!(lim.in_flight(), 0);
}
