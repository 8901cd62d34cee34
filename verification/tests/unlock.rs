use stellar_stream::math::calculate_unlocked;

#[test]
fn unlocked_scenario() {
    // amount=1000, start=0, cliff=100, end=1000
    assert_eq!(calculate_unlocked(1000, 0, 100, 1000, 50), 0);
    assert_eq!(calculate_unlocked(1000, 0, 100, 1000, 100), 100);
    assert_eq!(calculate_unlocked(1000, 0, 100, 1000, 550), 550);
    assert_eq!(calculate_unlocked(1000, 0, 100, 1000, 1000), 1000);
    assert_eq!(calculate_unlocked(1000, 0, 100, 1000, 2000), 1000);
}

#[test]
fn unlocked_before_cliff_is_zero() {
    assert_eq!(calculate_unlocked(500, 10, 60, 110, 9), 0);
    assert_eq!(calculate_unlocked(500, 10, 60, 110, 59), 0);
}

#[test]
fn unlocked_at_or_after_end_is_amount() {
    assert_eq!(calculate_unlocked(500, 10, 60, 110, 110), 500);
    assert_eq!(calculate_unlocked(500, 10, 60, 110, u64::MAX), 500);
}

#[test]
fn unlocked_measures_elapsed_from_start_not_cliff() {
    // cliff only gates when unlocking begins, not the rate
    assert_eq!(calculate_unlocked(900, 100, 400, 1000, 400), 300);
}

#[test]
fn unlocked_rounds_down() {
    // 7 * 1 / 3 = 2 (truncated)
    assert_eq!(calculate_unlocked(7, 0, 0, 3, 1), 2);
}

#[test]
fn unlocked_is_bounded_and_monotonic() {
    let mut last = 0i128;
    for now in 0..=120u64 {
        let u = calculate_unlocked(997, 10, 35, 110, now);
        assert!(0 <= u && u <= 997);
        assert!(u >= last);
        last = u;
    }
}
