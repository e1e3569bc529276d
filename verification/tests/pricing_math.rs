use price_oracle::{calculate_percentage_change_bps, calculate_percentage_difference_bps, is_stale, is_valid};

#[test]
fn test_calculate_percentage_change_bps_for_increase() {
    assert_eq!(calculate_percentage_change_bps(1_000_000, 1_200_000), Some(2_000));
}

#[test]
fn test_calculate_percentage_change_bps_for_drop() {
    assert_eq!(calculate_percentage_change_bps(1_000_000, 800_000), Some(-2_000));
}

#[test]
fn test_calculate_percentage_difference_bps_is_absolute() {
    assert_eq!(calculate_percentage_difference_bps(1_000_000, 800_000), Some(2_000));
    assert_eq!(calculate_percentage_difference_bps(1_000_000, 1_250_000), Some(2_500));
}

#[test]
fn test_calculate_percentage_change_returns_none_for_zero_baseline() {
    assert_eq!(calculate_percentage_change_bps(0, 1_000_000), None);
    assert_eq!(calculate_percentage_difference_bps(0, 1_000_000), None);
}

#[test]
fn test_is_stale_with_mocked_ledger_time() {
    let current_time = 2000u64;
    let stored_timestamp = 1000u64;
    let ttl = 500u64;

    assert!(is_stale(current_time, stored_timestamp, ttl), "Price should be stale");
    assert!(!is_stale(1400u64, 1000u64, 500u64), "Price should not be stale when within TTL");
    assert!(is_stale(1500u64, 1000u64, 500u64), "Price should be stale at expiration boundary");
}

#[test]
fn percentage_change_rounds_toward_zero() {
    // 3 -> 4 is +3333.33 bps; 3 -> 2 is -3333.33 bps.
    assert_eq!(calculate_percentage_change_bps(3, 4), Some(3_333));
    assert_eq!(calculate_percentage_change_bps(3, 2), Some(-3_333));
    // A negative baseline: -4 -> -3 is (1 * 10000) / -4 = -2500.
    assert_eq!(calculate_percentage_change_bps(-4, -3), Some(-2_500));
    assert_eq!(calculate_percentage_change_bps(7, 7), Some(0));
}

#[test]
fn percentage_change_none_on_overflow() {
    // The difference fits but scaling it by 10_000 does not.
    assert_eq!(calculate_percentage_change_bps(1, i128::MAX), None);
    // The difference itself overflows.
    assert_eq!(calculate_percentage_change_bps(-1, i128::MAX), None);
    assert_eq!(calculate_percentage_difference_bps(1, i128::MAX), None);
    // The largest difference that still scales.
    let d = i128::MAX / 10_000;
    assert_eq!(calculate_percentage_change_bps(1, 1 + d), Some(d * 10_000));
    assert_eq!(calculate_percentage_change_bps(-1, -1 - d), Some(d * 10_000));
    assert_eq!(calculate_percentage_difference_bps(1, 1 - d), Some(d * 10_000));
}

#[test]
fn percentage_difference_is_abs_of_change() {
    for (o, n) in [(100i128, 150i128), (100, 50), (-100, 50), (9, 1), (1, 9)] {
        let c = calculate_percentage_change_bps(o, n).unwrap();
        assert_eq!(calculate_percentage_difference_bps(o, n), Some(c.abs()));
    }
}

#[test]
fn validity_is_strict_positivity() {
    assert!(is_valid(1));
    assert!(!is_valid(0));
    assert!(!is_valid(-5));
}

#[test]
fn staleness_expiry_saturates() {
    // stored + ttl overflows u64, so the expiry is u64::MAX.
    assert!(!is_stale(u64::MAX - 1, u64::MAX - 5, 100));
    assert!(is_stale(u64::MAX, u64::MAX - 5, 100));
    // A zero ttl is stale immediately.
    assert!(is_stale(1000, 1000, 0));
}

#[test]
fn staleness_persists_as_time_advances() {
    assert!(is_stale(1500, 1000, 500));
    assert!(is_stale(1501, 1000, 500));
    assert!(is_stale(u64::MAX, 1000, 500));
}
