use iot_sim::time::{epoch_millis, epoch_millis_of, saturating_epoch_millis, signed_clock_millis};

#[test]
fn epoch_millis_reads_a_recent_system_clock() {
    // 2020-01-01T00:00:00Z
    assert!(epoch_millis() > 1_577_836_800_000);
}

#[test]
fn epoch_millis_saturates_at_the_signed_maximum() {
    assert_eq!(saturating_epoch_millis(1_000), 1_000);
    assert_eq!(saturating_epoch_millis(i64::MAX as u128), i64::MAX);
    assert_eq!(saturating_epoch_millis(u128::MAX), i64::MAX);
}

#[test]
fn a_reading_before_the_epoch_gives_zero() {
    assert_eq!(epoch_millis_of(None), 0);
    assert_eq!(epoch_millis_of(Some(1_700_000_000_123)), 1_700_000_000_123);
    assert_eq!(epoch_millis_of(Some(u128::MAX)), i64::MAX);
}

#[test]
fn signed_clock_readings_go_below_zero_before_the_epoch() {
    assert_eq!(signed_clock_millis(Some(5), None), 5);
    assert_eq!(signed_clock_millis(None, Some(5)), -5);
    assert_eq!(signed_clock_millis(None, None), 0);
    assert_eq!(signed_clock_millis(None, Some(u128::MAX)), -i64::MAX);
    assert_eq!(signed_clock_millis(Some(u128::MAX), Some(3)), i64::MAX);
}
