use qpx::fixed::{add_clamped, advance, clamp_wide, sub_clamped, UNIT, UNIT_PER_SECOND};

#[test]
fn scales() {
    assert_eq!(UNIT, 1_000_000);
    assert_eq!(UNIT_PER_SECOND, 1_000);
    // a speed of one unit per second, for a thousand milliseconds, is one unit
    assert_eq!(advance(0, UNIT_PER_SECOND, 1000), UNIT);
}

#[test]
fn clamp_keeps_what_fits() {
    assert_eq!(clamp_wide(0), 0);
    assert_eq!(clamp_wide(-17), -17);
    assert_eq!(clamp_wide(i64::MAX as i128), i64::MAX);
    assert_eq!(clamp_wide(i64::MIN as i128), i64::MIN);
}

#[test]
fn clamp_stops_what_does_not_fit() {
    assert_eq!(clamp_wide(i64::MAX as i128 + 1), i64::MAX);
    assert_eq!(clamp_wide(i64::MIN as i128 - 1), i64::MIN);
    assert_eq!(clamp_wide(i128::MAX), i64::MAX);
    assert_eq!(clamp_wide(i128::MIN), i64::MIN);
}

#[test]
fn sums_and_differences() {
    assert_eq!(add_clamped(2, 3), 5);
    assert_eq!(add_clamped(i64::MAX, 1), i64::MAX);
    assert_eq!(add_clamped(i64::MIN, -1), i64::MIN);
    assert_eq!(add_clamped(i64::MAX, i64::MIN), -1);
    assert_eq!(sub_clamped(2, 3), -1);
    assert_eq!(sub_clamped(i64::MIN, 1), i64::MIN);
    assert_eq!(sub_clamped(i64::MAX, -1), i64::MAX);
    assert_eq!(sub_clamped(0, i64::MIN), i64::MAX);
}

#[test]
fn advance_is_base_plus_rate_times_step() {
    assert_eq!(advance(10, 3, 4), 22);
    assert_eq!(advance(10, -3, 4), -2);
    assert_eq!(advance(10, 3, 0), 10);
    assert_eq!(advance(0, i64::MAX, u32::MAX), i64::MAX);
    assert_eq!(advance(0, i64::MIN, u32::MAX), i64::MIN);
    assert_eq!(advance(i64::MIN, i64::MAX, 1), -1);
}
