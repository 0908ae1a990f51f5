use wasm_worms::fixed::{
    count_down, div_toward_zero, isqrt, mul_div, sat_add, sat_neg, sat_sub, saturate, FIXED_MAX,
};

#[test]
fn saturate_pins_to_the_symmetric_range() {
    assert_eq!(saturate(0), 0);
    assert_eq!(saturate(-5), -5);
    assert_eq!(saturate(i128::MAX), FIXED_MAX);
    assert_eq!(saturate(i128::MIN), -FIXED_MAX);
    assert_eq!(saturate(i64::MIN as i128), -FIXED_MAX);
    assert_eq!(saturate(FIXED_MAX as i128), FIXED_MAX);
}

#[test]
fn saturating_sums_and_differences() {
    assert_eq!(sat_add(2, 3), 5);
    assert_eq!(sat_add(i64::MAX, 1), FIXED_MAX);
    assert_eq!(sat_add(i64::MIN, -1), -FIXED_MAX);
    assert_eq!(sat_sub(2, 3), -1);
    assert_eq!(sat_sub(i64::MIN, 1), -FIXED_MAX);
    assert_eq!(sat_sub(i64::MAX, -1), FIXED_MAX);
    assert_eq!(sat_neg(7), -7);
    assert_eq!(sat_neg(i64::MIN), FIXED_MAX);
}

#[test]
fn quotients_round_toward_zero() {
    assert_eq!(div_toward_zero(7, 2), 3);
    assert_eq!(div_toward_zero(-7, 2), -3);
    assert_eq!(div_toward_zero(-1, 1000), 0);
    assert_eq!(div_toward_zero(0, 5), 0);
    assert_eq!(mul_div(-7, 1, 2), -3);
    assert_eq!(mul_div(7, -1, 2), -3);
    assert_eq!(mul_div(-7, -1, 2), 3);
}

#[test]
fn products_are_taken_before_the_division() {
    assert_eq!(mul_div(600_000, 500, 1000), 300_000);
    assert_eq!(mul_div(i64::MAX, 1000, 1000), i64::MAX);
    assert_eq!(mul_div(i64::MAX, i64::MAX, 1), FIXED_MAX);
    assert_eq!(mul_div(i64::MIN, i64::MAX, 1), -FIXED_MAX);
    assert_eq!(mul_div(i64::MIN, i64::MIN, i64::MAX), FIXED_MAX);
    assert_eq!(mul_div(1, 1, i64::MAX), 0);
}

#[test]
fn integer_square_roots_round_down() {
    assert_eq!(isqrt(0), 0);
    assert_eq!(isqrt(1), 1);
    assert_eq!(isqrt(3), 1);
    assert_eq!(isqrt(4), 2);
    assert_eq!(isqrt(15), 3);
    assert_eq!(isqrt(16), 4);
    assert_eq!(isqrt(2_500_000_000), 50_000);
    assert_eq!(isqrt(2_499_999_999), 49_999);
    assert_eq!(isqrt((1u128 << 126) - 1), (1u64 << 63) - 1);
    assert_eq!(isqrt(1u128 << 126), 1u64 << 63);
    assert_eq!(isqrt(u128::MAX), u64::MAX);
}

#[test]
fn times_count_down_to_zero() {
    assert_eq!(count_down(2_000_000, 500_000), 1_500_000);
    assert_eq!(count_down(10, 10), 0);
    assert_eq!(count_down(10, 11), 0);
    assert_eq!(count_down(0, 5), 0);
    assert_eq!(count_down(u64::MAX, u32::MAX), u64::MAX - u32::MAX as u64);
}
