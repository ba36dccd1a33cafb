use wellspring::fixed::fx_div;
use wellspring::fixed::fx_mul;
use wellspring::fixed::half;
use wellspring::fixed::isqrt;
use wellspring::fixed::lerp;
use wellspring::fixed::magnitude;
use wellspring::fixed::sat_add;
use wellspring::fixed::sat_neg;
use wellspring::fixed::sat_sub;
use wellspring::fixed::HALF;
use wellspring::fixed::ONE;

#[test]
fn products_keep_six_decimal_places() {
    assert_eq!(fx_mul(2 * ONE, 3 * ONE), 6 * ONE);
    assert_eq!(fx_mul(1_500_000, 1_500_000), 2_250_000);
    assert_eq!(fx_mul(ONE, -7), -7);
    assert_eq!(fx_mul(0, i64::MAX), 0);
}

#[test]
fn products_round_toward_negative_infinity() {
    assert_eq!(fx_mul(1, 1), 0);
    assert_eq!(fx_mul(-1, 1), -1);
    assert_eq!(fx_mul(3, HALF), 1);
    assert_eq!(fx_mul(-3, HALF), -2);
}

#[test]
fn products_saturate() {
    assert_eq!(fx_mul(i64::MAX, 2 * ONE), i64::MAX);
    assert_eq!(fx_mul(i64::MIN, 2 * ONE), i64::MIN);
    assert_eq!(fx_mul(i64::MIN, -2 * ONE), i64::MAX);
    assert_eq!(fx_mul(i64::MIN, i64::MIN), i64::MAX);
}

#[test]
fn quotients_keep_six_decimal_places() {
    assert_eq!(fx_div(6 * ONE, 3 * ONE), 2 * ONE);
    assert_eq!(fx_div(ONE, 3 * ONE), 333_333);
    assert_eq!(fx_div(-ONE, 3 * ONE), -333_334);
    assert_eq!(fx_div(ONE, -3 * ONE), -333_334);
    assert_eq!(fx_div(-ONE, -3 * ONE), 333_333);
    assert_eq!(fx_div(16_667, 250_000), 66_668);
}

#[test]
fn quotients_by_zero_saturate_by_sign() {
    assert_eq!(fx_div(5, 0), i64::MAX);
    assert_eq!(fx_div(-5, 0), i64::MIN);
    assert_eq!(fx_div(0, 0), 0);
}

#[test]
fn quotients_saturate() {
    assert_eq!(fx_div(i64::MAX, 1), i64::MAX);
    assert_eq!(fx_div(i64::MIN, 1), i64::MIN);
    assert_eq!(fx_div(i64::MIN, -1), i64::MAX);
}

#[test]
fn sums_saturate() {
    assert_eq!(sat_add(3, 4), 7);
    assert_eq!(sat_add(i64::MAX, 1), i64::MAX);
    assert_eq!(sat_add(i64::MIN, -1), i64::MIN);
    assert_eq!(sat_sub(3, 4), -1);
    assert_eq!(sat_sub(i64::MIN, 1), i64::MIN);
    assert_eq!(sat_sub(i64::MAX, -1), i64::MAX);
    assert_eq!(sat_neg(5), -5);
    assert_eq!(sat_neg(i64::MIN), i64::MAX);
}

#[test]
fn halves_round_down() {
    assert_eq!(half(7), 3);
    assert_eq!(half(-7), -4);
    assert_eq!(half(6_283_185), 3_141_592);
    assert_eq!(half(i64::MIN), i64::MIN / 2);
}

#[test]
fn magnitude_drops_the_sign() {
    assert_eq!(magnitude(-5), 5);
    assert_eq!(magnitude(5), 5);
    assert_eq!(magnitude(0), 0);
    assert_eq!(magnitude(i64::MIN), 1u64 << 63);
}

#[test]
fn lerp_is_exact_at_both_ends() {
    assert_eq!(lerp(3 * ONE, 11 * ONE, 0), 3 * ONE);
    assert_eq!(lerp(3 * ONE, 11 * ONE, ONE), 11 * ONE);
    assert_eq!(lerp(i64::MIN, i64::MAX, 0), i64::MIN);
    assert_eq!(lerp(i64::MIN, i64::MAX, ONE), i64::MAX);
    assert_eq!(lerp(i64::MAX, i64::MIN, ONE), i64::MIN);
}

#[test]
fn lerp_between_the_ends() {
    assert_eq!(lerp(3 * ONE, 11 * ONE, HALF), 7 * ONE);
    assert_eq!(lerp(10 * ONE, 100 * ONE, 250_000), 32_500_000);
    assert_eq!(lerp(0, -300 * ONE, 100_000), -30 * ONE);
    assert_eq!(lerp(0, 3, HALF), 1);
    assert_eq!(lerp(0, -3, HALF), -2);
}

#[test]
fn lerp_of_equal_ends_is_constant() {
    for f in [0, 1, HALF, ONE - 1, ONE, -5 * ONE, i64::MAX, i64::MIN] {
        assert_eq!(lerp(42, 42, f), 42);
        assert_eq!(lerp(i64::MIN, i64::MIN, f), i64::MIN);
    }
}

#[test]
fn lerp_beyond_the_ends_saturates() {
    assert_eq!(lerp(0, ONE, 2 * ONE), 2 * ONE);
    assert_eq!(lerp(0, ONE, -ONE), -ONE);
    assert_eq!(lerp(0, i64::MAX, 2 * ONE), i64::MAX);
    assert_eq!(lerp(i64::MAX, i64::MIN, i64::MIN), i64::MAX);
}

#[test]
fn isqrt_is_the_largest_root() {
    assert_eq!(isqrt(0), 0);
    assert_eq!(isqrt(1), 1);
    assert_eq!(isqrt(3), 1);
    assert_eq!(isqrt(4), 2);
    assert_eq!(isqrt(24), 4);
    assert_eq!(isqrt(25), 5);
    assert_eq!(isqrt(1_000_000_000_000), 1_000_000);
    assert_eq!(isqrt(999_999_999_999), 999_999);
    assert_eq!(isqrt(u128::MAX), u64::MAX);
    assert_eq!(isqrt((u64::MAX as u128) * (u64::MAX as u128)), u64::MAX);
    assert_eq!(isqrt((u64::MAX as u128) * (u64::MAX as u128) - 1), u64::MAX - 1);
}
