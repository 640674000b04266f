//! Exact-value checks of the fixed-point arithmetic kernel.
use scamble::fixed::{
    fadd, favg2, fdiv, fdivn, finterp, flerp, fmul, fmul_div, fnorm, fnorm_sqr, SAT_MAX, SCALE,
};

#[test]
fn multiply_whole_units() {
    assert_eq!(fmul(2 * SCALE, 3 * SCALE), 6 * SCALE);
    assert_eq!(fmul(-2 * SCALE, 3 * SCALE), -6 * SCALE);
    assert_eq!(fmul(-2 * SCALE, -3 * SCALE), 6 * SCALE);
}

#[test]
fn multiply_truncates_toward_zero() {
    // 3 * 3 = 9 quanta-squared, far below one quantum after rescaling.
    assert_eq!(fmul(3, 3), 0);
    assert_eq!(fmul(-3, 3), 0);
    // one half times one half is one quarter, exactly representable
    assert_eq!(fmul(SCALE / 2, SCALE / 2), SCALE / 4);
}

#[test]
fn addition_saturates() {
    assert_eq!(fadd(SAT_MAX, SAT_MAX), SAT_MAX);
    assert_eq!(fadd(-SAT_MAX, -SAT_MAX), -SAT_MAX);
    assert_eq!(fadd(5, 7), 12);
}

#[test]
fn division_is_fixed_point() {
    assert_eq!(fdiv(SCALE, 2 * SCALE), SCALE / 2);
    assert_eq!(fdiv(-SCALE, 2 * SCALE), -SCALE / 2);
    assert_eq!(fdiv(6 * SCALE, 3 * SCALE), 2 * SCALE);
}

#[test]
fn division_by_count_truncates() {
    assert_eq!(fdivn(7, 2), 3);
    assert_eq!(fdivn(-7, 2), -3);
}

#[test]
fn average_truncates_toward_zero() {
    assert_eq!(favg2(3, 5), 4);
    assert_eq!(favg2(-3, 5), 1);
    assert_eq!(favg2(-5, 3), -1);
}

#[test]
fn norm_of_pythagorean_bin() {
    // a 3-4-5 triangle in whole units
    assert_eq!(fnorm(3 * SCALE, 4 * SCALE), 5 * SCALE);
    assert_eq!(fnorm(-3 * SCALE, 4 * SCALE), 5 * SCALE);
    assert_eq!(fnorm(0, 0), 0);
    assert_eq!(
        fnorm_sqr(3, -4),
        (3i64 as i128 * 3 + 4i128 * 4) as u128
    );
}

#[test]
fn crossfade_endpoints_and_midpoint() {
    // at the first sample the old segment alone is heard
    assert_eq!(finterp(100, -700, 0, 11), 100);
    // at the last sample the new segment alone is heard
    assert_eq!(finterp(100, -700, 10, 11), -700);
    // halfway, the exact mean
    assert_eq!(finterp(100, 200, 5, 11), 150);
}

#[test]
fn lerp_moves_partway() {
    // half of the distance from 100 to 200
    assert_eq!(flerp(100, 200, SCALE / 2), 150);
    // a zero factor stays put, a full factor arrives
    assert_eq!(flerp(100, 200, 0), 100);
    assert_eq!(flerp(100, 200, SCALE), 200);
}

#[test]
fn rational_scaling_never_grows() {
    assert_eq!(fmul_div(4096, 4096, 4096 + 7 * 4095), 4096 * 4096 / (4096 + 7 * 4095));
    assert_eq!(fmul_div(-80, 1, 8), -10);
    assert_eq!(fmul_div(SAT_MAX, 1, 1), SAT_MAX);
}
