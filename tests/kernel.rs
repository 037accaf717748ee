use sph_fluid::kernel::{
    density_weight_of, div_toward_zero_of, isqrt, pressure_from, sqrt_floor_of, POLY6_PEAK,
};

#[test]
fn isqrt_rounds_down() {
    assert_eq!(isqrt(0), 0);
    assert_eq!(isqrt(1), 1);
    assert_eq!(isqrt(15), 3);
    assert_eq!(isqrt(16), 4);
    assert_eq!(isqrt(99_999_999), 9_999);
    assert_eq!(isqrt(100_000_000), 10_000);
    assert_eq!(isqrt(9_000_000_000_000_000_000), 3_000_000_000);
    assert_eq!(sqrt_floor_of(50), 7);
}

#[test]
fn density_weight_values() {
    assert_eq!(density_weight_of(0), POLY6_PEAK);
    assert_eq!(density_weight_of(25_000_000), 1_074_295);
    assert_eq!(density_weight_of(99_999_999), 0);
}

#[test]
fn pressure_is_linear_in_density() {
    assert_eq!(pressure_from(8_000_000), 0);
    assert_eq!(pressure_from(9_000_000), 3_000_000);
    assert_eq!(pressure_from(POLY6_PEAK), -18_270_423);
}

#[test]
fn division_rounds_toward_zero() {
    assert_eq!(div_toward_zero_of(7, 2), 3);
    assert_eq!(div_toward_zero_of(-7, 2), -3);
    assert_eq!(div_toward_zero_of(-1, 10), 0);
}
