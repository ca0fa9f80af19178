use rust_planets::fp::{fp_atan2, fp_cos, fp_sin, isqrt, reduce_angle};

#[test]
fn isqrt_exact_and_floor_values() {
    assert_eq!(isqrt(0), 0);
    assert_eq!(isqrt(1), 1);
    assert_eq!(isqrt(63), 7);
    assert_eq!(isqrt(64), 8);
    assert_eq!(isqrt(65), 8);
    assert_eq!(isqrt(10_000_000_000_000_000), 100_000_000);
}

#[test]
fn sine_quadrant_points_are_exact() {
    assert_eq!(fp_sin(0), 0);
    assert_eq!(fp_sin(250_000), 1000);
    assert_eq!(fp_sin(500_000), 0);
    assert_eq!(fp_sin(750_000), -1000);
    assert_eq!(fp_sin(1_000_000), 0);
}

#[test]
fn cosine_quadrant_points_are_exact() {
    assert_eq!(fp_cos(0), 1000);
    assert_eq!(fp_cos(250_000), 0);
    assert_eq!(fp_cos(500_000), -1000);
    assert_eq!(fp_cos(750_000), 0);
}

#[test]
fn sine_eighth_turn_close_to_exact_value() {
    // sin of an eighth turn is about 0.7071; the rational curve gives 0.705.
    assert_eq!(fp_sin(125_000), 705);
}

#[test]
fn sine_is_periodic_and_odd_angles_reduce() {
    for a in [0i64, 1, 125_000, 333_333, 999_999, 1_234_567] {
        assert_eq!(fp_sin(a + 1_000_000), fp_sin(a));
        assert_eq!(fp_cos(a + 1_000_000), fp_cos(a));
    }
    assert_eq!(fp_sin(-250_000), -1000);
    assert_eq!(reduce_angle(-250_000), 750_000);
    assert_eq!(reduce_angle(-1_000_000), 0);
    assert_eq!(reduce_angle(2_250_000), 250_000);
}

#[test]
fn sine_stays_in_scale_bounds() {
    let mut a: i64 = -1_000_000;
    while a <= 1_000_000 {
        let s = fp_sin(a);
        let c = fp_cos(a);
        assert!((-1000..=1000).contains(&s));
        assert!((-1000..=1000).contains(&c));
        a += 7919;
    }
}

#[test]
fn bearing_axes_and_diagonals() {
    assert_eq!(fp_atan2(0, 0), 0);
    assert_eq!(fp_atan2(0, 5), 0);
    assert_eq!(fp_atan2(5, 0), 250_000);
    assert_eq!(fp_atan2(0, -3), 500_000);
    assert_eq!(fp_atan2(-5, 0), -250_000);
    assert_eq!(fp_atan2(1, 1), 125_000);
    assert_eq!(fp_atan2(1, -1), 375_000);
    assert_eq!(fp_atan2(-1, -1), -375_000);
    assert_eq!(fp_atan2(-1, 1), -125_000);
}
