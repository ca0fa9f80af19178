use rust_planets::fp::fp_atan2;
use rust_planets::orbit::EllipticalOrbit;

fn scenario_body() -> EllipticalOrbit {
    // focus at the origin, semi-axes 10 and 6 units, no tilt, period 100,
    // no phase offset
    EllipticalOrbit::new(7, 0, 0, 10, 6, 0, 100, 0)
}

#[test]
fn axes_are_normalized_on_construction() {
    let swapped = EllipticalOrbit::new(7, 0, 0, 6, 10, 0, 100, 0);
    assert_eq!(swapped.major_axis, 10);
    assert_eq!(swapped.minor_axis, 6);
}

#[test]
fn swapped_axes_give_identical_geometry() {
    let a = EllipticalOrbit::new(3, 2_000_000, -1_000_000, 12, 5, 125_000, 60, 40_000);
    let b = EllipticalOrbit::new(3, 2_000_000, -1_000_000, 5, 12, 125_000, 60, 40_000);
    assert_eq!(a.major_axis, b.major_axis);
    assert_eq!(a.minor_axis, b.minor_axis);
    assert_eq!(a.center_x, b.center_x);
    assert_eq!(a.center_y, b.center_y);
    assert_eq!(a.eccentricity, b.eccentricity);
    assert_eq!(a.x, b.x);
    assert_eq!(a.y, b.y);
    assert_eq!(a.dir_to_focus, b.dir_to_focus);
    for i in [0usize, 1, 250, 500, 999] {
        assert_eq!(a.orbit_point(i), b.orbit_point(i));
    }
}

#[test]
fn eccentricity_of_the_scenario_body_is_exact() {
    // sqrt(10^2 - 6^2) / 10 = 0.8
    let body = scenario_body();
    assert_eq!(body.eccentricity, 800_000);
}

#[test]
fn eccentricity_zero_exactly_for_circles() {
    let circle = EllipticalOrbit::new(1, 0, 0, 9, 9, 0, 50, 0);
    assert_eq!(circle.eccentricity, 0);
    let near_circle = EllipticalOrbit::new(1, 0, 0, 9, 8, 0, 50, 0);
    assert!(near_circle.eccentricity > 0);
    assert!(near_circle.eccentricity < 1_000_000);
    let narrow = EllipticalOrbit::new(1, 0, 0, 7, 3, 0, 50, 0);
    assert_eq!(narrow.eccentricity, 6 * 1_000_000 / 7);
}

#[test]
fn scenario_center_lies_on_the_major_axis() {
    // focus distance sqrt(100 - 36) = 8 units along the untilted major axis
    let body = scenario_body();
    assert_eq!(body.center_x, 8_000_000);
    assert_eq!(body.center_y, 0);
}

#[test]
fn scenario_position_at_time_zero() {
    // theta = 0: x = major + center_x, y = center_y
    let mut body = scenario_body();
    body.update(0);
    assert_eq!(body.x, 18_000_000);
    assert_eq!(body.y, 0);
}

#[test]
fn scenario_position_at_quarter_period() {
    // elapsed 25 of period 100: theta is a quarter turn
    let mut body = scenario_body();
    body.update(25);
    assert_eq!(body.x, 8_000_000);
    assert_eq!(body.y, 6_000_000);
}

#[test]
fn path_has_exactly_thousand_samples_matching_positions() {
    let body = scenario_body();
    assert_eq!(body.orbit_length, 1000);
    for i in [0usize, 1, 13, 250, 500, 750, 999] {
        let sample = body.orbit_point(i);
        let direct = body.get_xy(i as i64 * 1000);
        assert_eq!(sample, direct);
    }
    assert_eq!(body.orbit_point(0), (18_000_000, 0));
    assert_eq!(body.orbit_point(250), (8_000_000, 6_000_000));
    assert_eq!(body.orbit_point(500), (-2_000_000, 0));
    assert_eq!(body.orbit_point(750), (8_000_000, -6_000_000));
}

#[test]
fn position_is_periodic_in_the_parametric_angle() {
    let body = EllipticalOrbit::new(2, 1_500_000, 250_000, 11, 4, 77_777, 90, 10_000);
    for theta in [0i64, 1, 12_345, 999_999, -400_000] {
        assert_eq!(body.get_xy(theta), body.get_xy(theta + 1_000_000));
    }
}

#[test]
fn update_at_zero_matches_position_at_the_phase_offset() {
    let mut body = EllipticalOrbit::new(4, -3_000_000, 2_000_000, 15, 9, 200_000, 120, 180_000);
    body.update(0);
    let expected = body.get_xy(180_000);
    assert_eq!((body.x, body.y), expected);
}

#[test]
fn phase_offset_is_stored_unchanged() {
    let negative = EllipticalOrbit::new(4, 0, 0, 5, 4, 0, 10, -250_000);
    assert_eq!(negative.orbital_offset, -250_000);
    let wrapped = EllipticalOrbit::new(4, 0, 0, 5, 4, 0, 10, 2_250_000);
    assert_eq!(wrapped.orbital_offset, 250_000 + 2_000_000);
    // positions are periodic, so both phases land on the same point
    let mut a = negative;
    let mut b = EllipticalOrbit::new(4, 0, 0, 5, 4, 0, 10, 750_000);
    a.update(0);
    b.update(0);
    assert_eq!((a.x, a.y), (b.x, b.y));
}

#[test]
fn bearing_matches_independent_recomputation() {
    for elapsed in [0u64, 7, 25, 50, 99, 100, 12_345] {
        let mut body = EllipticalOrbit::new(9, 1_000_000, -2_000_000, 14, 6, 300_000, 100, 90_000);
        body.update(elapsed);
        let expected = fp_atan2(body.focus_y - body.y, body.focus_x - body.x);
        assert_eq!(body.dir_to_focus, expected);
    }
}

#[test]
fn updates_are_idempotent_and_replayable() {
    let mut a = scenario_body();
    let mut b = scenario_body();
    a.update(42);
    a.update(17);
    a.update(42);
    b.update(42);
    assert_eq!((a.x, a.y, a.dir_to_focus), (b.x, b.y, b.dir_to_focus));
}
