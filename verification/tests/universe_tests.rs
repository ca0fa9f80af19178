use rust_planets::orbit::EllipticalOrbit;
use rust_planets::universe::Universe;

#[test]
fn new_registry_is_empty_with_given_bounds() {
    let u = Universe::new(800, 600);
    assert_eq!(u.num_orbits(), 0);
    assert_eq!(u.dimensions(), vec![800, 600]);
}

#[test]
fn update_dimensions_replaces_the_bounds_only() {
    let mut u = Universe::new(800, 600);
    u.add_orbit(1, 0, 0, 10, 6, 0, 100, 0);
    u.update_dimensions(1920, 1080);
    assert_eq!(u.dimensions(), vec![1920, 1080]);
    assert_eq!(u.num_orbits(), 1);
}

#[test]
fn bodies_keep_insertion_order() {
    let mut u = Universe::new(640, 480);
    u.add_orbit(11, 0, 0, 10, 6, 0, 100, 0);
    u.add_orbit(22, 1_000_000, 0, 8, 8, 0, 50, 0);
    u.add_orbit(33, 0, -1_000_000, 20, 5, 125_000, 200, 300_000);
    let ids: Vec<u32> = u.orbits().iter().map(|o| o.id).collect();
    assert_eq!(ids, vec![11, 22, 33]);
}

#[test]
fn tick_updates_every_body_like_an_independent_update() {
    let params = [
        (1u32, 0i64, 0i64, 10i64, 6i64, 0i64, 100u64, 0i64),
        (2, 2_000_000, -500_000, 7, 3, 125_000, 60, 40_000),
        (3, -1_000_000, 1_000_000, 9, 9, 700_000, 250, 990_000),
    ];
    let mut u = Universe::new(800, 600);
    for p in params {
        u.add_orbit(p.0, p.1, p.2, p.3, p.4, p.5, p.6, p.7);
    }
    u.tick(16, 50);
    assert_eq!(u.num_orbits(), 3);
    for (i, p) in params.iter().enumerate() {
        let mut lone = EllipticalOrbit::new(p.0, p.1, p.2, p.3, p.4, p.5, p.6, p.7);
        lone.update(50);
        let ticked = &u.orbits()[i];
        assert_eq!(ticked.id, lone.id);
        assert_eq!(ticked.x, lone.x);
        assert_eq!(ticked.y, lone.y);
        assert_eq!(ticked.dir_to_focus, lone.dir_to_focus);
    }
}

#[test]
fn tick_ignores_the_delta_argument() {
    let mut a = Universe::new(100, 100);
    let mut b = Universe::new(100, 100);
    a.add_orbit(1, 0, 0, 10, 6, 0, 100, 0);
    b.add_orbit(1, 0, 0, 10, 6, 0, 100, 0);
    a.tick(0, 25);
    b.tick(999, 25);
    assert_eq!(a.orbits()[0].x, b.orbits()[0].x);
    assert_eq!(a.orbits()[0].y, b.orbits()[0].y);
}

#[test]
fn reticking_to_the_same_elapsed_time_is_stable() {
    let mut u = Universe::new(320, 200);
    u.add_orbit(5, 0, 0, 12, 5, 250_000, 80, 123_000);
    u.tick(1, 30);
    let first = (u.orbits()[0].x, u.orbits()[0].y);
    u.tick(1, 77);
    u.tick(1, 30);
    let again = (u.orbits()[0].x, u.orbits()[0].y);
    assert_eq!(first, again);
}
