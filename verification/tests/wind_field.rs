//! The ambient wind field: target convergence, retargeting, the strength
//! walk and the polar-to-Cartesian conversion.

use wildfire::fixed::FULL_TURN;
use wildfire::wind::{WindDirection, MAX_WIND_SPEED, MIN_WIND_SPEED};

fn circ_dist(a: i32, b: i32) -> i32 {
    let d = (a - b).abs();
    if d <= 180_000 { d } else { 360_000 - d }
}

#[test]
fn wind_converges_to_target_and_retargets() {
    // angle 0, target 90 degrees, variance 45 degrees
    let mut w = WindDirection::new(0, MIN_WIND_SPEED, 45_000, 90_000);
    let mut dist = circ_dist(w.angle, w.target);
    let mut snapped = false;
    for _ in 0..500 {
        w.update(100);
        if w.angle == 90_000 {
            snapped = true;
            break;
        }
        // monotone approach along the shorter path, 500 milli-deg per tick
        let now = circ_dist(w.angle, 90_000);
        assert_eq!(now, dist - 500);
        dist = now;
    }
    assert!(snapped, "wind never reached its target");
    // the fresh target is within the variance of the old one
    assert!(circ_dist(w.target, 90_000) <= 45_000);
    assert!(w.angle < FULL_TURN && w.angle >= 0);
}

#[test]
fn wind_takes_the_shorter_path() {
    // from 10 degrees to 350 degrees the short way is backwards through 0
    let mut w = WindDirection::new(10_000, MIN_WIND_SPEED, 10_000, 350_000);
    w.update(100);
    assert_eq!(w.angle, 9_500);
    w.update(1_000);
    assert_eq!(w.angle, 4_500);
    w.update(2_000);
    assert_eq!(w.angle, 354_500);
    assert_eq!(w.target, 350_000);
}

#[test]
fn strength_walks_within_its_limits() {
    let mut w = WindDirection::new(0, MIN_WIND_SPEED, 45_000, 90_000);
    let mut prev = w.strength;
    for _ in 0..2_000 {
        w.update(10);
        assert!(w.strength >= MIN_WIND_SPEED && w.strength <= MAX_WIND_SPEED);
        assert!((w.strength - prev).abs() <= 1_000);
        prev = w.strength;
    }
}

#[test]
fn override_pins_angle_and_strength() {
    let mut w = WindDirection::new(0, MIN_WIND_SPEED, 45_000, 90_000);
    w.override_wind(180_000, 55_000);
    assert_eq!(w.angle, 180_000);
    assert_eq!(w.strength, 55_000);
    assert_eq!(w.target, 90_000);
    assert_eq!(w.variance, 45_000);
}

#[test]
fn wind_vector_matches_the_compass() {
    let east = WindDirection::new(0, 10_000, 0, 0).as_vec();
    assert_eq!((east.x, east.y), (10_000, 0));
    let north = WindDirection::new(90_000, 10_000, 0, 0).as_vec();
    assert_eq!((north.x, north.y), (0, 10_000));
    let west = WindDirection::new(180_000, 10_000, 0, 0).as_vec();
    assert_eq!((west.x, west.y), (-10_000, 0));
    let south = WindDirection::new(270_000, 10_000, 0, 0).as_vec();
    assert_eq!((south.x, south.y), (0, -10_000));
    // a diagonal splits the strength by about cos 45
    let ne = WindDirection::new(45_000, 10_000, 0, 0).get_wind_vec();
    assert!((ne.x - 7_070).abs() <= 60, "ne.x = {}", ne.x);
    assert!((ne.y - 7_070).abs() <= 60, "ne.y = {}", ne.y);
}

#[test]
fn default_wind_is_fresh_and_nearby() {
    for _ in 0..50 {
        let w = WindDirection::default();
        assert!(w.angle >= 0 && w.angle < FULL_TURN);
        assert!(w.target >= 0 && w.target < FULL_TURN);
        assert_eq!(w.strength, MIN_WIND_SPEED);
        assert_eq!(w.variance, 90_000);
        assert!(circ_dist(w.target, w.angle) <= 45_000);
    }
}
