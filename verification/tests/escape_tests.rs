use fractal::SCALE;
use fractal::escape::{iterations_to_escape, ITERATION_CAP};

#[test]
fn origin_reaches_cap() {
    // (0, 0) is a member of the Mandelbrot set: the orbit never escapes.
    assert_eq!(iterations_to_escape(0, 0), ITERATION_CAP);
}

#[test]
fn far_point_escapes_immediately() {
    // (10, 10) is far outside the set. The count is 0-based: a point whose
    // first iterate already escapes yields exactly 0.
    assert_eq!(iterations_to_escape(10 * SCALE, 10 * SCALE), 0);
}

#[test]
fn just_outside_radius_escapes_immediately() {
    // The first iterate of c is c itself; anything beyond radius 2 yields 0.
    assert_eq!(iterations_to_escape(2 * SCALE + 1, 0), 0);
}

#[test]
fn minus_two_reaches_cap() {
    // -2 is on the real spike of the set: the orbit bounces between -2 and 2
    // and never escapes.
    assert_eq!(iterations_to_escape(-2 * SCALE, 0), ITERATION_CAP);
}

#[test]
fn count_is_within_cap() {
    let samples: Vec<(i64, i64)> = vec![
        (0, 0),
        (SCALE, SCALE),
        (-SCALE / 2, SCALE / 4),
        (3 * SCALE, -3 * SCALE),
        (-2 * SCALE, 0),
        (SCALE / 4, SCALE / 4),
    ];
    for (x, y) in samples {
        assert!(iterations_to_escape(x, y) <= ITERATION_CAP);
    }
}

#[test]
fn count_is_deterministic() {
    // Identical inputs always give identical outputs.
    let points: Vec<(i64, i64)> = vec![(-500_000, 250_000), (350_000, 350_000), (0, SCALE)];
    for (x, y) in points {
        let first = iterations_to_escape(x, y);
        let second = iterations_to_escape(x, y);
        assert_eq!(first, second);
    }
}
