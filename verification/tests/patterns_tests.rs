use mathlib::patterns::{checker_takes_first, ring_takes_first, stripe_takes_first};

// The renderer floors the pattern-space coordinates; the tests do the same
// and hand the integer parts over, keeping the original sample points.

fn stripe_at(x: f64) -> bool {
    stripe_takes_first(x.floor() as i64)
}

fn ring_at(x: f64, z: f64) -> bool {
    ring_takes_first((x * x + z * z).sqrt().floor() as u64)
}

fn checker_at(x: f64, y: f64, z: f64) -> bool {
    checker_takes_first(x.floor() as i64, y.floor() as i64, z.floor() as i64)
}

#[test]
fn creating_a_stripe_patter() {
    // true stands for the first (white) color of the stripe pair.
    // constant y and z leave the pick unchanged:
    assert!(stripe_at(0.0));
    // alternating in x:
    assert!(stripe_at(0.9));
    assert!(!stripe_at(1.0));
    assert!(!stripe_at(-0.1));
    assert!(!stripe_at(-1.0));
    assert!(stripe_at(-1.1));
}

#[test]
fn a_ring_should_extend_in_both_x_z() {
    assert!(ring_at(0.0, 0.0));
    assert!(!ring_at(1.0, 0.0));
    assert!(!ring_at(0.0, 1.0));
    assert!(!ring_at(0.708, 0.708));
}

#[test]
fn checkers_should_repeat() {
    // repeats in the x direction
    assert!(checker_at(0.0, 0.0, 0.0));
    assert!(checker_at(0.99, 0.0, 0.0));
    assert!(!checker_at(1.01, 0.0, 0.0));
    // repeats in the y direction
    assert!(checker_at(0.0, 0.99, 0.0));
    assert!(!checker_at(0.0, 1.01, 0.0));
    // repeats in the z direction
    assert!(checker_at(0.0, 0.0, 0.99));
    assert!(!checker_at(0.0, 0.0, 1.01));
}

#[test]
fn checkers_alternate_across_negative_cells() {
    assert!(!checker_at(-0.5, 0.0, 0.0)); // floors to (-1, 0, 0)
    assert!(checker_at(-0.5, -0.5, 0.0)); // floors to (-1, -1, 0)
    assert!(!checker_at(-1.5, -0.5, 0.5)); // floors to (-2, -1, 0)
    assert!(checker_at(-1.5, -0.5, -0.5)); // floors to (-2, -1, -1)
}
