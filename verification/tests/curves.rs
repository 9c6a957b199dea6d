//! Curve sampling and key editing.

use reaet::curve::FCurve;
use reaet::curve::FCurveKey;

fn key(frame: i64, value: i64) -> FCurveKey {
    FCurveKey { frame, value, tangent: 0 }
}

#[test]
fn sample_of_empty_curve_is_zero() {
    let c = FCurve::empty();
    assert_eq!(c.sample(0), 0);
    assert_eq!(c.sample(-100), 0);
}

#[test]
fn sample_holds_latest_key_at_or_before() {
    let c = FCurve { keys: vec![key(0, 10), key(100, 20), key(200, 30)] };
    assert_eq!(c.sample(-1), 10, "before every key: the first value");
    assert_eq!(c.sample(0), 10);
    assert_eq!(c.sample(99), 10);
    assert_eq!(c.sample(100), 20, "exact hit");
    assert_eq!(c.sample(150), 20);
    assert_eq!(c.sample(200), 30);
    assert_eq!(c.sample(100000), 30, "after the last key: the last value");
}

#[test]
fn constant_curve_samples_constant() {
    let c = FCurve::constant(777);
    assert_eq!(c.sample(i64::MIN), 777);
    assert_eq!(c.sample(0), 777);
    assert_eq!(c.sample(i64::MAX), 777);
}

#[test]
fn seed_default_heals_only_empty_curves() {
    let mut c = FCurve::empty();
    c.seed_default();
    assert_eq!(c.keys.len(), 1);
    assert_eq!(c.keys[0], key(0, 0));

    let mut c2 = FCurve { keys: vec![key(5, 6)] };
    c2.seed_default();
    assert_eq!(c2.keys, vec![key(5, 6)]);
}

#[test]
fn add_key_keeps_keys_sorted() {
    let mut c = FCurve { keys: vec![key(0, 10), key(100, 20)] };
    let pos = c.add_key_at(50);
    assert_eq!(pos, 1);
    assert_eq!(c.keys.len(), 3);
    assert_eq!(c.keys[1].frame, 50);
    assert_eq!(c.keys[1].value, 10, "the new key carries the sampled value");
    assert_eq!(c.keys[0].frame, 0);
    assert_eq!(c.keys[2].frame, 100);
}

#[test]
fn add_key_after_existing_equal_frame() {
    let mut c = FCurve { keys: vec![key(10, 1)] };
    let pos = c.add_key_at(10);
    assert_eq!(pos, 1, "a key at an occupied frame lands after it");
    assert_eq!(c.keys[1].frame, 10);
    assert_eq!(c.keys[1].value, 1);
}

#[test]
fn remove_key_drops_the_indexed_key() {
    let mut c = FCurve { keys: vec![key(0, 1), key(10, 2), key(20, 3)] };
    c.remove_key(1);
    assert_eq!(c.keys, vec![key(0, 1), key(20, 3)]);
}
