use nbody_core::fx::{fx_add, fx_div, fx_mul, fx_sqrt, fx_sub, SCALE};
use nbody_core::mathvec::Vec2d;

#[test]
fn scale_is_1024() {
    assert_eq!(SCALE, 1024);
}

#[test]
fn add_and_sub_are_exact_in_range() {
    assert_eq!(fx_add(3 * SCALE, 4 * SCALE), 7 * SCALE);
    assert_eq!(fx_sub(3 * SCALE, 4 * SCALE), -SCALE);
}

#[test]
fn add_saturates_at_the_i64_range() {
    assert_eq!(fx_add(i64::MAX, 1), i64::MAX);
    assert_eq!(fx_sub(i64::MIN, 1), i64::MIN);
    assert_eq!(fx_add(i64::MAX, i64::MAX), i64::MAX);
}

#[test]
fn mul_rescales_products() {
    // 1.5 * 2.0 == 3.0 on the fixed-point grid.
    assert_eq!(fx_mul(3 * SCALE / 2, 2 * SCALE), 3 * SCALE);
    // Rounding is toward negative infinity.
    assert_eq!(fx_mul(-1, 1), -1);
    assert_eq!(fx_mul(1, 1), 0);
}

#[test]
fn div_rescales_quotients() {
    assert_eq!(fx_div(3 * SCALE, 2 * SCALE), 3 * SCALE / 2);
    assert_eq!(fx_div(1, SCALE), 1);
}

#[test]
fn sqrt_is_the_floored_root() {
    // sqrt(4.0) == 2.0 exactly.
    assert_eq!(fx_sqrt(4 * SCALE), 2 * SCALE);
    // sqrt(2.0) rounds down to 1448/1024.
    assert_eq!(fx_sqrt(2 * SCALE), 1448);
    assert_eq!(fx_sqrt(0), 0);
}

#[test]
fn vector_magnitude_of_a_pythagorean_pair() {
    let v = Vec2d::new(3 * SCALE, 4 * SCALE);
    assert_eq!(v.mag(), 5 * SCALE);
    assert_eq!(v.mag_squared(), 25 * SCALE);
    assert_eq!(v.dot(v), 25 * SCALE);
}

#[test]
fn vector_ops_are_componentwise() {
    let a = Vec2d::new(SCALE, 2 * SCALE);
    let b = Vec2d::new(3 * SCALE, -SCALE);
    assert_eq!(a.plus(b), Vec2d::new(4 * SCALE, SCALE));
    assert_eq!(a.minus(b), Vec2d::new(-2 * SCALE, 3 * SCALE));
    assert_eq!(a.scale(2 * SCALE), Vec2d::new(2 * SCALE, 4 * SCALE));
    assert_eq!(a.div_by(2 * SCALE), Vec2d::new(SCALE / 2, SCALE));
    assert_eq!(a.flip_x(), Vec2d::new(-SCALE, 2 * SCALE));
    assert_eq!(a.flip_y(), Vec2d::new(SCALE, -2 * SCALE));
    assert_eq!(a.swap_xy(), Vec2d::new(2 * SCALE, SCALE));
    assert_eq!(Vec2d::zero(), Vec2d::new(0, 0));
}

#[test]
fn unit_vector_has_near_unit_magnitude() {
    let v = Vec2d::new(3 * SCALE, 4 * SCALE);
    let u = v.unit();
    // 3/5 and 4/5 on the fixed-point grid, rounded down.
    assert_eq!(u, Vec2d::new(3 * SCALE / 5, 4 * SCALE / 5));
}
