use junglebeast::fixed::ONE;
use junglebeast::vec3::Vec3;

fn v(x: i64, y: i64, z: i64) -> Vec3 {
    Vec3 { x, y, z }
}

#[test]
fn new_and_zero() {
    assert_eq!(Vec3::new(1, 2, 3), v(1, 2, 3));
    assert_eq!(Vec3::zero(), v(0, 0, 0));
}

#[test]
fn plus_and_minus_work_by_component() {
    assert_eq!(v(1, 2, 3).plus(v(10, 20, 30)), v(11, 22, 33));
    assert_eq!(v(1, 2, 3).minus(v(10, 20, 30)), v(-9, -18, -27));
}

#[test]
fn plus_saturates_each_component() {
    assert_eq!(v(i64::MAX, 0, i64::MIN).plus(v(1, 1, -1)), v(i64::MAX, 1, i64::MIN));
}

#[test]
fn scale_multiplies_in_fixed_point() {
    assert_eq!(v(ONE, -2 * ONE, 3).scale(ONE / 2), v(ONE / 2, -ONE, 1));
    assert_eq!(v(ONE, 0, 0).scale(100_000), v(100_000, 0, 0));
}

#[test]
fn length_sq_is_exact() {
    assert_eq!(v(3, 4, 0).length_sq(), 25);
    assert_eq!(v(-3, 4, 12).length_sq(), 169);
    let big = i64::MIN as i128;
    assert_eq!(v(i64::MIN, i64::MIN, i64::MIN).length_sq(), 3 * (big * big) as u128);
}

#[test]
fn normalize_gives_unit_length() {
    assert_eq!(v(3 * ONE, 4 * ONE, 0).normalize(), v(600_000, 800_000, 0));
    assert_eq!(v(-300_000, 0, 0).normalize(), v(-ONE, 0, 0));
    assert_eq!(v(0, 0, 7).normalize(), v(0, 0, ONE));
}

#[test]
fn normalize_leaves_the_origin() {
    assert_eq!(Vec3::zero().normalize(), Vec3::zero());
}

#[test]
fn within_is_strict() {
    let a = v(0, 0, 0);
    assert!(a.within(v(499_999, 0, 0), 500_000));
    assert!(!a.within(v(500_000, 0, 0), 500_000));
    assert!(a.within(v(300_000, 300_000, 200_000), 500_000));
    assert!(!a.within(v(300_000, 300_000, 300_000), 500_000));
    assert!(!a.within(a, 0));
    assert!(!a.within(a, -5));
    assert!(a.within(a, 1));
}

#[test]
fn within_handles_far_points() {
    assert!(!v(i64::MIN, 0, 0).within(v(i64::MAX, 0, 0), i64::MAX));
}

#[test]
fn move_towards_takes_one_step() {
    let from = v(0, 0, 0);
    assert_eq!(from.move_towards(v(100_000, 0, 0), 5_000), v(5_000, 0, 0));
    assert_eq!(from.move_towards(v(30_000, 40_000, 0), 5_000), v(3_000, 4_000, 0));
    assert_eq!(from.move_towards(v(-30_000, 0, -40_000), 5_000), v(-3_000, 0, -4_000));
}

#[test]
fn move_towards_stops_at_the_target() {
    let from = v(10, 20, 30);
    assert_eq!(from.move_towards(v(3_010, 20, 30), 5_000), v(3_010, 20, 30));
    assert_eq!(from.move_towards(v(5_010, 20, 30), 5_000), v(5_010, 20, 30));
    assert_eq!(from.move_towards(from, 5_000), from);
}
