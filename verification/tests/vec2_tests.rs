use catio::fx::Fx;
use catio::vec2::Vec2;

fn fx(raw: i64) -> Fx {
    Fx::from_raw(raw)
}

fn v(x: i64, y: i64) -> Vec2 {
    Vec2::from_ints(x, y)
}

#[test]
fn add() {
    let a = v(10, 25);
    let b = v(12, 10);
    let c = v(22, 35);
    assert_eq!(a.add(b), c);
}

#[test]
fn sub() {
    let a = v(22, 35);
    let b = v(12, 10);
    let c = v(10, 25);
    assert_eq!(a.sub(b), c);
}

#[test]
fn nearly_equal() {
    let a = Vec2::new(fx(12512), fx(15519));
    let b = Vec2::new(fx(23701), fx(15501));
    let c = Vec2::new(fx(36213), fx(31020));
    assert!(a.add(b).nearly_eq(c));
}

#[test]
fn mul() {
    let a = v(1, 2);
    let b = v(5, 10);
    assert_eq!(a.mul(Fx::from_int(5)), b);
}

#[test]
fn div() {
    let a = v(1, 2);
    let b = Vec2::new(fx(5_000), fx(10_000));
    assert_eq!(a.div(Fx::from_int(2)), b);
}

#[test]
fn neg_and_dot() {
    let a = v(3, -4);
    assert_eq!(a.neg(), v(-3, 4));
    assert_eq!(a.dot(v(2, 1)).raw, 2 * 10_000);
}

#[test]
fn magnitude_three_four_five() {
    let a = v(3, 4);
    assert_eq!(a.magnitude2().raw, 250_000);
    assert_eq!(a.magnitude().raw, 50_000);
}

#[test]
fn unit_of_three_four() {
    let u = v(3, 4).unit();
    assert_eq!(u, Vec2::new(fx(6_000), fx(8_000)));
    assert_eq!(u.magnitude().raw, 10_000);
}

#[test]
fn unit_of_near_zero_is_zero() {
    let tiny = Vec2::new(fx(3), fx(4));
    assert_eq!(tiny.unit(), Vec2::zero());
    assert_eq!(Vec2::zero().unit(), Vec2::zero());
}

#[test]
fn unit_magnitude_within_tolerance() {
    let samples = [(17, 1), (100, 99), (12_345, 678), (-7, 3), (2, -2)];
    for (x, y) in samples {
        let u = v(x, y).unit();
        let m = u.magnitude().raw;
        assert!((m - 10_000).abs() <= 10, "magnitude {m}");
    }
}

#[test]
fn reflect_off_floor() {
    let dir = v(1, -1);
    let normal = v(0, 1);
    assert_eq!(dir.reflect(normal), v(1, 1));
}

#[test]
fn nearly_zero_bounds() {
    assert!(Vec2::new(fx(10), fx(-10)).nearly_zero());
    assert!(!Vec2::new(fx(11), fx(0)).nearly_zero());
}

#[test]
fn rotate_half_turn() {
    let a = v(1, 0);
    let b = a.rotate(Fx::from_raw(catio::fx::PI_RAW));
    assert_eq!(b.x.raw, -9_999);
    assert_eq!(b.y.raw, 0);
}

#[test]
fn rotate_quarter_turn() {
    let a = v(1, 0);
    let c = a.rotate(Fx::from_raw(catio::fx::HALF_PI_RAW));
    assert_eq!(c.x.raw, 0);
    assert_eq!(c.y.raw, 9_999);
}

#[test]
fn rotate_sixth_turn() {
    let a = v(1, 0);
    let d = a.rotate(Fx::from_raw(5_236));
    assert_eq!(d.x.raw, 8_661);
    assert_eq!(d.y.raw, 5_000);
}

#[test]
fn rotate_full_turn_reduces() {
    let a = v(2, 3);
    let b = a.rotate(Fx::from_raw(catio::fx::TWO_PI_RAW));
    assert!(a.nearly_eq(b));
}
