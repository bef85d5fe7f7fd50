use catio::force::Force;
use catio::fx::Fx;
use catio::physics::Physics;
use catio::shape::Shape;
use catio::vec2::Vec2;

fn fx(raw: i64) -> Fx {
    Fx::from_raw(raw)
}

#[test]
fn body_rejects_zero_mass() {
    let p = Physics::new(Vec2::zero(), Fx::zero(), Fx::one(), fx(5_000));
    assert!(p.is_none());
}

#[test]
fn body_rejects_negative_mass() {
    let p = Physics::new(Vec2::zero(), Fx::from_int(-2), Fx::one(), fx(5_000));
    assert!(p.is_none());
}

#[test]
fn body_rejects_vanishing_angular_mass() {
    // the product of a tiny inertia and a tiny mass truncates to zero
    let p = Physics::new(Vec2::zero(), fx(100), fx(1), fx(5_000));
    assert!(p.is_none());
}

#[test]
fn body_rejects_out_of_range_restitution() {
    let p = Physics::new(Vec2::zero(), Fx::one(), Fx::one(), Fx::from_int(2));
    assert!(p.is_none());
    let q = Physics::new(Vec2::zero(), Fx::one(), Fx::one(), fx(-1));
    assert!(q.is_none());
}

#[test]
fn body_constructed_at_rest() {
    let p = Physics::new(Vec2::from_ints(7, 8), Fx::from_int(2), Fx::one(), fx(5_000)).unwrap();
    assert_eq!(p.position, Vec2::from_ints(7, 8));
    assert_eq!(p.velocity, Vec2::zero());
    assert_eq!(p.mass.raw, 20_000);
    assert_eq!(p.inverse_mass.raw, 5_000);
    assert_eq!(p.angular_mass.raw, 20_000);
    assert_eq!(p.restitution.raw, 5_000);
}

#[test]
fn integrate_semi_implicit_euler() {
    // mass 2, force (10, 0), dt 0.5: acceleration 5, velocity 2.5,
    // position 1.25, and the accumulator is reset
    let mut p = Physics::new(Vec2::zero(), Fx::from_int(2), Fx::one(), fx(5_000)).unwrap();
    p.apply_force(Vec2::from_ints(10, 0));
    p.integrate(fx(5_000));
    assert_eq!(p.velocity, Vec2::new(fx(25_000), fx(0)));
    assert_eq!(p.position, Vec2::new(fx(12_500), fx(0)));
    assert_eq!(p.forces, Vec2::zero());
}

#[test]
fn integrate_angular_consumes_torque() {
    // circle of radius 1 has inertia 0.5; mass 2 gives angular mass 1
    let inertia = Shape::Circle { radius: Fx::one() }.rotational_inertia();
    assert_eq!(inertia.raw, 5_000);
    let mut p = Physics::new(Vec2::zero(), Fx::from_int(2), inertia, fx(5_000)).unwrap();
    assert_eq!(p.angular_mass.raw, 10_000);
    p.apply_torque(Fx::one());
    p.integrate_angular(fx(5_000));
    assert_eq!(p.angular_velocity.raw, 5_000);
    assert_eq!(p.rotation.raw, 2_500);
    assert_eq!(p.torque.raw, 0);
}

#[test]
fn impulse_changes_velocity_immediately() {
    let mut p = Physics::new(Vec2::zero(), Fx::from_int(2), Fx::one(), fx(5_000)).unwrap();
    p.apply_impulse(Vec2::from_ints(4, -2));
    assert_eq!(p.velocity, Vec2::from_ints(2, -1));
    assert_eq!(p.position, Vec2::zero());
}

#[test]
fn rotational_inertia_of_shapes() {
    let circle = Shape::Circle { radius: Fx::from_int(10) };
    assert_eq!(circle.rotational_inertia().raw, 500_000);
    let rect = Shape::Rect { w: Fx::from_int(2), h: Fx::from_int(3) };
    assert_eq!(rect.rotational_inertia().raw, 10_829);
    let poly = Shape::Polygon { verts: vec![] };
    assert_eq!(poly.rotational_inertia().raw, 10_000);
}

#[test]
fn friction_opposes_velocity() {
    let f = Force::friction(fx(6_500), Vec2::from_ints(2, -3));
    assert_eq!(f, Vec2::new(fx(-13_000), fx(19_500)));
}

#[test]
fn drag_opposes_velocity_cubically() {
    let f = Force::drag(fx(10), Vec2::from_ints(3, 4));
    assert_eq!(f, Vec2::new(fx(-750), fx(-1_000)));
}

#[test]
fn spring_is_inert() {
    let f = Force::spring(Fx::one(), Vec2::from_ints(1, 2), Vec2::from_ints(3, 4));
    assert_eq!(f, Vec2::zero());
}
