use catio::collision::Collision;
use catio::fx::Fx;
use catio::physics::Physics;
use catio::shape::Shape;
use catio::vec2::Vec2;

fn fx(raw: i64) -> Fx {
    Fx::from_raw(raw)
}

fn body_at(x: i64, y: i64) -> Physics {
    Physics::new(Vec2::from_ints(x, y), Fx::one(), Fx::one(), fx(5_000)).unwrap()
}

fn elastic_body_at(x: i64, y: i64) -> Physics {
    Physics::new(Vec2::from_ints(x, y), Fx::one(), Fx::one(), Fx::one()).unwrap()
}

#[test]
fn circles_overlapping_contact() {
    let sa = Shape::Circle { radius: Fx::from_int(10) };
    let sb = Shape::Circle { radius: Fx::from_int(10) };
    let pa = body_at(100, 100);
    let pb = body_at(115, 100);
    let c = Collision::detect(&sa, &sb, &pa, &pb).unwrap();
    assert_eq!(c.normal, Vec2::from_ints(1, 0));
    assert_eq!(c.depth, Fx::from_int(5));
}

#[test]
fn circles_far_apart_no_contact() {
    let sa = Shape::Circle { radius: Fx::from_int(10) };
    let sb = Shape::Circle { radius: Fx::from_int(10) };
    let pa = body_at(100, 100);
    let pb = body_at(300, 100);
    assert!(Collision::detect(&sa, &sb, &pa, &pb).is_none());
}

#[test]
fn circles_touching_exactly_no_contact() {
    // the test is strict: centers exactly one radius sum apart miss
    let sa = Shape::Circle { radius: Fx::from_int(10) };
    let sb = Shape::Circle { radius: Fx::from_int(10) };
    let pa = body_at(100, 100);
    let pb = body_at(120, 100);
    assert!(Collision::detect(&sa, &sb, &pa, &pb).is_none());
}

#[test]
fn circle_beside_box_contact() {
    // box 4 by 2 at the origin, circle of radius 1 at (2.5, 0):
    // nearest point (2, 0), depth one half, normal from box to circle
    let rect = Shape::Rect { w: Fx::from_int(4), h: Fx::from_int(2) };
    let circle = Shape::Circle { radius: Fx::one() };
    let pr = body_at(0, 0);
    let pc = Physics::new(
        Vec2::new(fx(25_000), fx(0)),
        Fx::one(),
        Fx::one(),
        fx(5_000),
    )
    .unwrap();
    let c = Collision::detect(&rect, &circle, &pr, &pc).unwrap();
    assert_eq!(c.normal, Vec2::from_ints(1, 0));
    assert_eq!(c.depth.raw, 5_000);
    // the same pair in the other order flips the normal
    let d = Collision::detect(&circle, &rect, &pc, &pr).unwrap();
    assert_eq!(d.normal, Vec2::from_ints(-1, 0));
    assert_eq!(d.depth.raw, 5_000);
}

#[test]
fn circle_center_inside_box_falls_back_to_least_axis() {
    // center at (1.5, 0) inside the 4 by 2 box: nearest face is the
    // right one, half a unit away, so the push is along (1, 0) and
    // the depth is the radius plus that half unit
    let rect = Shape::Rect { w: Fx::from_int(4), h: Fx::from_int(2) };
    let circle = Shape::Circle { radius: Fx::one() };
    let pr = body_at(0, 0);
    let pc = Physics::new(
        Vec2::new(fx(15_000), fx(0)),
        Fx::one(),
        Fx::one(),
        fx(5_000),
    )
    .unwrap();
    let c = Collision::detect(&rect, &circle, &pr, &pc).unwrap();
    assert_eq!(c.normal, Vec2::from_ints(1, 0));
    assert_eq!(c.depth.raw, 15_000);
}

#[test]
fn circle_far_from_box_no_contact() {
    let rect = Shape::Rect { w: Fx::from_int(4), h: Fx::from_int(2) };
    let circle = Shape::Circle { radius: Fx::one() };
    let pr = body_at(0, 0);
    let pc = body_at(4, 0);
    assert!(Collision::detect(&rect, &circle, &pr, &pc).is_none());
}

#[test]
fn unsupported_pairs_no_contact() {
    let ra = Shape::Rect { w: Fx::one(), h: Fx::one() };
    let rb = Shape::Rect { w: Fx::one(), h: Fx::one() };
    let poly = Shape::Polygon { verts: vec![] };
    let circle = Shape::Circle { radius: Fx::from_int(10) };
    let pa = body_at(0, 0);
    let pb = body_at(0, 0);
    assert!(Collision::detect(&ra, &rb, &pa, &pb).is_none());
    assert!(Collision::detect(&poly, &circle, &pa, &pb).is_none());
    assert!(Collision::detect(&circle, &poly, &pa, &pb).is_none());
}

#[test]
fn detect_swapped_arguments_flips_normal() {
    let sa = Shape::Circle { radius: Fx::from_int(10) };
    let sb = Shape::Circle { radius: Fx::from_int(10) };
    let pa = body_at(100, 100);
    let pb = body_at(115, 100);
    let forward = Collision::detect(&sa, &sb, &pa, &pb).unwrap();
    let backward = Collision::detect(&sb, &sa, &pb, &pa).unwrap();
    assert_eq!(backward.normal, forward.normal.neg());
    assert_eq!(backward.depth, forward.depth);
}

#[test]
fn resolve_penetration_splits_by_inverse_mass() {
    let c = Collision {
        normal: Vec2::new(fx(6_000), fx(8_000)),
        depth: Fx::from_int(3),
    };
    let (da, db) = c.resolve_penetration(Fx::one(), Fx::one());
    assert_eq!(da, Vec2::new(fx(9_000), fx(12_000)));
    assert_eq!(db, Vec2::new(fx(9_000), fx(12_000)));
}

#[test]
fn resolve_penetration_antisymmetric_example() {
    let c = Collision {
        normal: Vec2::new(fx(6_000), fx(8_000)),
        depth: Fx::from_int(3),
    };
    let (da, db) = c.resolve_penetration(Fx::one(), fx(20_000));
    let swapped = Collision { normal: c.normal.neg(), depth: c.depth };
    let (sa, sb) = swapped.resolve_penetration(fx(20_000), Fx::one());
    assert_eq!(sa, db.neg());
    assert_eq!(sb, da.neg());
}

#[test]
fn elastic_impulse_exchanges_velocities() {
    // equal unit masses, restitution one, mover at (3, 0) hits a
    // resting body along the normal (1, 0): velocities swap exactly
    let mut pa = elastic_body_at(0, 0);
    pa.velocity = Vec2::from_ints(3, 0);
    let mut pb = elastic_body_at(1, 0);
    let c = Collision { normal: Vec2::from_ints(1, 0), depth: Fx::zero() };
    let impulse = c.resolve_impulse(&pa, &pb);
    pa.apply_impulse(impulse);
    pb.apply_impulse(impulse.neg());
    assert_eq!(pa.velocity, Vec2::zero());
    assert_eq!(pb.velocity, Vec2::from_ints(3, 0));
}

#[test]
fn inelastic_impulse_keeps_bodies_together() {
    // restitution zero: after the exchange both bodies move at the
    // average velocity
    let mut pa = Physics::new(Vec2::zero(), Fx::one(), Fx::one(), Fx::zero()).unwrap();
    pa.velocity = Vec2::from_ints(4, 0);
    let mut pb = Physics::new(Vec2::from_ints(1, 0), Fx::one(), Fx::one(), Fx::zero()).unwrap();
    let c = Collision { normal: Vec2::from_ints(1, 0), depth: Fx::zero() };
    let impulse = c.resolve_impulse(&pa, &pb);
    pa.apply_impulse(impulse);
    pb.apply_impulse(impulse.neg());
    assert_eq!(pa.velocity, Vec2::from_ints(2, 0));
    assert_eq!(pb.velocity, Vec2::from_ints(2, 0));
}
