//! Narrow-phase collision detection and contact resolution.
//!
//! `detect` accepts two shapes with their bodies in either order and
//! produces a contact whose normal points from the first body toward
//! the second.  `resolve_penetration` splits a positional correction
//! between the bodies by inverse mass; `resolve_impulse` computes the
//! normal impulse for the velocity correction.

use crate::fx::div_m;
use crate::fx::lemma_mul_m_neg;
use crate::fx::lemma_mul_m_one;
use crate::fx::lemma_mul_m_zero;
use crate::fx::lemma_tdiv_multiple;
use crate::fx::mul_m;
use crate::fx::sat;
use crate::fx::Fx;
use crate::fx::EPSILON_RAW;
use crate::fx::RAW_MAX;
use crate::fx::SCALE;
use crate::physics::Physics;
use crate::physics::PhysicsV;
use crate::shape::Shape;
use crate::shape::ShapeV;
use crate::vec2::v2_add;
use crate::vec2::v2_dot;
use crate::vec2::v2_mag;
use crate::vec2::v2_mag2;
use crate::vec2::v2_neg;
use crate::vec2::v2_scale;
use crate::vec2::v2_sub;
use crate::vec2::v2_unit;
use crate::vec2::Vec2;
use crate::vec2::V2;
use vstd::prelude::*;

verus! {

/// Model of a contact: the raw values of its normal and depth.
pub ghost struct CollisionV {
    pub normal: V2,
    pub depth: int,
}

/// A contact: a unit normal from the first tested body toward the
/// second, and the penetration depth along it.  Transient: produced
/// fresh for each detected contact each frame.
#[derive(Clone, Copy, Debug, PartialEq, Eq, Structural)]
pub struct Collision {
    pub normal: Vec2,
    pub depth: Fx,
}

impl View for Collision {
    type V = CollisionV;

    open spec fn view(&self) -> CollisionV {
        CollisionV { normal: self.normal@, depth: self.depth@ }
    }
}

pub open spec fn view_contact(o: Option<Collision>) -> Option<CollisionV> {
    match o {
        Some(c) => Some(c@),
        None => None,
    }
}

pub open spec fn clamp_raw(v: int, lo: int, hi: int) -> int {
    if v < lo {
        lo
    } else if v > hi {
        hi
    } else {
        v
    }
}

/// Circle against circle: a contact exists when the squared distance
/// of the centers is strictly below the squared sum of the radii.  The
/// depth is the gap between the two contact points on the circles'
/// boundaries.
pub open spec fn circle_circle_spec(ra: int, rb: int, pa: V2, pb: V2) -> Option<CollisionV> {
    let d = v2_sub(pb, pa);
    let rsum = sat(ra + rb);
    if v2_mag2(d) < mul_m(rsum, rsum) {
        let normal = v2_unit(d);
        let start = v2_sub(pb, v2_scale(normal, rb));
        let end = v2_add(pa, v2_scale(normal, ra));
        Some(CollisionV { normal, depth: v2_mag(v2_sub(start, end)) })
    } else {
        None
    }
}

/// Circle against axis-aligned box, with the normal oriented from the
/// box toward the circle.  The circle's center is clamped onto the box
/// per axis to find the nearest boundary point; a contact exists when
/// the squared distance to that point is at most the squared radius.
/// When the center is inside the box (or too close to its boundary for
/// a normal of meaningful length), the contact falls back to the axis
/// of least penetration, in the order left, right, top, bottom, and
/// the depth is the radius plus the distance the center sits inside
/// that face.
pub open spec fn rect_circle_spec(w: int, h: int, radius: int, pr: V2, pc: V2) -> Option<
    CollisionV,
> {
    let left = sat(pr.x - mul_m(w, 5_000));
    let right = sat(pr.x + mul_m(w, 5_000));
    let top = sat(pr.y - mul_m(h, 5_000));
    let bottom = sat(pr.y + mul_m(h, 5_000));
    let d = V2 {
        x: sat(pc.x - clamp_raw(pc.x, left, right)),
        y: sat(pc.y - clamp_raw(pc.y, top, bottom)),
    };
    if v2_mag2(d) <= mul_m(radius, radius) {
        if v2_mag(d) <= EPSILON_RAW {
            let dl = sat(pc.x - left);
            let dr = sat(right - pc.x);
            let dtop = sat(pc.y - top);
            let dbottom = sat(bottom - pc.y);
            let m = least4(dl, dr, dtop, dbottom);
            let normal = if m == dl {
                V2 { x: -(SCALE as int), y: 0 }
            } else if m == dr {
                V2 { x: SCALE as int, y: 0 }
            } else if m == dtop {
                V2 { x: 0, y: -(SCALE as int) }
            } else {
                V2 { x: 0, y: SCALE as int }
            };
            Some(CollisionV { normal, depth: sat(radius + m) })
        } else {
            Some(CollisionV { normal: v2_unit(d), depth: sat(radius - v2_mag(d)) })
        }
    } else {
        None
    }
}

pub open spec fn least4(a: int, b: int, c: int, d: int) -> int {
    let m1 = if a <= b {
        a
    } else {
        b
    };
    let m2 = if m1 <= c {
        m1
    } else {
        c
    };
    if m2 <= d {
        m2
    } else {
        d
    }
}

pub open spec fn flip_contact(o: Option<CollisionV>) -> Option<CollisionV> {
    match o {
        Some(c) => Some(CollisionV { normal: v2_neg(c.normal), depth: c.depth }),
        None => None,
    }
}

/// Which contact `detect` reports for each supported shape pair;
/// unsupported pairs (box against box, anything against the polygon
/// placeholder) report none.
pub open spec fn detect_spec(sa: ShapeV, sb: ShapeV, pa: PhysicsV, pb: PhysicsV) -> Option<
    CollisionV,
> {
    match sa {
        ShapeV::Circle { radius: ra } => match sb {
            ShapeV::Circle { radius: rb } => circle_circle_spec(ra, rb, pa.position, pb.position),
            ShapeV::Rect { w, h } => flip_contact(
                rect_circle_spec(w, h, ra, pb.position, pa.position),
            ),
            _ => None,
        },
        ShapeV::Rect { w, h } => match sb {
            ShapeV::Circle { radius: rb } => rect_circle_spec(w, h, rb, pa.position, pb.position),
            _ => None,
        },
        _ => None,
    }
}

/// The positional correction pair: the shared factor is the depth over
/// the summed inverse masses, and each body's displacement scales that
/// by its own inverse mass along the normal.
pub open spec fn resolve_penetration_spec(c: CollisionV, inverse_mass_a: int, inverse_mass_b: int) -> (
    V2,
    V2,
) {
    let d = div_m(c.depth, sat(inverse_mass_a + inverse_mass_b));
    (v2_scale(v2_scale(c.normal, d), inverse_mass_a), v2_scale(v2_scale(c.normal, d), inverse_mass_b))
}

/// The impulse along the contact normal: restitution is the lower of
/// the two bodies', and the magnitude is `-(1 + e)` times the closing
/// speed along the normal over the summed inverse masses.
pub open spec fn resolve_impulse_spec(c: CollisionV, pa: PhysicsV, pb: PhysicsV) -> V2 {
    let e = if pa.restitution <= pb.restitution {
        pa.restitution
    } else {
        pb.restitution
    };
    let v = v2_sub(pa.velocity, pb.velocity);
    let magnitude = div_m(
        mul_m(sat(-sat((SCALE as int) + e)), v2_dot(c.normal, v)),
        sat(pa.inverse_mass + pb.inverse_mass),
    );
    v2_scale(c.normal, magnitude)
}

impl Collision {
    /// Narrow-phase test of two shapes at their bodies' positions, in
    /// either order; a reported normal points from the first body
    /// toward the second.
    pub fn detect(sa: &Shape, sb: &Shape, pa: &Physics, pb: &Physics) -> (r: Option<Collision>)
        ensures
            view_contact(r) == detect_spec(sa@, sb@, pa@, pb@),
    {
        match sa {
            Shape::Circle { radius: ra } => match sb {
                Shape::Circle { radius: rb } => Self::circle_circle(*ra, *rb, pa, pb),
                Shape::Rect { w, h } => {
                    match Self::rect_circle(*w, *h, *ra, pb, pa) {
                        Some(c) => Some(Collision { normal: c.normal.neg(), depth: c.depth }),
                        None => None,
                    }
                },
                _ => None,
            },
            Shape::Rect { w, h } => match sb {
                Shape::Circle { radius: rb } => Self::rect_circle(*w, *h, *rb, pa, pb),
                _ => None,
            },
            _ => None,
        }
    }

    fn circle_circle(ra: Fx, rb: Fx, pa: &Physics, pb: &Physics) -> (r: Option<Collision>)
        ensures
            view_contact(r) == circle_circle_spec(ra@, rb@, pa@.position, pb@.position),
    {
        let d = pb.position.sub(pa.position);
        let rsum = ra.add(rb);
        if d.magnitude2().lt(rsum.mul(rsum)) {
            let normal = d.unit();
            let start = pb.position.sub(normal.mul(rb));
            let end = pa.position.add(normal.mul(ra));
            Some(Collision { normal, depth: start.sub(end).magnitude() })
        } else {
            None
        }
    }

    fn rect_circle(w: Fx, h: Fx, radius: Fx, pr: &Physics, pc: &Physics) -> (r: Option<Collision>)
        ensures
            view_contact(r) == rect_circle_spec(w@, h@, radius@, pr@.position, pc@.position),
    {
        let half = Fx::from_raw(5_000);
        let left = pr.position.x.sub(w.mul(half));
        let right = pr.position.x.add(w.mul(half));
        let top = pr.position.y.sub(h.mul(half));
        let bottom = pr.position.y.add(h.mul(half));
        let d = Vec2::new(
            pc.position.x.sub(clamp_fx(pc.position.x, left, right)),
            pc.position.y.sub(clamp_fx(pc.position.y, top, bottom)),
        );
        if d.magnitude2().le(radius.mul(radius)) {
            if d.magnitude().raw <= EPSILON_RAW {
                let dl = pc.position.x.sub(left);
                let dr = right.sub(pc.position.x);
                let dtop = pc.position.y.sub(top);
                let dbottom = bottom.sub(pc.position.y);
                let m = dl.min(dr).min(dtop).min(dbottom);
                let normal = if m.raw == dl.raw {
                    Vec2::new(Fx::from_raw(-SCALE), Fx::zero())
                } else if m.raw == dr.raw {
                    Vec2::new(Fx::from_raw(SCALE), Fx::zero())
                } else if m.raw == dtop.raw {
                    Vec2::new(Fx::zero(), Fx::from_raw(-SCALE))
                } else {
                    Vec2::new(Fx::zero(), Fx::from_raw(SCALE))
                };
                Some(Collision { normal, depth: radius.add(m) })
            } else {
                Some(Collision { normal: d.unit(), depth: radius.sub(d.magnitude()) })
            }
        } else {
            None
        }
    }

    /// The positional correction pair; the caller subtracts the first
    /// displacement from the first body's position and adds the second
    /// to the second body's.  Requires at least one body to be
    /// movable.
    pub fn resolve_penetration(&self, inverse_mass_a: Fx, inverse_mass_b: Fx) -> (r: (Vec2, Vec2))
        requires
            inverse_mass_a@ >= 0,
            inverse_mass_b@ >= 0,
            inverse_mass_a@ + inverse_mass_b@ > 0,
        ensures
            (r.0@, r.1@) == resolve_penetration_spec(self@, inverse_mass_a@, inverse_mass_b@),
    {
        let d = self.depth.div(inverse_mass_a.add(inverse_mass_b));
        (self.normal.mul(d).mul(inverse_mass_a), self.normal.mul(d).mul(inverse_mass_b))
    }

    /// The impulse along the contact normal; the caller applies it
    /// positively to the first body and negated to the second.
    /// Requires at least one body to be movable.
    pub fn resolve_impulse(&self, pa: &Physics, pb: &Physics) -> (r: Vec2)
        requires
            pa@.inverse_mass >= 0,
            pb@.inverse_mass >= 0,
            pa@.inverse_mass + pb@.inverse_mass > 0,
        ensures
            r@ == resolve_impulse_spec(self@, pa@, pb@),
    {
        let e = pa.restitution.min(pb.restitution);
        let v = pa.velocity.sub(pb.velocity);
        let magnitude = Fx::one().add(e).neg().mul(self.normal.dot(v)).div(
            pa.inverse_mass.add(pb.inverse_mass),
        );
        self.normal.mul(magnitude)
    }
}

/// Subtraction in the other order negates the difference vector.
proof fn lemma_v2_sub_antisym(a: V2, b: V2)
    ensures
        v2_sub(b, a) == v2_neg(v2_sub(a, b)),
{
    crate::fx::lemma_sat_neg(a.x - b.x);
    crate::fx::lemma_sat_neg(a.y - b.y);
}

/// Subtracting a representable vector's negation adds it.
proof fn lemma_v2_sub_neg(a: V2, s: V2)
    requires
        crate::vec2::v2_in_range(s),
    ensures
        v2_sub(a, v2_neg(s)) == v2_add(a, s),
{
}

/// A unit vector's components are representable.
proof fn lemma_v2_unit_in_range(a: V2)
    ensures
        crate::vec2::v2_in_range(v2_unit(a)),
{
}

/// Negating a contact's normal twice returns the contact.
proof fn lemma_flip_flip(o: Option<CollisionV>)
    requires
        match o {
            Some(c) => crate::vec2::v2_in_range(c.normal),
            None => true,
        },
    ensures
        flip_contact(flip_contact(o)) == o,
{
}

/// Every normal a box-against-circle contact reports is
/// representable.
proof fn lemma_rect_circle_normal_in_range(w: int, h: int, radius: int, pr: V2, pc: V2)
    ensures
        match rect_circle_spec(w, h, radius, pr, pc) {
            Some(c) => crate::vec2::v2_in_range(c.normal),
            None => true,
        },
{
    let left = sat(pr.x - mul_m(w, 5_000));
    let right = sat(pr.x + mul_m(w, 5_000));
    let top = sat(pr.y - mul_m(h, 5_000));
    let bottom = sat(pr.y + mul_m(h, 5_000));
    let d = V2 {
        x: sat(pc.x - clamp_raw(pc.x, left, right)),
        y: sat(pc.y - clamp_raw(pc.y, top, bottom)),
    };
    lemma_v2_unit_in_range(d);
}

/// Swapping the two circles negates the contact normal and keeps the
/// depth: every intermediate of the mirrored computation is the exact
/// negation of the unswapped call's.
proof fn lemma_circle_circle_swap(ra: int, rb: int, pa: V2, pb: V2)
    ensures
        circle_circle_spec(rb, ra, pb, pa) == flip_contact(circle_circle_spec(ra, rb, pa, pb)),
{
    let d = v2_sub(pb, pa);
    lemma_v2_sub_antisym(pb, pa);
    crate::vec2::lemma_v2_mag_neg(d);
    if v2_mag2(d) < mul_m(sat(ra + rb), sat(ra + rb)) {
        let n = v2_unit(d);
        crate::vec2::lemma_v2_unit_neg(d);
        lemma_v2_unit_in_range(d);
        crate::vec2::lemma_v2_scale_neg(n, ra);
        crate::vec2::lemma_v2_scale_neg(n, rb);
        let start = v2_sub(pb, v2_scale(n, rb));
        let end = v2_add(pa, v2_scale(n, ra));
        lemma_v2_sub_neg(pa, v2_scale(n, ra));
        lemma_v2_sub_neg(pb, v2_scale(n, rb));
        assert(v2_sub(pa, v2_scale(v2_neg(n), ra)) == end);
        assert(v2_add(pb, v2_scale(v2_neg(n), rb)) == start) by {
            crate::fx::lemma_sat_neg(v2_scale(n, rb).x);
            crate::fx::lemma_sat_neg(v2_scale(n, rb).y);
        }
        lemma_v2_sub_antisym(start, end);
        crate::vec2::lemma_v2_mag_neg(v2_sub(start, end));
    }
}

/// Detection accepts the two shapes and bodies in either order:
/// swapping the arguments yields the same contact with the normal
/// negated, so it always points from the first argument toward the
/// second.
pub proof fn lemma_detect_order_antisymmetric(sa: ShapeV, sb: ShapeV, pa: PhysicsV, pb: PhysicsV)
    ensures
        detect_spec(sb, sa, pb, pa) == flip_contact(detect_spec(sa, sb, pa, pb)),
{
    match (sa, sb) {
        (ShapeV::Circle { radius: ra }, ShapeV::Circle { radius: rb }) => {
            lemma_circle_circle_swap(ra, rb, pa.position, pb.position);
        },
        (ShapeV::Circle { radius: ra }, ShapeV::Rect { w, h }) => {
            lemma_rect_circle_normal_in_range(w, h, ra, pb.position, pa.position);
            lemma_flip_flip(rect_circle_spec(w, h, ra, pb.position, pa.position));
        },
        _ => {},
    }
}

/// The penetration resolver is antisymmetric under argument swap:
/// swapping the two bodies and negating the contact normal yields the
/// displacement pair swapped and negated.
pub proof fn lemma_resolve_penetration_antisymmetric(
    c: CollisionV,
    inverse_mass_a: int,
    inverse_mass_b: int,
)
    requires
        -RAW_MAX <= c.normal.x <= RAW_MAX,
        -RAW_MAX <= c.normal.y <= RAW_MAX,
    ensures
        ({
            let r = resolve_penetration_spec(c, inverse_mass_a, inverse_mass_b);
            let s = resolve_penetration_spec(
                CollisionV { normal: v2_neg(c.normal), depth: c.depth },
                inverse_mass_b,
                inverse_mass_a,
            );
            &&& s.0 == v2_neg(r.1)
            &&& s.1 == v2_neg(r.0)
        }),
{
    let q = div_m(c.depth, sat(inverse_mass_a + inverse_mass_b));
    lemma_mul_m_neg(c.normal.x, q);
    lemma_mul_m_neg(c.normal.y, q);
    let nq = v2_scale(c.normal, q);
    lemma_mul_m_neg(nq.x, inverse_mass_a);
    lemma_mul_m_neg(nq.y, inverse_mass_a);
    lemma_mul_m_neg(nq.x, inverse_mass_b);
    lemma_mul_m_neg(nq.y, inverse_mass_b);
}

/// The classic equal-mass elastic exchange: for bodies of unit mass
/// and restitution one, with the first moving at `(v, 0)` toward the
/// second at rest along the contact normal `(1, 0)`, applying the
/// impulse to the first body and its negation to the second leaves
/// the first at rest and the second moving at exactly `(v, 0)`.
pub proof fn lemma_elastic_exchange_unit_mass(c: CollisionV, pa: PhysicsV, pb: PhysicsV, v: int)
    requires
        c.normal == (V2 { x: SCALE as int, y: 0 }),
        pa.velocity == (V2 { x: v, y: 0 }),
        pb.velocity == (V2 { x: 0, y: 0 }),
        pa.restitution == SCALE as int,
        pb.restitution == SCALE as int,
        pa.inverse_mass == SCALE as int,
        pb.inverse_mass == SCALE as int,
        -(RAW_MAX / 2) <= v <= RAW_MAX / 2,
    ensures
        ({
            let imp = resolve_impulse_spec(c, pa, pb);
            let va2 = v2_add(pa.velocity, v2_scale(imp, pa.inverse_mass));
            let vb2 = v2_add(pb.velocity, v2_scale(v2_neg(imp), pb.inverse_mass));
            &&& va2 == (V2 { x: 0, y: 0 })
            &&& vb2 == (V2 { x: v, y: 0 })
        }),
{
    let s = SCALE as int;
    lemma_mul_m_one(v);
    lemma_mul_m_zero(0);
    assert(v2_dot(c.normal, v2_sub(pa.velocity, pb.velocity)) == v);
    lemma_mul_m_neg(2 * s, v);
    assert((2 * s) * v == (2 * v) * s) by (nonlinear_arith);
    lemma_tdiv_multiple(2 * v, s);
    assert(mul_m(2 * s, v) == 2 * v);
    assert(mul_m(sat(-sat(s + s)), v) == -(2 * v));
    assert((-(2 * v)) * s == (-v) * (2 * s)) by (nonlinear_arith);
    lemma_tdiv_multiple(-v, 2 * s);
    assert(div_m(-(2 * v), sat(s + s)) == -v);
    let imp = resolve_impulse_spec(c, pa, pb);
    lemma_mul_m_one(-v);
    lemma_mul_m_zero(-v);
    assert(imp == (V2 { x: -v, y: 0 }));
    lemma_mul_m_zero(s);
}

/// With equal inverse masses, applying an impulse to one body and its
/// negation to the other preserves the componentwise sum of the two
/// velocities exactly, whenever no component saturates: the
/// equal-mass exchange conserves momentum.
pub proof fn lemma_equal_mass_exchange_conserves_velocity_sum(
    imp: V2,
    pa: PhysicsV,
    pb: PhysicsV,
    w: int,
)
    requires
        pa.inverse_mass == w,
        pb.inverse_mass == w,
        -RAW_MAX <= imp.x <= RAW_MAX,
        -RAW_MAX <= imp.y <= RAW_MAX,
        -RAW_MAX <= pa.velocity.x + mul_m(imp.x, w) <= RAW_MAX,
        -RAW_MAX <= pa.velocity.y + mul_m(imp.y, w) <= RAW_MAX,
        -RAW_MAX <= pb.velocity.x - mul_m(imp.x, w) <= RAW_MAX,
        -RAW_MAX <= pb.velocity.y - mul_m(imp.y, w) <= RAW_MAX,
    ensures
        ({
            let va2 = v2_add(pa.velocity, v2_scale(imp, w));
            let vb2 = v2_add(pb.velocity, v2_scale(v2_neg(imp), w));
            &&& va2.x + vb2.x == pa.velocity.x + pb.velocity.x
            &&& va2.y + vb2.y == pa.velocity.y + pb.velocity.y
        }),
{
    lemma_mul_m_neg(imp.x, w);
    lemma_mul_m_neg(imp.y, w);
}

/// Clamp a scalar into a closed interval, low end first.
fn clamp_fx(v: Fx, lo: Fx, hi: Fx) -> (r: Fx)
    ensures
        r@ == clamp_raw(v@, lo@, hi@),
{
    if v.raw < lo.raw {
        lo
    } else if v.raw > hi.raw {
        hi
    } else {
        v
    }
}

} // verus!
