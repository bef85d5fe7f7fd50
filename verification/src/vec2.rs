//! 2D vectors over fixed-point scalars.
//!
//! A vector is a pair of `Fx` components with value semantics: every
//! operation returns a new vector.  The mathematical model of a vector
//! is `V2`, a pair of raw integer values, and each operation's
//! contract states the exact model it returns.

use crate::fx::div_m;
use crate::fx::mul_m;
use crate::fx::sat;
use crate::fx::sqrt_m;
use crate::fx::Fx;
use crate::fx::EPSILON_RAW;
use crate::fx::RAW_MAX;
use vstd::arithmetic::div_mod::lemma_div_pos_is_pos;
use vstd::prelude::*;

verus! {

/// Model of a vector: the raw values of its two components.
pub ghost struct V2 {
    pub x: int,
    pub y: int,
}

pub open spec fn v2_zero() -> V2 {
    V2 { x: 0, y: 0 }
}

pub open spec fn v2_add(a: V2, b: V2) -> V2 {
    V2 { x: sat(a.x + b.x), y: sat(a.y + b.y) }
}

pub open spec fn v2_sub(a: V2, b: V2) -> V2 {
    V2 { x: sat(a.x - b.x), y: sat(a.y - b.y) }
}

pub open spec fn v2_neg(a: V2) -> V2 {
    V2 { x: sat(-a.x), y: sat(-a.y) }
}

pub open spec fn v2_scale(a: V2, k: int) -> V2 {
    V2 { x: mul_m(a.x, k), y: mul_m(a.y, k) }
}

pub open spec fn v2_div(a: V2, k: int) -> V2 {
    V2 { x: div_m(a.x, k), y: div_m(a.y, k) }
}

pub open spec fn v2_dot(a: V2, b: V2) -> int {
    sat(mul_m(a.x, b.x) + mul_m(a.y, b.y))
}

pub open spec fn v2_mag2(a: V2) -> int {
    v2_dot(a, a)
}

pub open spec fn v2_mag(a: V2) -> int {
    sqrt_m(v2_mag2(a))
}

/// `unit` returns the zero vector for vectors whose magnitude is
/// within tolerance of zero, and the componentwise quotient by the
/// magnitude otherwise.
pub open spec fn v2_unit(a: V2) -> V2 {
    let m = v2_mag(a);
    if m <= EPSILON_RAW {
        v2_zero()
    } else {
        v2_div(a, m)
    }
}

/// `self - normal * 2 * dot(self, normal)`, the reflection of a
/// direction off a surface with the given outward normal.
pub open spec fn v2_reflect(a: V2, n: V2) -> V2 {
    v2_sub(a, v2_scale(v2_scale(n, sat(2 * (crate::fx::SCALE as int))), v2_dot(a, n)))
}

/// The standard rotation matrix, with the fixed-point sine and
/// cosine of the angle.
pub open spec fn v2_rotate(a: V2, rads: int) -> V2 {
    let c = crate::fx::cos_m(rads);
    let s = crate::fx::sin_m(rads);
    V2 {
        x: sat(mul_m(a.x, c) - mul_m(a.y, s)),
        y: sat(mul_m(a.x, s) + mul_m(a.y, c)),
    }
}

pub open spec fn v2_nearly_zero(a: V2) -> bool {
    -EPSILON_RAW <= a.x <= EPSILON_RAW && -EPSILON_RAW <= a.y <= EPSILON_RAW
}

pub open spec fn v2_nearly_eq(a: V2, b: V2) -> bool {
    v2_nearly_zero(v2_sub(a, b))
}

/// The square of a raw value, scaled down, is never negative.
pub proof fn lemma_mul_m_self_nonneg(x: int)
    ensures
        0 <= mul_m(x, x) <= RAW_MAX,
{
    assert(x * x >= 0) by (nonlinear_arith);
    lemma_div_pos_is_pos(x * x, crate::fx::SCALE as int);
}

/// A squared magnitude is never negative.
pub proof fn lemma_mag2_nonneg(a: V2)
    ensures
        0 <= v2_mag2(a) <= RAW_MAX,
{
    lemma_mul_m_self_nonneg(a.x);
    lemma_mul_m_self_nonneg(a.y);
}

/// A vector's components, and those of any vector built from
/// saturating operations, lie in the representable range.
pub open spec fn v2_in_range(a: V2) -> bool {
    &&& -RAW_MAX <= a.x <= RAW_MAX
    &&& -RAW_MAX <= a.y <= RAW_MAX
}

/// Negation leaves the squared magnitude, and so the magnitude,
/// unchanged.
pub proof fn lemma_v2_mag_neg(a: V2)
    requires
        v2_in_range(a),
    ensures
        v2_mag2(v2_neg(a)) == v2_mag2(a),
        v2_mag(v2_neg(a)) == v2_mag(a),
{
    assert((-a.x) * (-a.x) == a.x * a.x) by (nonlinear_arith);
    assert((-a.y) * (-a.y) == a.y * a.y) by (nonlinear_arith);
}

/// The unit vector of a negated vector is the negated unit vector.
pub proof fn lemma_v2_unit_neg(a: V2)
    requires
        v2_in_range(a),
    ensures
        v2_unit(v2_neg(a)) == v2_neg(v2_unit(a)),
{
    lemma_v2_mag_neg(a);
    let m = v2_mag(a);
    if m <= EPSILON_RAW {
    } else {
        crate::fx::lemma_tdiv_neg(a.x * (crate::fx::SCALE as int), m);
        crate::fx::lemma_tdiv_neg(a.y * (crate::fx::SCALE as int), m);
        crate::fx::lemma_sat_neg(crate::fx::tdiv(a.x * (crate::fx::SCALE as int), m));
        crate::fx::lemma_sat_neg(crate::fx::tdiv(a.y * (crate::fx::SCALE as int), m));
        assert((-a.x) * (crate::fx::SCALE as int) == -(a.x * (crate::fx::SCALE as int)));
        assert((-a.y) * (crate::fx::SCALE as int) == -(a.y * (crate::fx::SCALE as int)));
    }
}

/// Scaling a negated vector negates the scaled vector.
pub proof fn lemma_v2_scale_neg(a: V2, k: int)
    requires
        v2_in_range(a),
    ensures
        v2_scale(v2_neg(a), k) == v2_neg(v2_scale(a, k)),
        v2_in_range(v2_scale(a, k)),
{
    crate::fx::lemma_mul_m_neg(a.x, k);
    crate::fx::lemma_mul_m_neg(a.y, k);
}

/// For non-negative `a` and positive `d`, the Euclidean quotient
/// brackets `a` within one divisor.
proof fn lemma_div_range(a: int, d: int)
    requires
        a >= 0,
        d > 0,
    ensures
        d * (a / d) <= a < d * (a / d) + d,
        a / d >= 0,
{
    vstd::arithmetic::div_mod::lemma_fundamental_div_mod(a, d);
    vstd::arithmetic::div_mod::lemma_mod_division_less_than_divisor(a, d);
    lemma_div_pos_is_pos(a, d);
}

/// Truncated division of a scaled component by a positive magnitude,
/// reduced to the non-negative case.
proof fn lemma_scaled_div_abs(x: int, m: int)
    requires
        m > 0,
    ensures
        ({
            let ax = if x >= 0 { x } else { -x };
            let q = (ax * (crate::fx::SCALE as int)) / m;
            &&& crate::fx::tdiv(x * (crate::fx::SCALE as int), m) == if x >= 0 { q } else { -q }
            &&& q >= 0
            &&& m * q <= ax * (crate::fx::SCALE as int) < m * q + m
        }),
{
    let s = crate::fx::SCALE as int;
    let ax = if x >= 0 { x } else { -x };
    assert(ax * s >= 0) by (nonlinear_arith)
        requires
            ax >= 0,
            s > 0,
    ;
    lemma_div_range(ax * s, m);
    if x < 0 {
        assert(x * s == -(ax * s));
    }
}

/// The magnitude of `unit` is one within tolerance: for a vector of
/// magnitude at least one whose components are small enough that no
/// intermediate saturates, the unit vector's magnitude is within the
/// tolerance of one; for a vector of magnitude within the tolerance
/// of zero, `unit` is exactly the zero vector.
pub proof fn lemma_unit_magnitude(a: V2)
    requires
        -100_000_000_000 <= a.x <= 100_000_000_000,
        -100_000_000_000 <= a.y <= 100_000_000_000,
    ensures
        v2_mag(a) <= EPSILON_RAW ==> v2_unit(a) == v2_zero(),
        v2_mag(a) >= crate::fx::SCALE as int ==> (crate::fx::SCALE as int) - EPSILON_RAW <= v2_mag(
            v2_unit(a),
        ) <= (crate::fx::SCALE as int) + EPSILON_RAW,
{
    let s = crate::fx::SCALE as int;
    let x = a.x;
    let y = a.y;
    let n = x * x + y * y;
    assert(0 <= x * x <= 10_000_000_000_000_000_000_000 && 0 <= y * y
        <= 10_000_000_000_000_000_000_000) by (nonlinear_arith)
        requires
            -100_000_000_000 <= x <= 100_000_000_000,
            -100_000_000_000 <= y <= 100_000_000_000,
    ;
    let q1 = (x * x) / s;
    let q2 = (y * y) / s;
    lemma_div_range(x * x, s);
    lemma_div_range(y * y, s);
    assert(crate::fx::tdiv(x * x, s) == q1);
    assert(crate::fx::tdiv(y * y, s) == q2);
    assert(mul_m(x, x) == q1 && mul_m(y, y) == q2);
    let qq = q1 + q2;
    assert(v2_mag2(a) == qq);
    assert(s * qq <= n < s * qq + 2 * s);
    let m = v2_mag(a);
    crate::fx::lemma_isqrt_bounds(qq * s);
    assert(qq * s == s * qq) by (nonlinear_arith);
    assert(m == crate::fx::isqrt(qq * s));
    assert(m * m <= s * qq && s * qq < (m + 1) * (m + 1));
    if m <= EPSILON_RAW {
        assert(v2_unit(a) == v2_zero());
    }
    if m >= s {
        let u = v2_unit(a);
        assert(u == v2_div(a, m));
        let ax = if x >= 0 {
            x
        } else {
            -x
        };
        let ay = if y >= 0 {
            y
        } else {
            -y
        };
        lemma_scaled_div_abs(x, m);
        lemma_scaled_div_abs(y, m);
        let px = (ax * s) / m;
        let py = (ay * s) / m;
        assert(x * x == ax * ax && y * y == ay * ay) by (nonlinear_arith)
            requires
                ax == if x >= 0 { x } else { -x },
                ay == if y >= 0 { y } else { -y },
        ;
        // the components of `a` are at most `m + s`
        assert(n < (m + 1) * (m + 1) + 2 * s);
        assert(ax * ax <= n && ay * ay <= n);
        assert(ax <= m + s && ay <= m + s) by (nonlinear_arith)
            requires
                ax * ax <= n,
                ay * ay <= n,
                n < (m + 1) * (m + 1) + 2 * s,
                ax >= 0,
                ay >= 0,
                m >= s,
                s == 10_000,
        ;
        // so the unit components are at most `2 s` and do not saturate
        assert(px <= 2 * s && py <= 2 * s) by (nonlinear_arith)
            requires
                m * px <= ax * s,
                m * py <= ay * s,
                ax <= m + s,
                ay <= m + s,
                px >= 0,
                py >= 0,
                m >= s,
                s == 10_000,
        ;
        assert(u.x == if x >= 0 { px } else { -px });
        assert(u.y == if y >= 0 { py } else { -py });
        assert(u.x * u.x == px * px && u.y * u.y == py * py) by (nonlinear_arith)
            requires
                u.x == if x >= 0 { px } else { -px },
                u.y == if y >= 0 { py } else { -py },
        ;
        let bigu = px * px + py * py;
        // upper bound on the squared unit components
        assert(m * m * (px * px) <= (ax * ax) * (s * s)) by (nonlinear_arith)
            requires
                0 <= m * px <= ax * s,
        ;
        assert(m * m * (py * py) <= (ay * ay) * (s * s)) by (nonlinear_arith)
            requires
                0 <= m * py <= ay * s,
        ;
        assert(m * m * bigu == m * m * (px * px) + m * m * (py * py)) by (nonlinear_arith)
            requires
                bigu == px * px + py * py,
        ;
        assert(n * s * s == (ax * ax) * (s * s) + (ay * ay) * (s * s)) by (nonlinear_arith)
            requires
                n == ax * ax + ay * ay,
        ;
        assert(m * m * bigu <= n * s * s);
        assert(bigu <= s * s + 4 * s + 1) by (nonlinear_arith)
            requires
                m * m * bigu <= n * s * s,
                n < (m + 1) * (m + 1) + 2 * s,
                m >= s,
                s == 10_000,
                bigu >= 0,
        ;
        // lower bound on the squared unit components
        assert(0 <= ax * s && 0 <= ay * s) by (nonlinear_arith)
            requires
                ax >= 0,
                ay >= 0,
                s > 0,
        ;
        assert(m * (px + 1) == m * px + m && m * (py + 1) == m * py + m) by (nonlinear_arith);
        assert((ax * ax) * (s * s) < m * m * ((px + 1) * (px + 1))) by (nonlinear_arith)
            requires
                0 <= ax * s < m * (px + 1),
        ;
        assert((ay * ay) * (s * s) < m * m * ((py + 1) * (py + 1))) by (nonlinear_arith)
            requires
                0 <= ay * s < m * (py + 1),
        ;
        assert(m * m * ((px + 1) * (px + 1)) + m * m * ((py + 1) * (py + 1)) == m * m * (bigu + 2
            * px + 2 * py + 2)) by (nonlinear_arith)
            requires
                bigu == px * px + py * py,
        ;
        assert(n * s * s < m * m * (bigu + 2 * px + 2 * py + 2));
        assert(bigu > s * s - 8 * s - 2) by (nonlinear_arith)
            requires
                n * s * s < m * m * (bigu + 2 * px + 2 * py + 2),
                m * m <= s * qq,
                s * qq <= n,
                px <= 2 * s,
                py <= 2 * s,
                m > 0,
                s == 10_000,
        ;
        // the squared magnitude of the unit vector
        let r1 = (px * px) / s;
        let r2 = (py * py) / s;
        assert(px * px >= 0 && py * py >= 0) by (nonlinear_arith)
            requires
                px >= 0,
                py >= 0,
        ;
        lemma_div_range(px * px, s);
        lemma_div_range(py * py, s);
        assert(mul_m(u.x, u.x) == r1 && mul_m(u.y, u.y) == r2);
        let rr = r1 + r2;
        assert(v2_mag2(u) == rr);
        assert(s * rr <= bigu < s * rr + 2 * s);
        let mu = v2_mag(u);
        crate::fx::lemma_isqrt_bounds(rr * s);
        assert(rr * s == s * rr) by (nonlinear_arith);
        assert(mu == crate::fx::isqrt(rr * s));
        assert(mu * mu <= s * rr && s * rr < (mu + 1) * (mu + 1));
        assert(mu <= s + 2) by (nonlinear_arith)
            requires
                mu * mu <= s * rr,
                s * rr <= bigu,
                bigu <= s * s + 4 * s + 1,
                mu >= 0,
                s == 10_000,
        ;
        assert(mu >= s - 6) by (nonlinear_arith)
            requires
                s * rr < (mu + 1) * (mu + 1),
                bigu < s * rr + 2 * s,
                bigu > s * s - 8 * s - 2,
                mu >= 0,
                s == 10_000,
        ;
    }
}

/// A 2D vector with fixed-point components.
#[derive(Clone, Copy, Debug, PartialEq, Eq, Structural)]
pub struct Vec2 {
    pub x: Fx,
    pub y: Fx,
}

impl View for Vec2 {
    type V = V2;

    open spec fn view(&self) -> V2 {
        V2 { x: self.x@, y: self.y@ }
    }
}

impl Vec2 {
    pub fn new(x: Fx, y: Fx) -> (r: Vec2)
        ensures
            r@ == (V2 { x: x@, y: y@ }),
    {
        Vec2 { x, y }
    }

    /// The vector for a whole number of units on each axis.
    pub fn from_ints(x: i64, y: i64) -> (r: Vec2)
        ensures
            r@ == (V2 {
                x: sat(x * (crate::fx::SCALE as int)),
                y: sat(y * (crate::fx::SCALE as int)),
            }),
    {
        Vec2 { x: Fx::from_int(x), y: Fx::from_int(y) }
    }

    pub fn zero() -> (r: Vec2)
        ensures
            r@ == v2_zero(),
    {
        Vec2 { x: Fx::zero(), y: Fx::zero() }
    }

    pub fn add(self, other: Vec2) -> (r: Vec2)
        ensures
            r@ == v2_add(self@, other@),
    {
        Vec2 { x: self.x.add(other.x), y: self.y.add(other.y) }
    }

    pub fn sub(self, other: Vec2) -> (r: Vec2)
        ensures
            r@ == v2_sub(self@, other@),
    {
        Vec2 { x: self.x.sub(other.x), y: self.y.sub(other.y) }
    }

    pub fn neg(self) -> (r: Vec2)
        ensures
            r@ == v2_neg(self@),
    {
        Vec2 { x: self.x.neg(), y: self.y.neg() }
    }

    /// Componentwise scaling by a scalar.
    pub fn mul(self, k: Fx) -> (r: Vec2)
        ensures
            r@ == v2_scale(self@, k@),
    {
        Vec2 { x: self.x.mul(k), y: self.y.mul(k) }
    }

    /// Componentwise division by a scalar.
    pub fn div(self, k: Fx) -> (r: Vec2)
        requires
            k@ != 0,
        ensures
            r@ == v2_div(self@, k@),
    {
        Vec2 { x: self.x.div(k), y: self.y.div(k) }
    }

    pub fn dot(self, other: Vec2) -> (r: Fx)
        ensures
            r@ == v2_dot(self@, other@),
    {
        self.x.mul(other.x).add(self.y.mul(other.y))
    }

    pub fn magnitude2(self) -> (r: Fx)
        ensures
            r@ == v2_mag2(self@),
            r@ >= 0,
    {
        proof {
            lemma_mag2_nonneg(self@);
        }
        self.dot(self)
    }

    pub fn magnitude(self) -> (r: Fx)
        ensures
            r@ == v2_mag(self@),
            r@ >= 0,
    {
        self.magnitude2().sqrt()
    }

    /// The vector scaled to magnitude one, or the zero vector when the
    /// magnitude is within tolerance of zero.
    pub fn unit(self) -> (r: Vec2)
        ensures
            r@ == v2_unit(self@),
    {
        let m = self.magnitude();
        if m.raw <= EPSILON_RAW {
            Vec2::zero()
        } else {
            self.div(m)
        }
    }

    /// Rotation by an angle in fixed-point radians, through the
    /// standard rotation matrix with the fixed-point sine and cosine.
    pub fn rotate(&self, rads: Fx) -> (r: Vec2)
        ensures
            r@ == v2_rotate(self@, rads@),
    {
        let c = rads.cos();
        let s = rads.sin();
        Vec2 {
            x: self.x.mul(c).sub(self.y.mul(s)),
            y: self.x.mul(s).add(self.y.mul(c)),
        }
    }

    /// Reflect an inward direction off a surface with outward normal
    /// `normal`.
    pub fn reflect(self, normal: Vec2) -> (r: Vec2)
        ensures
            r@ == v2_reflect(self@, normal@),
    {
        self.sub(normal.mul(Fx::from_int(2)).mul(self.dot(normal)))
    }

    /// Both components within tolerance of zero.
    pub fn nearly_zero(&self) -> (r: bool)
        ensures
            r == v2_nearly_zero(self@),
    {
        let ax = self.x.abs();
        let ay = self.y.abs();
        ax.raw <= EPSILON_RAW && ay.raw <= EPSILON_RAW
    }

    /// Both components within tolerance of the other vector's.
    pub fn nearly_eq(&self, other: Vec2) -> (r: bool)
        ensures
            r == v2_nearly_eq(self@, other@),
    {
        self.sub(other).nearly_zero()
    }
}

} // verus!
