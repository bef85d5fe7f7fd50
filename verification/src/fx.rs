//! Fixed-point scalar arithmetic.
//!
//! A scalar is an `i64` counting `SCALE` raw units per world unit, so
//! `1.0` is `SCALE` raw units and one raw unit is the machine epsilon
//! of the representation.  Every operation is total: results outside
//! the symmetric representable range `[-i64::MAX, i64::MAX]` saturate,
//! and each operation's contract states the exact integer it returns.

use vstd::arithmetic::div_mod::lemma_div_nonincreasing;
use vstd::arithmetic::div_mod::lemma_div_of0;
use vstd::arithmetic::div_mod::lemma_div_pos_is_pos;
use vstd::prelude::*;

verus! {

/// Raw units per world unit.
pub const SCALE: i64 = 10_000;

/// Largest representable raw value.
pub const RAW_MAX: i64 = i64::MAX;

/// Smallest representable raw value; the range is symmetric so that
/// negation is its own inverse on every representable scalar.
pub const RAW_MIN: i64 = -i64::MAX;

/// Tolerance used by the near-equality helpers: ten raw units, the
/// analogue of ten machine epsilons.
pub const EPSILON_RAW: i64 = 10;

/// Clamp a mathematical result into the representable raw range.
pub open spec fn sat(x: int) -> int {
    if x > RAW_MAX {
        RAW_MAX as int
    } else if x < RAW_MIN {
        RAW_MIN as int
    } else {
        x
    }
}

/// Division truncated toward zero, as the machine divides.
pub open spec fn tdiv(a: int, b: int) -> int {
    if a >= 0 && b >= 0 {
        a / b
    } else if a < 0 && b < 0 {
        (-a) / (-b)
    } else if a < 0 {
        -((-a) / b)
    } else {
        -(a / (-b))
    }
}

/// The raw value of the product of two raw values.
pub open spec fn mul_m(a: int, b: int) -> int {
    sat(tdiv(a * b, SCALE as int))
}

/// The raw value of the quotient of two raw values.
pub open spec fn div_m(a: int, b: int) -> int {
    sat(tdiv(a * (SCALE as int), b))
}

/// Integer square root: the greatest `r` with `r * r <= n` (and `0`
/// for `n <= 0`).
pub open spec fn isqrt(n: int) -> int
    decreases n,
{
    if n <= 0 {
        0
    } else {
        let r = isqrt(n - 1);
        if (r + 1) * (r + 1) <= n {
            r + 1
        } else {
            r
        }
    }
}

/// The raw value of the square root of a non-negative raw value.
pub open spec fn sqrt_m(a: int) -> int {
    isqrt(a * (SCALE as int))
}

pub proof fn lemma_isqrt_bounds(n: int)
    requires
        n >= 0,
    ensures
        0 <= isqrt(n),
        isqrt(n) * isqrt(n) <= n,
        n < (isqrt(n) + 1) * (isqrt(n) + 1),
    decreases n,
{
    if n > 0 {
        lemma_isqrt_bounds(n - 1);
        let r = isqrt(n - 1);
        if (r + 1) * (r + 1) <= n {
            assert(n == (r + 1) * (r + 1)) by {
                assert(n - 1 < (r + 1) * (r + 1));
            }
            assert((r + 1 + 1) * (r + 1 + 1) > n) by (nonlinear_arith)
                requires
                    n == (r + 1) * (r + 1),
                    r >= 0,
            ;
        }
    }
}

/// How the truncated division relates to Euclidean division, and how
/// large its result can be.
pub proof fn lemma_tdiv_cases(x: int, d: int)
    requires
        d != 0,
    ensures
        x == 0 ==> tdiv(x, d) == 0,
        x > 0 && d > 0 ==> tdiv(x, d) == x / d,
        x < 0 && d < 0 ==> tdiv(x, d) == (x * -1) / (d * -1),
        x < 0 && d > 0 ==> tdiv(x, d) == ((x * -1) / d) * -1,
        x > 0 && d < 0 ==> tdiv(x, d) == (x / (d * -1)) * -1,
        tdiv(x, d) <= if x >= 0 { x } else { -x },
        -(if x >= 0 { x } else { -x }) <= tdiv(x, d),
{
    let xa = if x >= 0 { x } else { -x };
    let da = if d >= 0 { d } else { -d };
    if x == 0 {
        lemma_div_of0(da);
    } else {
        lemma_div_pos_is_pos(xa, da);
        lemma_div_nonincreasing(xa, da);
    }
}

pub proof fn lemma_isqrt_unique(n: int, r: int)
    requires
        n >= 0,
        r >= 0,
        r * r <= n,
        n < (r + 1) * (r + 1),
    ensures
        r == isqrt(n),
{
    lemma_isqrt_bounds(n);
    let s = isqrt(n);
    assert(r == s) by (nonlinear_arith)
        requires
            r >= 0,
            s >= 0,
            r * r <= n,
            n < (r + 1) * (r + 1),
            s * s <= n,
            n < (s + 1) * (s + 1),
    ;
}

/// The half turn, to the resolution of the scale.
pub const PI_RAW: i64 = 31_416;

/// The quarter turn, to the resolution of the scale.
pub const HALF_PI_RAW: i64 = 15_708;

/// The full turn, to the resolution of the scale.
pub const TWO_PI_RAW: i64 = 62_832;

/// An angle shifted by whole turns into `[-pi, pi]`.
pub open spec fn reduce_angle(r: int) -> int {
    let t = r - tdiv(r, TWO_PI_RAW as int) * (TWO_PI_RAW as int);
    if t > PI_RAW {
        t - TWO_PI_RAW
    } else if t < -PI_RAW {
        t + TWO_PI_RAW
    } else {
        t
    }
}

/// Sine on the first quadrant: the degree-seven Taylor polynomial
/// `t - t^3/6 + t^5/120 - t^7/5040` in fixed point.
pub open spec fn sin_quarter(t: int) -> int {
    let t2 = mul_m(t, t);
    let t3 = mul_m(t2, t);
    let t5 = mul_m(t3, t2);
    let t7 = mul_m(t5, t2);
    sat(sat(sat(t - div_m(t3, 60_000)) + div_m(t5, 1_200_000)) - div_m(t7, 50_400_000))
}

/// Sine of a reduced angle in `[-pi, pi]`, folded onto the first
/// quadrant by the symmetries of the sine.
pub open spec fn sin_reduced(t: int) -> int {
    if t >= 0 {
        if t > HALF_PI_RAW {
            sin_quarter((PI_RAW as int) - t)
        } else {
            sin_quarter(t)
        }
    } else {
        if -t > HALF_PI_RAW {
            sat(-sin_quarter((PI_RAW as int) + t))
        } else {
            sat(-sin_quarter(-t))
        }
    }
}

/// The sine of an angle in fixed-point radians.
pub open spec fn sin_m(r: int) -> int {
    sin_reduced(reduce_angle(r))
}

/// The cosine of an angle in fixed-point radians: the sine shifted by
/// a quarter turn.
pub open spec fn cos_m(r: int) -> int {
    let t = reduce_angle(r);
    let u = t + HALF_PI_RAW;
    if u > PI_RAW {
        sin_reduced(u - TWO_PI_RAW)
    } else {
        sin_reduced(u)
    }
}

/// Saturation is symmetric: negating the argument negates the result.
pub proof fn lemma_sat_neg(x: int)
    ensures
        sat(-x) == -sat(x),
{
}

/// Truncated division is symmetric in its dividend.
pub proof fn lemma_tdiv_neg(x: int, d: int)
    requires
        d > 0,
    ensures
        tdiv(-x, d) == -tdiv(x, d),
{
}

/// The remainder left by truncated division lies within one divisor
/// of zero.
pub proof fn lemma_tdiv_rem_range(r: int, d: int)
    requires
        d > 0,
    ensures
        -d < r - tdiv(r, d) * d < d,
{
    if r >= 0 {
        vstd::arithmetic::div_mod::lemma_fundamental_div_mod(r, d);
        vstd::arithmetic::div_mod::lemma_mod_division_less_than_divisor(r, d);
        assert(d * (r / d) == (r / d) * d) by (nonlinear_arith);
    } else {
        vstd::arithmetic::div_mod::lemma_fundamental_div_mod(-r, d);
        vstd::arithmetic::div_mod::lemma_mod_division_less_than_divisor(-r, d);
        assert(d * ((-r) / d) == ((-r) / d) * d) by (nonlinear_arith);
        assert((-(((-r) / d))) * d == -((((-r) / d)) * d)) by (nonlinear_arith);
    }
}

/// Dividing an exact multiple returns the factor.
pub proof fn lemma_tdiv_multiple(v: int, d: int)
    requires
        d > 0,
    ensures
        tdiv(v * d, d) == v,
{
    if v >= 0 {
        vstd::arithmetic::div_mod::lemma_div_multiples_vanish(v, d);
        assert(v * d == d * v) by (nonlinear_arith);
    } else {
        vstd::arithmetic::div_mod::lemma_div_multiples_vanish(-v, d);
        assert((-v) * d == d * (-v)) by (nonlinear_arith);
        assert((-v) * d == -(v * d)) by (nonlinear_arith);
    }
}

/// Multiplication by a representable value commutes with negation.
pub proof fn lemma_mul_m_neg(a: int, b: int)
    requires
        -RAW_MAX <= a <= RAW_MAX,
    ensures
        mul_m(-a, b) == -mul_m(a, b),
        -RAW_MAX <= mul_m(a, b) <= RAW_MAX,
{
    assert((-a) * b == -(a * b)) by (nonlinear_arith);
    lemma_tdiv_neg(a * b, SCALE as int);
    lemma_sat_neg(tdiv(a * b, SCALE as int));
}

/// Multiplication by zero vanishes.
pub proof fn lemma_mul_m_zero(b: int)
    ensures
        mul_m(0, b) == 0,
        mul_m(b, 0) == 0,
{
    assert(0 * b == 0) by (nonlinear_arith);
    assert(b * 0 == 0) by (nonlinear_arith);
}

/// Multiplying a representable value by one returns it.
pub proof fn lemma_mul_m_one(a: int)
    requires
        -RAW_MAX <= a <= RAW_MAX,
    ensures
        mul_m(a, SCALE as int) == a,
        mul_m(SCALE as int, a) == a,
{
    lemma_tdiv_multiple(a, SCALE as int);
    assert(a * (SCALE as int) == (SCALE as int) * a) by (nonlinear_arith);
}

/// A fixed-point scalar: `raw` counts units of `1 / SCALE`.
#[derive(Clone, Copy, Debug, PartialEq, Eq, Structural)]
pub struct Fx {
    pub raw: i64,
}

impl View for Fx {
    type V = int;

    open spec fn view(&self) -> int {
        self.raw as int
    }
}

impl Fx {
    /// The scalar with the given raw value.
    pub fn from_raw(raw: i64) -> (r: Fx)
        ensures
            r@ == raw as int,
    {
        Fx { raw }
    }

    /// The scalar for a whole number of units, saturating at the
    /// representable range.
    pub fn from_int(i: i64) -> (r: Fx)
        ensures
            r@ == sat(i * (SCALE as int)),
    {
        proof {
            lemma_i64_product_range(i as int, SCALE as int);
        }
        Fx { raw: clamp_i128((i as i128) * (SCALE as i128)) }
    }

    pub fn zero() -> (r: Fx)
        ensures
            r@ == 0,
    {
        Fx { raw: 0 }
    }

    pub fn one() -> (r: Fx)
        ensures
            r@ == SCALE as int,
    {
        Fx { raw: SCALE }
    }

    pub fn add(self, other: Fx) -> (r: Fx)
        ensures
            r@ == sat(self@ + other@),
    {
        Fx { raw: clamp_i128((self.raw as i128) + (other.raw as i128)) }
    }

    pub fn sub(self, other: Fx) -> (r: Fx)
        ensures
            r@ == sat(self@ - other@),
    {
        Fx { raw: clamp_i128((self.raw as i128) - (other.raw as i128)) }
    }

    pub fn neg(self) -> (r: Fx)
        ensures
            r@ == sat(-self@),
    {
        Fx { raw: clamp_i128(-(self.raw as i128)) }
    }

    pub fn mul(self, other: Fx) -> (r: Fx)
        ensures
            r@ == mul_m(self@, other@),
    {
        proof {
            lemma_i64_product_range(self.raw as int, other.raw as int);
        }
        let p: i128 = (self.raw as i128) * (other.raw as i128);
        Fx { raw: clamp_i128(tdiv_i128(p, SCALE as i128)) }
    }

    pub fn div(self, other: Fx) -> (r: Fx)
        requires
            other@ != 0,
        ensures
            r@ == div_m(self@, other@),
    {
        proof {
            lemma_i64_product_range(self.raw as int, SCALE as int);
        }
        let p: i128 = (self.raw as i128) * (SCALE as i128);
        Fx { raw: clamp_i128(tdiv_i128(p, other.raw as i128)) }
    }

    /// The greatest scalar whose square does not exceed `self`.
    pub fn sqrt(self) -> (r: Fx)
        requires
            self@ >= 0,
        ensures
            r@ == sqrt_m(self@),
            r@ >= 0,
    {
        let n: u128 = (self.raw as u128) * (SCALE as u128);
        let root: u128 = isqrt_u128(n);
        proof {
            assert(n < 0x10000000000000000000000int) by (nonlinear_arith)
                requires
                    n == (self.raw as int) * (SCALE as int),
                    0 <= self.raw < 0x8000_0000_0000_0000,
                    SCALE == 10_000,
            ;
            assert(root < 0x8000_0000_0000_0000) by (nonlinear_arith)
                requires
                    root * root <= n,
                    n < 0x10000000000000000000000int,
            ;
            lemma_isqrt_unique(n as int, root as int);
        }
        Fx { raw: root as i64 }
    }

    pub fn abs(self) -> (r: Fx)
        ensures
            r@ == sat(if self@ < 0 { -self@ } else { self@ }),
    {
        if self.raw < 0 {
            self.neg()
        } else {
            self
        }
    }

    pub fn min(self, other: Fx) -> (r: Fx)
        ensures
            r@ == if self@ <= other@ { self@ } else { other@ },
    {
        if self.raw <= other.raw {
            self
        } else {
            other
        }
    }

    pub fn max(self, other: Fx) -> (r: Fx)
        ensures
            r@ == if self@ >= other@ { self@ } else { other@ },
    {
        if self.raw >= other.raw {
            self
        } else {
            other
        }
    }

    /// The angle shifted by whole turns into `[-pi, pi]`.
    pub fn reduce_angle(self) -> (r: Fx)
        ensures
            r@ == reduce_angle(self@),
            -PI_RAW <= r@ <= PI_RAW,
    {
        proof {
            lemma_tdiv_cases(self.raw as int, TWO_PI_RAW as int);
            lemma_tdiv_rem_range(self.raw as int, TWO_PI_RAW as int);
        }
        let q: i128 = tdiv_i128(self.raw as i128, TWO_PI_RAW as i128);
        proof {
            assert(q * (TWO_PI_RAW as i128) <= 0x1_0000_0000_0000_0000_0000 && -0x1_0000_0000_0000_0000_0000
                <= q * (TWO_PI_RAW as i128)) by (nonlinear_arith)
                requires
                    -0x8000_0000_0000_0000 <= q <= 0x8000_0000_0000_0000,
            ;
        }
        let t128: i128 = (self.raw as i128) - q * (TWO_PI_RAW as i128);
        let t: i64 = t128 as i64;
        if t > PI_RAW {
            Fx { raw: t - TWO_PI_RAW }
        } else if t < -PI_RAW {
            Fx { raw: t + TWO_PI_RAW }
        } else {
            Fx { raw: t }
        }
    }

    /// The sine of this angle in fixed-point radians.
    pub fn sin(self) -> (r: Fx)
        ensures
            r@ == sin_m(self@),
    {
        let t = self.reduce_angle();
        Fx::sin_reduced_exec(t)
    }

    /// The cosine of this angle in fixed-point radians.
    pub fn cos(self) -> (r: Fx)
        ensures
            r@ == cos_m(self@),
    {
        let t = self.reduce_angle();
        let u: i64 = t.raw + HALF_PI_RAW;
        let u2: i64 = if u > PI_RAW {
            u - TWO_PI_RAW
        } else {
            u
        };
        Fx::sin_reduced_exec(Fx { raw: u2 })
    }

    /// Sine of a reduced angle, folded onto the first quadrant.
    fn sin_reduced_exec(t: Fx) -> (r: Fx)
        requires
            -PI_RAW <= t@ <= PI_RAW,
        ensures
            r@ == sin_reduced(t@),
    {
        if t.raw >= 0 {
            if t.raw > HALF_PI_RAW {
                Fx::sin_quarter_exec(Fx { raw: PI_RAW - t.raw })
            } else {
                Fx::sin_quarter_exec(t)
            }
        } else {
            if -t.raw > HALF_PI_RAW {
                Fx::sin_quarter_exec(Fx { raw: PI_RAW + t.raw }).neg()
            } else {
                Fx::sin_quarter_exec(Fx { raw: -t.raw }).neg()
            }
        }
    }

    /// The degree-seven Taylor polynomial for the sine.
    fn sin_quarter_exec(t: Fx) -> (r: Fx)
        ensures
            r@ == sin_quarter(t@),
    {
        let t2 = t.mul(t);
        let t3 = t2.mul(t);
        let t5 = t3.mul(t2);
        let t7 = t5.mul(t2);
        t.sub(t3.div(Fx { raw: 60_000 })).add(t5.div(Fx { raw: 1_200_000 })).sub(
            t7.div(Fx { raw: 50_400_000 }),
        )
    }

    pub fn le(self, other: Fx) -> (r: bool)
        ensures
            r == (self@ <= other@),
    {
        self.raw <= other.raw
    }

    pub fn lt(self, other: Fx) -> (r: bool)
        ensures
            r == (self@ < other@),
    {
        self.raw < other.raw
    }
}

/// Clamp a wide intermediate into the raw range.
fn clamp_i128(v: i128) -> (r: i64)
    ensures
        r as int == sat(v as int),
{
    if v > (RAW_MAX as i128) {
        RAW_MAX
    } else if v < (RAW_MIN as i128) {
        RAW_MIN
    } else {
        v as i64
    }
}

/// Both factors fit in an `i64`, so the product fits in an `i128`.
proof fn lemma_i64_product_range(a: int, b: int)
    requires
        i64::MIN <= a <= i64::MAX,
        i64::MIN <= b <= i64::MAX,
    ensures
        -0x4000_0000_0000_0000_0000_0000_0000_0000 < a * b,
        a * b <= 0x4000_0000_0000_0000_0000_0000_0000_0000,
{
    assert(-0x4000_0000_0000_0000_0000_0000_0000_0000 < a * b
        <= 0x4000_0000_0000_0000_0000_0000_0000_0000) by (nonlinear_arith)
        requires
            -0x8000_0000_0000_0000 <= a <= 0x7FFF_FFFF_FFFF_FFFF,
            -0x8000_0000_0000_0000 <= b <= 0x7FFF_FFFF_FFFF_FFFF,
    ;
}

/// Division of wide intermediates, truncated toward zero.
fn tdiv_i128(a: i128, b: i128) -> (r: i128)
    requires
        b != 0,
        -0x4000_0000_0000_0000_0000_0000_0000_0000 < a,
        a <= 0x4000_0000_0000_0000_0000_0000_0000_0000,
    ensures
        r as int == tdiv(a as int, b as int),
{
    proof {
        lemma_tdiv_cases(a as int, b as int);
    }
    let q = a.checked_div(b);
    q.unwrap()
}

/// Integer square root of a wide unsigned value.
fn isqrt_u128(n: u128) -> (r: u128)
    ensures
        r * r <= n,
        n < (r + 1) * (r + 1),
{
    if n == 0 {
        return 0;
    }
    let mut lo: u128 = 0;
    let mut hi: u128 = 0x1_0000_0000_0000_0000;
    while lo + 1 < hi
        invariant
            lo < hi,
            hi <= 0x1_0000_0000_0000_0000,
            lo * lo <= n,
            n < hi * hi,
        decreases hi - lo,
    {
        let mid: u128 = lo + (hi - lo) / 2;
        proof {
            assert(mid * mid < 0x1_0000_0000_0000_0000_0000_0000_0000_0000)
                by (nonlinear_arith)
                requires
                    0 <= mid < 0x1_0000_0000_0000_0000,
            ;
        }
        if mid * mid <= n {
            lo = mid;
        } else {
            hi = mid;
        }
    }
    lo
}

} // verus!
