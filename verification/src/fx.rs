//! Fixed-point scalars: the kernel's replacement for floating point.
//!
//! A [`Scalar`] stores a signed count of millionths of a unit. Every
//! operation is total: results too large in magnitude saturate at
//! [`FX_MAX`] millionths, mirroring how an infinity propagates through
//! the geometry formulas, and division by zero saturates with the sign
//! of the dividend. Each operation's contract pins the result exactly
//! as a function of the operand views (counts of millionths).

use vstd::prelude::*;

verus! {

use vstd::math::abs;

/// Millionths in one whole fixed-point unit.
pub const SCALE: i64 = 1_000_000;
/// Half a unit, used when rounding to the nearest whole unit.
pub const HALF_SCALE: i64 = 500_000;
/// Largest magnitude a scalar carries; arithmetic saturates here.
pub const FX_MAX: i64 = 9_223_372_036_854_775_807;
/// Comparison tolerance for geometric work: one hundred-thousandth of a unit.
pub const EPSILON: i64 = 10;
/// Offset of the bias points that keep secondary rays off a surface:
/// an order larger than the comparison tolerance, so the truncation
/// noise of the intersection arithmetic can never reach back through it.
pub const SURFACE_BIAS: i64 = 100;

/// A fixed-point number: `v` millionths of a unit.
#[derive(Clone, Copy, Debug, PartialEq, Eq, Structural)]
pub struct Scalar {
    pub v: i64,
}

impl View for Scalar {
    type V = int;

    open spec fn view(&self) -> int {
        self.v as int
    }
}

/// Saturate an unbounded value at the representable magnitude.
pub open spec fn fx_clamp(v: int) -> int {
    if v > FX_MAX {
        FX_MAX as int
    } else if v < -(FX_MAX as int) {
        -(FX_MAX as int)
    } else {
        v
    }
}

/// Sum, saturated.
pub open spec fn fx_add(a: int, b: int) -> int {
    fx_clamp(a + b)
}

/// Difference, saturated.
pub open spec fn fx_sub(a: int, b: int) -> int {
    fx_clamp(a - b)
}

/// Negation, saturated.
pub open spec fn fx_neg(a: int) -> int {
    fx_clamp(-a)
}

/// Absolute value, saturated.
pub open spec fn fx_abs(a: int) -> int {
    fx_clamp(abs(a) as int)
}

/// -1 when exactly one operand is negative, else 1.
pub open spec fn fx_sign2(a: int, b: int) -> int {
    if (a < 0) != (b < 0) {
        -1
    } else {
        1
    }
}

/// Product of two scalars in millionths: magnitudes multiply, the result
/// is scaled back down (truncating) and saturated, and the usual sign rule
/// applies.
pub open spec fn fx_mul(a: int, b: int) -> int {
    fx_clamp(fx_sign2(a, b) * ((abs(a) as int * abs(b) as int) / (SCALE as int)))
}

/// Quotient in millionths. Division by zero saturates with the sign of
/// the dividend, the way the geometry formulas expect an infinity.
pub open spec fn fx_div(a: int, b: int) -> int {
    if b == 0 {
        if a > 0 {
            FX_MAX as int
        } else if a < 0 {
            -(FX_MAX as int)
        } else {
            0
        }
    } else {
        fx_clamp(fx_sign2(a, b) * ((abs(a) as int * (SCALE as int)) / abs(b) as int))
    }
}

/// `r` is the integer square root of `x`.
pub open spec fn is_isqrt(x: int, r: int) -> bool {
    &&& 0 <= r
    &&& r * r <= x
    &&& x < (r + 1) * (r + 1)
}

/// Square root of a scalar in millionths: the integer square root of
/// `a` rescaled so the result is again in millionths. Non-positive
/// arguments yield zero.
pub open spec fn fx_sqrt(a: int) -> int {
    if a <= 0 {
        0
    } else {
        choose|r: int| #[trigger] is_isqrt(a * (SCALE as int), r)
    }
}

/// True when the scalars differ by less than the geometric tolerance.
pub open spec fn fx_near(a: int, b: int) -> bool {
    abs(a - b) < EPSILON as int
}

/// Largest multiple of one unit at or below `a`, saturated.
pub open spec fn fx_floor(a: int) -> int {
    fx_clamp((a / (SCALE as int)) * (SCALE as int))
}

/// Number of whole units in the floor of `a`.
pub open spec fn fx_floor_units(a: int) -> int {
    a / (SCALE as int)
}

/// Fractional part of `a`, in millionths, always in `[0, SCALE)`.
pub open spec fn fx_frac(a: int) -> int {
    a % (SCALE as int)
}

/// Nearest whole number of units, halves rounding away from zero.
pub open spec fn fx_round_units(a: int) -> int {
    if a < 0 {
        -(((abs(a) + HALF_SCALE) / (SCALE as int)) as int)
    } else {
        ((abs(a) + HALF_SCALE) / (SCALE as int)) as int
    }
}

/// `base` raised to the `n`th power, in millionths.
pub open spec fn fx_pow(base: int, n: nat) -> int
    decreases n,
{
    if n == 0 {
        SCALE as int
    } else {
        fx_mul(base, fx_pow(base, (n - 1) as nat))
    }
}

/// Multiplying by zero yields zero.
pub proof fn lemma_fx_mul_zero(y: int)
    ensures
        fx_mul(0, y) == 0,
        fx_mul(y, 0) == 0,
{
    assert(0int * (abs(y) as int) == 0) by (nonlinear_arith);
    assert((abs(y) as int) * 0int == 0) by (nonlinear_arith);
    vstd::arithmetic::div_mod::lemma_div_of0(SCALE as int);
}

/// Multiplying by one unit leaves a representable value unchanged.
pub proof fn lemma_fx_mul_one(y: int)
    requires
        -(FX_MAX as int) <= y <= FX_MAX as int,
    ensures
        fx_mul(SCALE as int, y) == y,
        fx_mul(y, SCALE as int) == y,
{
    assert(abs(y) as int * (SCALE as int) == (SCALE as int) * (abs(y) as int))
        by (nonlinear_arith);
    vstd::arithmetic::div_mod::lemma_div_multiples_vanish(abs(y) as int, SCALE as int);
}

/// Dividing by one unit leaves a representable value unchanged.
pub proof fn lemma_fx_div_one(y: int)
    requires
        -(FX_MAX as int) <= y <= FX_MAX as int,
    ensures
        fx_div(y, SCALE as int) == y,
{
    assert(abs(y) as int * (SCALE as int) == (SCALE as int) * (abs(y) as int))
        by (nonlinear_arith);
    vstd::arithmetic::div_mod::lemma_div_multiples_vanish(abs(y) as int, SCALE as int);
}

/// Dividing zero by anything yields zero.
pub proof fn lemma_fx_div_zero(b: int)
    ensures
        fx_div(0, b) == 0,
{
    if b != 0 {
        assert(0int * (SCALE as int) == 0) by (nonlinear_arith);
        vstd::arithmetic::div_mod::lemma_div_of0(abs(b) as int);
    }
}

proof fn lemma_isqrt_unique(x: int, r1: int, r2: int)
    requires
        is_isqrt(x, r1),
        is_isqrt(x, r2),
    ensures
        r1 == r2,
{
    if r1 < r2 {
        assert((r1 + 1) * (r1 + 1) <= r2 * r2) by (nonlinear_arith)
            requires 0 <= r1 && r1 + 1 <= r2;
    }
    if r2 < r1 {
        assert((r2 + 1) * (r2 + 1) <= r1 * r1) by (nonlinear_arith)
            requires 0 <= r2 && r2 + 1 <= r1;
    }
}

/// Saturate a wide intermediate back into a scalar's range.
pub(crate) fn clamp_wide(s: i128) -> (r: i64)
    ensures
        r as int == fx_clamp(s as int),
{
    if s > FX_MAX as i128 {
        FX_MAX
    } else if s < -(FX_MAX as i128) {
        -FX_MAX
    } else {
        s as i64
    }
}

/// Saturate an unsigned magnitude, then apply a sign.
fn clamp_mag(q: u128, neg: bool) -> (r: i64)
    ensures
        r as int == fx_clamp(if neg { -(q as int) } else { q as int }),
{
    if q >= FX_MAX as u128 {
        if neg {
            -FX_MAX
        } else {
            FX_MAX
        }
    } else {
        if neg {
            -(q as i64)
        } else {
            q as i64
        }
    }
}

impl Scalar {
    /// The scalar holding `v` millionths.
    pub fn from_micros(v: i64) -> (r: Scalar)
        ensures
            r@ == v as int,
    {
        Scalar { v }
    }

    /// The scalar for a whole number of units, saturated.
    pub fn from_units(n: i64) -> (r: Scalar)
        ensures
            r@ == fx_clamp(n as int * (SCALE as int)),
    {
        proof {
            assert((i64::MIN as int) * (SCALE as int) <= (n as int) * (SCALE as int)
                <= (i64::MAX as int) * (SCALE as int)) by (nonlinear_arith)
                requires i64::MIN as int <= n as int <= i64::MAX as int;
        }
        let wide = (n as i128) * (SCALE as i128);
        let v = clamp_wide(wide);
        Scalar { v }
    }

    pub fn zero() -> (r: Scalar)
        ensures
            r@ == 0,
    {
        Scalar { v: 0 }
    }

    pub fn one() -> (r: Scalar)
        ensures
            r@ == SCALE as int,
    {
        Scalar { v: SCALE }
    }

    pub fn add(self, other: Scalar) -> (r: Scalar)
        ensures
            r@ == fx_add(self@, other@),
    {
        let s = self.v as i128 + other.v as i128;
        Scalar { v: clamp_wide(s) }
    }

    pub fn sub(self, other: Scalar) -> (r: Scalar)
        ensures
            r@ == fx_sub(self@, other@),
    {
        let s = self.v as i128 - other.v as i128;
        Scalar { v: clamp_wide(s) }
    }

    pub fn neg(self) -> (r: Scalar)
        ensures
            r@ == fx_neg(self@),
    {
        let s = -(self.v as i128);
        Scalar { v: clamp_wide(s) }
    }

    pub fn abs(self) -> (r: Scalar)
        ensures
            r@ == fx_abs(self@),
    {
        let s = if self.v < 0 {
            -(self.v as i128)
        } else {
            self.v as i128
        };
        Scalar { v: clamp_wide(s) }
    }

    pub fn mul(self, other: Scalar) -> (r: Scalar)
        ensures
            r@ == fx_mul(self@, other@),
    {
        let a = self.v as i128;
        let b = other.v as i128;
        let neg = (a < 0) != (b < 0);
        let ua = if a < 0 { (-a) as u128 } else { a as u128 };
        let ub = if b < 0 { (-b) as u128 } else { b as u128 };
        proof {
            assert(ua as int * ub as int
                <= 9_223_372_036_854_775_808 * 9_223_372_036_854_775_808) by (nonlinear_arith)
                requires
                    0 <= ua as int <= 9_223_372_036_854_775_808,
                    0 <= ub as int <= 9_223_372_036_854_775_808;
        }
        let q = (ua * ub) / (SCALE as u128);
        Scalar { v: clamp_mag(q, neg) }
    }

    pub fn div(self, other: Scalar) -> (r: Scalar)
        ensures
            r@ == fx_div(self@, other@),
    {
        if other.v == 0 {
            if self.v > 0 {
                Scalar { v: FX_MAX }
            } else if self.v < 0 {
                Scalar { v: -FX_MAX }
            } else {
                Scalar { v: 0 }
            }
        } else {
            let a = self.v as i128;
            let b = other.v as i128;
            let neg = (a < 0) != (b < 0);
            let ua = if a < 0 { (-a) as u128 } else { a as u128 };
            let ub = if b < 0 { (-b) as u128 } else { b as u128 };
            proof {
                assert(ua as int * (SCALE as int)
                    <= 9_223_372_036_854_775_808 * (SCALE as int)) by (nonlinear_arith)
                    requires 0 <= ua as int <= 9_223_372_036_854_775_808;
            }
            let q = (ua * (SCALE as u128)) / ub;
            Scalar { v: clamp_mag(q, neg) }
        }
    }

    /// Square root by binary search for the integer square root of
    /// `v` millionths rescaled to keep millionth precision.
    pub fn sqrt(self) -> (r: Scalar)
        ensures
            r@ == fx_sqrt(self@),
    {
        if self.v <= 0 {
            return Scalar { v: 0 };
        }
        proof {
            assert(0 <= (self.v as int) * (SCALE as int) <= (FX_MAX as int) * (SCALE as int))
                by (nonlinear_arith)
                requires 0 < self.v as int <= FX_MAX as int;
        }
        let x: u128 = (self.v as u128) * (SCALE as u128);
        let ghost xi: int = x as int;
        assert(xi < 4_398_046_511_104 * 4_398_046_511_104);
        let mut lo: u128 = 0;
        let mut hi: u128 = 4_398_046_511_104;
        while lo + 1 < hi
            invariant
                (lo as int) * (lo as int) <= xi,
                xi < (hi as int) * (hi as int),
                lo < hi <= 4_398_046_511_104,
                xi == x as int,
            decreases hi - lo,
        {
            let mid = lo + (hi - lo) / 2;
            assert((mid as int) * (mid as int) < 340282366920938463463374607431768211455) by (nonlinear_arith)
                requires mid as int <= 4_398_046_511_104;
            if mid * mid <= x {
                lo = mid;
            } else {
                hi = mid;
            }
        }
        proof {
            assert(is_isqrt(xi, lo as int));
            assert(self@ * (SCALE as int) == xi);
            assert(is_isqrt(xi, fx_sqrt(self@))) by {
                assert(is_isqrt(xi, lo as int));
            }
            lemma_isqrt_unique(xi, lo as int, fx_sqrt(self@));
        }
        Scalar { v: lo as i64 }
    }

    /// Largest whole-unit multiple at or below the scalar, saturated.
    pub fn floor(self) -> (r: Scalar)
        ensures
            r@ == fx_floor(self@),
    {
        let q = match self.v.checked_div_euclid(SCALE) {
            Some(q) => q,
            None => 0,
        };
        let wide = (q as i128) * (SCALE as i128);
        Scalar { v: clamp_wide(wide) }
    }

    /// Number of whole units in the floor of the scalar.
    pub fn floor_units(self) -> (r: i64)
        ensures
            r as int == fx_floor_units(self@),
    {
        match self.v.checked_div_euclid(SCALE) {
            Some(q) => q,
            None => 0,
        }
    }

    /// Fractional part, in millionths, always in `[0, SCALE)`.
    pub fn frac(self) -> (r: Scalar)
        ensures
            r@ == fx_frac(self@),
            0 <= r@ < SCALE as int,
    {
        let m = match self.v.checked_rem_euclid(SCALE) {
            Some(m) => m,
            None => 0,
        };
        Scalar { v: m }
    }

    /// Nearest whole number of units, halves rounding away from zero.
    pub fn round_units(self) -> (r: i64)
        ensures
            r as int == fx_round_units(self@),
    {
        let m: u128 = if self.v < 0 {
            (-(self.v as i128)) as u128
        } else {
            self.v as u128
        };
        let q = (m + HALF_SCALE as u128) / (SCALE as u128);
        if self.v < 0 {
            -(q as i64)
        } else {
            q as i64
        }
    }

    /// The scalar raised to the `n`th power by repeated multiplication.
    pub fn pow(self, n: u32) -> (r: Scalar)
        ensures
            r@ == fx_pow(self@, n as nat),
    {
        let mut acc = Scalar { v: SCALE };
        let mut i: u32 = 0;
        while i < n
            invariant
                i <= n,
                acc@ == fx_pow(self@, i as nat),
            decreases n - i,
        {
            acc = self.mul(acc);
            proof {
                assert(fx_pow(self@, (i + 1) as nat) == fx_mul(self@, fx_pow(self@, i as nat)));
            }
            i = i + 1;
        }
        acc
    }

    /// True when the two scalars differ by less than the tolerance.
    pub fn near(self, other: Scalar) -> (r: bool)
        ensures
            r == fx_near(self@, other@),
    {
        let d = self.v as i128 - other.v as i128;
        -(EPSILON as i128) < d && d < EPSILON as i128
    }

    pub fn lt(self, other: Scalar) -> (r: bool)
        ensures
            r == (self@ < other@),
    {
        self.v < other.v
    }

    pub fn le(self, other: Scalar) -> (r: bool)
        ensures
            r == (self@ <= other@),
    {
        self.v <= other.v
    }

    pub fn gt(self, other: Scalar) -> (r: bool)
        ensures
            r == (self@ > other@),
    {
        self.v > other.v
    }

    pub fn ge(self, other: Scalar) -> (r: bool)
        ensures
            r == (self@ >= other@),
    {
        self.v >= other.v
    }

    pub fn is_zero(self) -> (r: bool)
        ensures
            r == (self@ == 0),
    {
        self.v == 0
    }

    pub fn min(self, other: Scalar) -> (r: Scalar)
        ensures
            r@ == vstd::math::min(self@, other@),
    {
        if self.v <= other.v {
            self
        } else {
            other
        }
    }

    pub fn max(self, other: Scalar) -> (r: Scalar)
        ensures
            r@ == vstd::math::max(self@, other@),
    {
        if self.v >= other.v {
            self
        } else {
            other
        }
    }
}

} // verus!
