//! Exact fixed-point numbers: an `i64` mantissa denoting `mantissa / 2^32`.
//!
//! All operations saturate at the mantissa bounds instead of overflowing, and
//! multiplication and division truncate toward zero, so every operation is a
//! total function with an exact specification over the mantissa.

use vstd::arithmetic::div_mod::lemma_fundamental_div_mod;
use vstd::arithmetic::div_mod::lemma_div_multiples_vanish;
use vstd::arithmetic::div_mod::lemma_mod_bound;
use vstd::arithmetic::mul::lemma_mul_is_commutative;
use vstd::arithmetic::mul::lemma_mul_unary_negation;
use vstd::arithmetic::mul::lemma_mul_cancels_negatives;
use vstd::prelude::*;

verus! {

/// One unit in fixed-point representation: the mantissa of `1.0` (2^32).
pub const SCALE: i64 = 0x1_0000_0000;

/// Saturate an unbounded integer at the `i64` range.
pub open spec fn clamp_i64(v: int) -> int {
    if v > i64::MAX as int {
        i64::MAX as int
    } else if v < i64::MIN as int {
        i64::MIN as int
    } else {
        v
    }
}

/// Absolute value over unbounded integers.
pub open spec fn abs_int(v: int) -> int {
    if v < 0 {
        -v
    } else {
        v
    }
}

/// Division truncating toward zero, as machine division does; Verus's own
/// `/` on `int` is Euclidean, which differs on negative operands.
pub open spec fn tdiv(a: int, b: int) -> int
    recommends
        b != 0,
{
    let q = abs_int(a) / abs_int(b);
    if (a < 0) == (b < 0) {
        q
    } else {
        -q
    }
}

/// Mantissa of the sum, saturated.
pub open spec fn fx_add(a: int, b: int) -> int {
    clamp_i64(a + b)
}

/// Mantissa of the difference, saturated.
pub open spec fn fx_sub(a: int, b: int) -> int {
    clamp_i64(a - b)
}

/// Mantissa of the product: the double-width product scaled back down,
/// truncating toward zero, then saturated.
pub open spec fn fx_mul(a: int, b: int) -> int {
    clamp_i64(tdiv(a * b, SCALE as int))
}

/// Mantissa of the quotient: the dividend widened by one scale, divided
/// truncating toward zero, then saturated.
pub open spec fn fx_div(a: int, b: int) -> int
    recommends
        b != 0,
{
    clamp_i64(tdiv(a * (SCALE as int), b))
}

/// Mantissa of the negation, saturated (the mantissa of the minimum value
/// has no exact negation).
pub open spec fn fx_neg(a: int) -> int {
    clamp_i64(-a)
}

/// Mantissa of the absolute value, saturated.
pub open spec fn fx_abs(a: int) -> int {
    clamp_i64(abs_int(a))
}

/// Mantissa of the fixed-point number closest to the integer `v`.
pub open spec fn fx_from_int(v: int) -> int {
    clamp_i64(v * (SCALE as int))
}

/// A fixed-point number; `m` is the mantissa, the denoted value is `m / 2^32`.
#[derive(Clone, Copy, Debug, PartialEq, Eq, Structural)]
pub struct Fx {
    pub m: i64,
}

impl View for Fx {
    type V = int;

    open spec fn view(&self) -> int {
        self.m as int
    }
}

/// Saturate a double-width intermediate back to an `i64` mantissa.
fn clamp_to_i64(v: i128) -> (r: i64)
    ensures
        r as int == clamp_i64(v as int),
{
    if v > i64::MAX as i128 {
        i64::MAX
    } else if v < i64::MIN as i128 {
        i64::MIN
    } else {
        v as i64
    }
}

/// Division of double-width values truncating toward zero, computed on
/// magnitudes so that the specification `tdiv` is matched exactly.
fn tdiv_i128(a: i128, b: i128) -> (r: i128)
    requires
        b != 0,
        a > i128::MIN,
        b > i128::MIN,
    ensures
        r as int == tdiv(a as int, b as int),
{
    let ua: u128 = if a < 0 {
        (-a) as u128
    } else {
        a as u128
    };
    let ub: u128 = if b < 0 {
        (-b) as u128
    } else {
        b as u128
    };
    let q: u128 = ua / ub;
    proof {
        assert(ua as int == abs_int(a as int));
        assert(ub as int == abs_int(b as int));
        vstd::arithmetic::div_mod::lemma_div_nonincreasing(ua as int, ub as int);
    }
    if (a < 0) != (b < 0) {
        -(q as i128)
    } else {
        q as i128
    }
}

impl Fx {
    /// The fixed-point zero.
    pub fn zero() -> (r: Fx)
        ensures
            r@ == 0,
    {
        Fx { m: 0 }
    }

    /// The fixed-point one.
    pub fn one() -> (r: Fx)
        ensures
            r@ == SCALE as int,
    {
        Fx { m: SCALE }
    }

    /// The fixed-point number closest to the integer `v`.
    pub fn from_int(v: i64) -> (r: Fx)
        ensures
            r@ == fx_from_int(v as int),
    {
        proof {
            assert(i128::MIN < (v as int) * (SCALE as int) <= i128::MAX) by (nonlinear_arith)
                requires
                    i64::MIN as int <= v as int <= i64::MAX as int,
            ;
        }
        let p: i128 = (v as i128) * (SCALE as i128);
        Fx { m: clamp_to_i64(p) }
    }

    /// The fixed-point number closest to the sample count `n`.
    pub fn from_count(n: usize) -> (r: Fx)
        ensures
            r@ == fx_from_int(n as int),
            n > 0 ==> r@ >= SCALE as int,
    {
        proof {
            assert(0 <= (n as int) * (SCALE as int) <= i128::MAX && (n as int >= 1
                ==> (n as int) * (SCALE as int) >= SCALE as int)) by (nonlinear_arith)
                requires
                    0 <= n as int <= u64::MAX as int,
            ;
        }
        let p: i128 = (n as i128) * (SCALE as i128);
        Fx { m: clamp_to_i64(p) }
    }

    /// Saturating fixed-point addition.
    pub fn add(self, other: Fx) -> (r: Fx)
        ensures
            r@ == fx_add(self@, other@),
    {
        let s: i128 = self.m as i128 + other.m as i128;
        Fx { m: clamp_to_i64(s) }
    }

    /// Saturating fixed-point subtraction.
    pub fn sub(self, other: Fx) -> (r: Fx)
        ensures
            r@ == fx_sub(self@, other@),
    {
        let s: i128 = self.m as i128 - other.m as i128;
        Fx { m: clamp_to_i64(s) }
    }

    /// Saturating fixed-point multiplication, truncating toward zero.
    pub fn mul(self, other: Fx) -> (r: Fx)
        ensures
            r@ == fx_mul(self@, other@),
    {
        proof {
            assert(i128::MIN < (self.m as int) * (other.m as int) <= i128::MAX)
                by (nonlinear_arith)
                requires
                    i64::MIN as int <= self.m as int <= i64::MAX as int,
                    i64::MIN as int <= other.m as int <= i64::MAX as int,
            ;
        }
        let p: i128 = (self.m as i128) * (other.m as i128);
        let q: i128 = tdiv_i128(p, SCALE as i128);
        Fx { m: clamp_to_i64(q) }
    }

    /// Saturating fixed-point division, truncating toward zero.
    pub fn div(self, other: Fx) -> (r: Fx)
        requires
            other@ != 0,
        ensures
            r@ == fx_div(self@, other@),
    {
        proof {
            assert(i128::MIN < (self.m as int) * (SCALE as int) <= i128::MAX)
                by (nonlinear_arith)
                requires
                    i64::MIN as int <= self.m as int <= i64::MAX as int,
            ;
        }
        let a: i128 = (self.m as i128) * (SCALE as i128);
        let q: i128 = tdiv_i128(a, other.m as i128);
        Fx { m: clamp_to_i64(q) }
    }

    /// Saturating fixed-point negation.
    pub fn neg(self) -> (r: Fx)
        ensures
            r@ == fx_neg(self@),
    {
        let v: i128 = -(self.m as i128);
        Fx { m: clamp_to_i64(v) }
    }

    /// Saturating fixed-point absolute value.
    pub fn abs(self) -> (r: Fx)
        ensures
            r@ == fx_abs(self@),
    {
        if self.m < 0 {
            self.neg()
        } else {
            self
        }
    }
}

/// Multiplying by one is exact: the scale cancels against the unit mantissa.
pub proof fn lemma_mul_one(a: int)
    requires
        i64::MIN as int <= a <= i64::MAX as int,
    ensures
        fx_mul(SCALE as int, a) == a,
        fx_mul(a, SCALE as int) == a,
{
    let s = SCALE as int;
    lemma_mul_is_commutative(a, s);
    if a >= 0 {
        assert(abs_int(s * a) == s * a);
        lemma_div_multiples_vanish(a, s);
        assert((s * a) / s == a);
    } else {
        lemma_mul_unary_negation(s, a);
        assert(abs_int(s * a) == s * (-a));
        lemma_div_multiples_vanish(-a, s);
        assert((s * (-a)) / s == -a);
    }
}

/// Truncating division leaves a remainder smaller in magnitude than the
/// divisor: `|a - tdiv(a, b) * b| < |b|`.
pub proof fn lemma_tdiv_remainder(a: int, b: int)
    requires
        b != 0,
    ensures
        abs_int(a - tdiv(a, b) * b) < abs_int(b),
{
    let ua = abs_int(a);
    let ub = abs_int(b);
    let q = ua / ub;
    lemma_fundamental_div_mod(ua, ub);
    lemma_mod_bound(ua, ub);
    lemma_mul_is_commutative(ub, q);
    assert(ua - q * ub == ua % ub);
    if a >= 0 && b > 0 {
        assert(a - tdiv(a, b) * b == ua - q * ub);
    } else if a >= 0 && b < 0 {
        assert(tdiv(a, b) == -q);
        lemma_mul_cancels_negatives(q, ub);
        assert((-q) * b == q * ub);
        assert(a - tdiv(a, b) * b == ua - q * ub);
    } else if a < 0 && b > 0 {
        assert(tdiv(a, b) == -q);
        lemma_mul_unary_negation(q, b);
        assert((-q) * b == -(q * ub));
        assert(a - tdiv(a, b) * b == -(ua - q * ub));
    } else {
        assert(tdiv(a, b) == q);
        lemma_mul_unary_negation(q, ub);
        assert(q * b == -(q * ub));
        assert(a - tdiv(a, b) * b == -(ua - q * ub));
    }
}

/// Law: scaling round-trip. Dividing by a non-zero factor and multiplying
/// back recovers the value up to one truncation error of each operation:
/// the error, in units of the value, is below `(|f| + 1) / 2^32` where `f`
/// is the factor's mantissa. Inputs whose intermediate quotient saturates
/// the mantissa range are excluded: a saturated quotient keeps no remainder
/// relation to the dividend.
pub proof fn lemma_scale_round_trip(x: int, f: int)
    requires
        i64::MIN as int <= x <= i64::MAX as int,
        i64::MIN as int <= f <= i64::MAX as int,
        f != 0,
        i64::MIN as int <= tdiv(x * (SCALE as int), f) <= i64::MAX as int,
    ensures
        (SCALE as int) * abs_int(fx_mul(fx_div(x, f), f) - x) < abs_int(f) + SCALE as int,
{
    let s = SCALE as int;
    let q = tdiv(x * s, f);
    lemma_tdiv_remainder(x * s, f);
    let r0 = tdiv(q * f, s);
    lemma_tdiv_remainder(q * f, s);
    assert(fx_div(x, f) == q);
    assert(fx_mul(q, f) == clamp_i64(r0));
    assert(x * s - r0 * s == (x * s - q * f) + (q * f - r0 * s));
    assert(abs_int(x * s - r0 * s) < abs_int(f) + s);
    if x >= r0 {
        assert(abs_int(x - r0) * s == x * s - r0 * s);
    } else {
        assert(abs_int(x - r0) * s == r0 * s - x * s);
    }
    assert(abs_int(x - r0) * s < abs_int(f) + s);
    let c = clamp_i64(r0);
    assert(abs_int(c - x) <= abs_int(x - r0));
    assert(s * abs_int(c - x) <= abs_int(x - r0) * s);
}

} // verus!
