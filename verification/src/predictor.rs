//! Polynomial prediction: a coefficient vector `theta` evaluated at one or
//! more x values, `theta[k]` multiplying `x^k`.
//!
//! This generalizes the two-parameter regression model: prediction with the
//! fitted `[intercept, slope]` is the degree-one case.

use crate::fixed::Fx;
use crate::fixed::SCALE;
use crate::fixed::fx_add;
use crate::fixed::fx_mul;
use crate::fixed::lemma_mul_one;
use vstd::prelude::*;

verus! {

/// `x^k` computed by repeated fixed-point multiplication, starting from one;
/// `x^0` is one for every x, zero included.
pub open spec fn fx_pow(x: int, k: nat) -> int
    decreases k,
{
    if k == 0 {
        SCALE as int
    } else {
        fx_mul(fx_pow(x, (k - 1) as nat), x)
    }
}

/// The first `n` terms of the polynomial, accumulated in coefficient order:
/// `theta[0]*x^0 + ... + theta[n-1]*x^(n-1)` in fixed-point arithmetic.
pub open spec fn poly_prefix(theta: Seq<Fx>, x: int, n: int) -> int
    recommends
        n <= theta.len(),
    decreases n,
{
    if n <= 0 {
        0
    } else {
        fx_add(poly_prefix(theta, x, n - 1), fx_mul(fx_pow(x, (n - 1) as nat), theta[n - 1]@))
    }
}

/// The full polynomial with coefficients `theta` evaluated at `x`; an empty
/// coefficient sequence is the empty sum, zero.
pub open spec fn poly_eval(theta: Seq<Fx>, x: int) -> int {
    poly_prefix(theta, x, theta.len() as int)
}

/// A constant polynomial returns its one coefficient for every input.
pub proof fn lemma_constant_poly(theta: Seq<Fx>, x: int)
    requires
        theta.len() == 1,
    ensures
        poly_eval(theta, x) == theta[0]@,
{
    lemma_mul_one(theta[0]@);
    assert(fx_pow(x, 0) == SCALE as int);
    assert(poly_prefix(theta, x, 0) == 0);
    assert(poly_prefix(theta, x, 1) == fx_add(0, fx_mul(fx_pow(x, 0), theta[0]@)));
}

/// The polynomial with coefficients `[0, 1]` is the identity function.
pub proof fn lemma_identity_poly(theta: Seq<Fx>, x: int)
    requires
        theta.len() == 2,
        theta[0]@ == 0,
        theta[1]@ == SCALE as int,
        i64::MIN as int <= x <= i64::MAX as int,
    ensures
        poly_eval(theta, x) == x,
{
    lemma_mul_one(0);
    lemma_mul_one(x);
    assert(fx_pow(x, 0) == SCALE as int);
    assert(fx_pow(x, 1) == fx_mul(fx_pow(x, 0), x));
    assert(poly_prefix(theta, x, 0) == 0);
    assert(poly_prefix(theta, x, 1) == fx_add(0, fx_mul(fx_pow(x, 0), theta[0]@)));
    assert(poly_prefix(theta, x, 2) == fx_add(
        poly_prefix(theta, x, 1),
        fx_mul(fx_pow(x, 1), theta[1]@),
    ));
}

/// A polynomial evaluator holding the coefficient vector.
pub struct Predict {
    pub theta: Vec<Fx>,
}

impl Predict {
    /// Wrap a coefficient vector, `theta[k]` multiplying `x^k`.
    pub fn new(theta: Vec<Fx>) -> (r: Predict)
        ensures
            r.theta@ == theta@,
    {
        Predict { theta }
    }

    /// Evaluate the polynomial at every x of `dataset`, one prediction per
    /// input in the same order.
    pub fn predict(&self, dataset: &Vec<Fx>) -> (r: Vec<Fx>)
        ensures
            r@.len() == dataset@.len(),
            forall|j: int|
                0 <= j < dataset@.len() ==> r@[j]@ == poly_eval(self.theta@, dataset@[j]@),
            self.theta@.len() == 0 ==> forall|j: int| 0 <= j < dataset@.len() ==> r@[j]@ == 0,
            self.theta@.len() == 1 ==> forall|j: int|
                0 <= j < dataset@.len() ==> r@[j]@ == self.theta@[0]@,
            self.theta@.len() == 2 && self.theta@[0]@ == 0 && self.theta@[1]@ == SCALE as int
                ==> forall|j: int| 0 <= j < dataset@.len() ==> r@[j]@ == dataset@[j]@,
    {
        let mut r: Vec<Fx> = Vec::new();
        let mut i: usize = 0;
        while i < dataset.len()
            invariant
                0 <= i <= dataset@.len(),
                r@.len() == i as int,
                forall|j: int|
                    0 <= j < i as int ==> r@[j]@ == poly_eval(self.theta@, dataset@[j]@),
            decreases dataset@.len() - i,
        {
            let x = dataset[i];
            let mut acc = Fx::zero();
            let mut p = Fx::one();
            let mut k: usize = 0;
            while k < self.theta.len()
                invariant
                    0 <= k <= self.theta@.len(),
                    acc@ == poly_prefix(self.theta@, x@, k as int),
                    p@ == fx_pow(x@, k as nat),
                decreases self.theta@.len() - k,
            {
                acc = acc.add(p.mul(self.theta[k]));
                p = p.mul(x);
                k = k + 1;
            }
            r.push(acc);
            i = i + 1;
        }
        proof {
            if self.theta@.len() == 1 {
                assert forall|j: int| 0 <= j < dataset@.len() implies r@[j]@
                    == self.theta@[0]@ by {
                    lemma_constant_poly(self.theta@, dataset@[j]@);
                }
            }
            if self.theta@.len() == 2 && self.theta@[0]@ == 0 && self.theta@[1]@
                == SCALE as int {
                assert forall|j: int| 0 <= j < dataset@.len() implies r@[j]@
                    == dataset@[j]@ by {
                    lemma_identity_poly(self.theta@, dataset@[j]@);
                }
            }
        }
        r
    }
}

} // verus!
