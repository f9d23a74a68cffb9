//! Fitting intercept and slope by fixed-iteration batch gradient descent.
//!
//! The dataset is normalized by the scale factor first, the parameters start
//! at the fixed point (1.0, 1.0), and each pass accumulates both gradients
//! over the whole dataset in order from the same parameter snapshot before
//! either parameter is updated. There is no convergence check: the iteration
//! count alone bounds the loop, and zero iterations return the start values.

use crate::fixed::Fx;
use crate::fixed::SCALE;
use crate::fixed::fx_add;
use crate::fixed::fx_div;
use crate::fixed::fx_from_int;
use crate::fixed::fx_mul;
use crate::fixed::fx_sub;
use crate::fixed::lemma_mul_one;
use crate::scaler::Sample;
use crate::scaler::TrainError;
use crate::scaler::compute_stats;
use crate::scaler::denormalize_intercept;
use crate::scaler::factor_spec;
use crate::scaler::normalize;
use crate::scaler::normalize_spec;
use crate::scaler::scale_factor;
use vstd::prelude::*;

verus! {

/// The signed error of the line `(t0, t1)` at one point: `t1*x + t0 - y`.
pub open spec fn residual(t0: int, t1: int, x: int, y: int) -> int {
    fx_sub(fx_add(fx_mul(t1, x), t0), y)
}

/// The intercept gradient accumulated over the first `n` samples in dataset
/// order: the running sum of the residuals.
pub open spec fn cost0_prefix(data: Seq<Sample>, t0: int, t1: int, n: int) -> int
    recommends
        n <= data.len(),
    decreases n,
{
    if n <= 0 {
        0
    } else {
        fx_add(
            cost0_prefix(data, t0, t1, n - 1),
            residual(t0, t1, data[n - 1].x@, data[n - 1].y@),
        )
    }
}

/// The slope gradient accumulated over the first `n` samples in dataset
/// order: the running sum of residual times x.
pub open spec fn cost1_prefix(data: Seq<Sample>, t0: int, t1: int, n: int) -> int
    recommends
        n <= data.len(),
    decreases n,
{
    if n <= 0 {
        0
    } else {
        fx_add(
            cost1_prefix(data, t0, t1, n - 1),
            fx_mul(residual(t0, t1, data[n - 1].x@, data[n - 1].y@), data[n - 1].x@),
        )
    }
}

/// One gradient-descent pass: both gradients are computed over the whole
/// dataset from the same snapshot `(t0, t1)`, then both parameters move by
/// `(learning rate / m)` times their gradient.
pub open spec fn gd_step(data: Seq<Sample>, t0: int, t1: int, lr: int, m: int) -> (int, int)
    recommends
        m != 0,
{
    let c0 = cost0_prefix(data, t0, t1, data.len() as int);
    let c1 = cost1_prefix(data, t0, t1, data.len() as int);
    let coef = fx_div(lr, m);
    (fx_sub(t0, fx_mul(coef, c0)), fx_sub(t1, fx_mul(coef, c1)))
}

/// The parameters after `k` passes from the fixed start `(1.0, 1.0)`.
pub open spec fn gd_iterate(data: Seq<Sample>, lr: int, m: int, k: nat) -> (int, int)
    recommends
        m != 0,
    decreases k,
{
    if k == 0 {
        (SCALE as int, SCALE as int)
    } else {
        let prev = gd_iterate(data, lr, m, (k - 1) as nat);
        gd_step(data, prev.0, prev.1, lr, m)
    }
}

/// Run `iterations` gradient-descent passes over an already normalized
/// dataset, deterministically: accumulation in dataset order, one pass per
/// iteration, simultaneous parameter update.
pub fn gradient_descent(data: &Vec<Sample>, learning_rate: Fx, iterations: u32) -> (r: (Fx, Fx))
    requires
        data@.len() > 0,
    ensures
        ({
            let p = gd_iterate(
                data@,
                learning_rate@,
                fx_from_int(data@.len() as int),
                iterations as nat,
            );
            r.0@ == p.0 && r.1@ == p.1
        }),
{
    let m = Fx::from_count(data.len());
    let mut t0 = Fx::one();
    let mut t1 = Fx::one();
    let mut it: u32 = 0;
    while it < iterations
        invariant
            data@.len() > 0,
            m@ == fx_from_int(data@.len() as int),
            m@ >= SCALE as int,
            it <= iterations,
            ({
                let p = gd_iterate(data@, learning_rate@, m@, it as nat);
                t0@ == p.0 && t1@ == p.1
            }),
        decreases iterations - it,
    {
        let mut c0 = Fx::zero();
        let mut c1 = Fx::zero();
        let mut i: usize = 0;
        while i < data.len()
            invariant
                0 <= i <= data@.len(),
                c0@ == cost0_prefix(data@, t0@, t1@, i as int),
                c1@ == cost1_prefix(data@, t0@, t1@, i as int),
            decreases data@.len() - i,
        {
            let s = data[i];
            let e = t1.mul(s.x).add(t0).sub(s.y);
            c0 = c0.add(e);
            c1 = c1.add(e.mul(s.x));
            i = i + 1;
        }
        let coef = learning_rate.div(m);
        let new_t0 = t0.sub(coef.mul(c0));
        let new_t1 = t1.sub(coef.mul(c1));
        proof {
            let p = gd_iterate(data@, learning_rate@, m@, it as nat);
            let next = gd_iterate(data@, learning_rate@, m@, (it + 1) as nat);
            assert(next == gd_step(data@, p.0, p.1, learning_rate@, m@));
            assert(new_t0@ == next.0 && new_t1@ == next.1);
        }
        t0 = new_t0;
        t1 = new_t1;
        it = it + 1;
    }
    (t0, t1)
}

/// Everything a training run produces: the raw-space intercept, the slope
/// (which needs no rescaling), and the normalized dataset used internally,
/// kept for display.
#[derive(Debug)]
pub struct TrainResult {
    pub theta0: Fx,
    pub theta1: Fx,
    pub normalized: Vec<Sample>,
}

/// Fit a line to the dataset: compute the scale statistics, normalize by
/// the factor, run the fixed number of gradient-descent passes from the
/// start `(1.0, 1.0)`, and map the intercept back to raw space by the
/// factor. An empty dataset is the one failure.
pub fn train(data: &Vec<Sample>, learning_rate: Fx, iterations: u32) -> (r: Result<
    TrainResult,
    TrainError,
>)
    ensures
        r is Err <==> data@.len() == 0,
        r matches Err(e) ==> e == TrainError::EmptyDataset,
        r matches Ok(out) ==> ({
            let f = factor_spec(data@);
            let nd = normalize_spec(data@, f);
            let p = gd_iterate(nd, learning_rate@, fx_from_int(data@.len() as int), iterations as nat);
            &&& out.normalized@ == nd
            &&& out.theta0@ == fx_mul(p.0, f)
            &&& out.theta1@ == p.1
        }),
        iterations == 0 ==> (r matches Ok(out) ==> out.theta0@ == factor_spec(data@)
            && out.theta1@ == SCALE as int),
{
    let stats = match compute_stats(data) {
        Ok(s) => s,
        Err(e) => {
            return Err(e);
        },
    };
    let factor = scale_factor(&stats);
    let nd = normalize(data, factor);
    proof {
        assert(factor@ == factor_spec(data@));
        if factor@ != 0 {
            assert(nd@.len() == data@.len());
        }
    }
    let (t0, t1) = gradient_descent(&nd, learning_rate, iterations);
    let raw0 = denormalize_intercept(t0, factor);
    proof {
        if iterations == 0 {
            let p = gd_iterate(nd@, learning_rate@, fx_from_int(data@.len() as int), 0nat);
            assert(p == (SCALE as int, SCALE as int));
            lemma_mul_one(factor@);
        }
    }
    Ok(TrainResult { theta0: raw0, theta1: t1, normalized: nd })
}

} // verus!
