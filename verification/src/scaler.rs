//! Normalization of a dataset so gradient descent works on values of
//! comparable magnitude, and the inverse transform on the fitted intercept.
//!
//! The statistics are the minimum and maximum over both components of all
//! samples (plus the x-only extrema, kept for display); the scale factor is
//! the larger magnitude of the two, a single divisor applied uniformly to
//! both axes.

use crate::fixed::Fx;
use crate::fixed::fx_abs;
use crate::fixed::fx_div;
use crate::fixed::fx_mul;
use vstd::prelude::*;

verus! {

/// One observation: an (x, y) pair of fixed-point values.
#[derive(Clone, Copy, Debug, PartialEq, Eq, Structural)]
pub struct Sample {
    pub x: Fx,
    pub y: Fx,
}

/// The one failure the numeric core itself can produce: statistics cannot
/// be computed from a dataset with no samples.
#[derive(Clone, Copy, Debug, PartialEq, Eq, Structural)]
pub enum TrainError {
    EmptyDataset,
}

/// Normalization statistics of a dataset, computed once from the raw data.
#[derive(Clone, Copy, Debug, PartialEq, Eq, Structural)]
pub struct ScaleStats {
    /// Minimum over both the x and y components of all samples.
    pub min: Fx,
    /// Maximum over both the x and y components of all samples.
    pub max: Fx,
    /// Minimum of the x components alone.
    pub x_min: Fx,
    /// Maximum of the x components alone.
    pub x_max: Fx,
}

/// The smaller of two mantissas.
pub open spec fn min2(a: int, b: int) -> int {
    if a <= b {
        a
    } else {
        b
    }
}

/// The larger of two mantissas.
pub open spec fn max2(a: int, b: int) -> int {
    if a >= b {
        a
    } else {
        b
    }
}

/// The smaller component of one sample.
pub open spec fn sample_min(s: Sample) -> int {
    min2(s.x@, s.y@)
}

/// The larger component of one sample.
pub open spec fn sample_max(s: Sample) -> int {
    max2(s.x@, s.y@)
}

/// Minimum over both components of all samples.
pub open spec fn min_all(data: Seq<Sample>) -> int
    recommends
        data.len() > 0,
    decreases data.len(),
{
    if data.len() <= 1 {
        sample_min(data[0])
    } else {
        min2(min_all(data.drop_last()), sample_min(data.last()))
    }
}

/// Maximum over both components of all samples.
pub open spec fn max_all(data: Seq<Sample>) -> int
    recommends
        data.len() > 0,
    decreases data.len(),
{
    if data.len() <= 1 {
        sample_max(data[0])
    } else {
        max2(max_all(data.drop_last()), sample_max(data.last()))
    }
}

/// Minimum over the x components of all samples.
pub open spec fn min_x(data: Seq<Sample>) -> int
    recommends
        data.len() > 0,
    decreases data.len(),
{
    if data.len() <= 1 {
        data[0].x@
    } else {
        min2(min_x(data.drop_last()), data.last().x@)
    }
}

/// Maximum over the x components of all samples.
pub open spec fn max_x(data: Seq<Sample>) -> int
    recommends
        data.len() > 0,
    decreases data.len(),
{
    if data.len() <= 1 {
        data[0].x@
    } else {
        max2(max_x(data.drop_last()), data.last().x@)
    }
}

/// The statistics are exactly those of the dataset.
pub open spec fn stats_of(data: Seq<Sample>, stats: ScaleStats) -> bool {
    &&& stats.min@ == min_all(data)
    &&& stats.max@ == max_all(data)
    &&& stats.x_min@ == min_x(data)
    &&& stats.x_max@ == max_x(data)
}

/// The scale factor derived from a minimum and maximum: the larger of the
/// two magnitudes.
pub open spec fn factor_of(mn: int, mx: int) -> int {
    max2(fx_abs(mn), fx_abs(mx))
}

/// The scale factor of a whole dataset.
pub open spec fn factor_spec(data: Seq<Sample>) -> int {
    factor_of(min_all(data), max_all(data))
}

/// One sample with both components divided by the factor `f`.
pub open spec fn scale_sample(s: Sample, f: int) -> Sample {
    Sample { x: Fx { m: fx_div(s.x@, f) as i64 }, y: Fx { m: fx_div(s.y@, f) as i64 } }
}

/// The dataset with every sample divided by `f`; a zero factor (the
/// degenerate all-zero dataset) leaves the data unchanged.
pub open spec fn normalize_spec(data: Seq<Sample>, f: int) -> Seq<Sample> {
    if f == 0 {
        data
    } else {
        data.map_values(|s: Sample| scale_sample(s, f))
    }
}

/// Compute the normalization statistics of a dataset in one pass, in
/// dataset order; an empty dataset is rejected.
pub fn compute_stats(data: &Vec<Sample>) -> (r: Result<ScaleStats, TrainError>)
    ensures
        r is Err <==> data@.len() == 0,
        r matches Err(e) ==> e == TrainError::EmptyDataset,
        r matches Ok(stats) ==> stats_of(data@, stats),
{
    if data.len() == 0 {
        return Err(TrainError::EmptyDataset);
    }
    let first = data[0];
    let mut mn: Fx = if first.x.m <= first.y.m {
        first.x
    } else {
        first.y
    };
    let mut mx: Fx = if first.x.m >= first.y.m {
        first.x
    } else {
        first.y
    };
    let mut xmn: Fx = first.x;
    let mut xmx: Fx = first.x;
    let mut i: usize = 1;
    while i < data.len()
        invariant
            1 <= i <= data@.len(),
            mn@ == min_all(data@.subrange(0, i as int)),
            mx@ == max_all(data@.subrange(0, i as int)),
            xmn@ == min_x(data@.subrange(0, i as int)),
            xmx@ == max_x(data@.subrange(0, i as int)),
        decreases data@.len() - i,
    {
        let s = data[i];
        proof {
            let pre = data@.subrange(0, i as int);
            let ext = data@.subrange(0, i as int + 1);
            assert(ext.drop_last() =~= pre);
            assert(ext.last() == data@[i as int]);
        }
        if s.x.m < mn.m {
            mn = s.x;
        }
        if s.y.m < mn.m {
            mn = s.y;
        }
        if s.x.m > mx.m {
            mx = s.x;
        }
        if s.y.m > mx.m {
            mx = s.y;
        }
        if s.x.m < xmn.m {
            xmn = s.x;
        }
        if s.x.m > xmx.m {
            xmx = s.x;
        }
        i = i + 1;
    }
    proof {
        assert(data@.subrange(0, data@.len() as int) =~= data@);
    }
    Ok(ScaleStats { min: mn, max: mx, x_min: xmn, x_max: xmx })
}

/// The scale factor of computed statistics: `max(|min|, |max|)`.
pub fn scale_factor(stats: &ScaleStats) -> (r: Fx)
    ensures
        r@ == factor_of(stats.min@, stats.max@),
{
    let amin = stats.min.abs();
    let amax = stats.max.abs();
    if amin.m > amax.m {
        amin
    } else {
        amax
    }
}

/// Divide every sample by the factor; a zero factor (all-zero dataset)
/// returns the dataset unchanged.
pub fn normalize(data: &Vec<Sample>, factor: Fx) -> (r: Vec<Sample>)
    ensures
        r@ == normalize_spec(data@, factor@),
{
    let mut r: Vec<Sample> = Vec::new();
    let mut i: usize = 0;
    if factor.m == 0 {
        while i < data.len()
            invariant
                0 <= i <= data@.len(),
                r@ == data@.subrange(0, i as int),
            decreases data@.len() - i,
        {
            proof {
                assert(data@.subrange(0, i as int + 1) =~= data@.subrange(0, i as int).push(
                    data@[i as int],
                ));
            }
            r.push(data[i]);
            i = i + 1;
        }
        proof {
            assert(data@.subrange(0, data@.len() as int) =~= data@);
        }
        r
    } else {
        while i < data.len()
            invariant
                0 <= i <= data@.len(),
                factor@ != 0,
                r@.len() == i as int,
                forall|j: int|
                    0 <= j < i as int ==> r@[j] == scale_sample(data@[j], factor@),
            decreases data@.len() - i,
        {
            let s = data[i];
            let scaled = Sample { x: s.x.div(factor), y: s.y.div(factor) };
            proof {
                assert(scaled == scale_sample(data@[i as int], factor@));
            }
            r.push(scaled);
            i = i + 1;
        }
        proof {
            assert(r@ =~= normalize_spec(data@, factor@));
        }
        r
    }
}

/// One sample with both components multiplied by the factor `f`.
pub open spec fn unscale_sample(s: Sample, f: int) -> Sample {
    Sample { x: Fx { m: fx_mul(s.x@, f) as i64 }, y: Fx { m: fx_mul(s.y@, f) as i64 } }
}

/// The dataset with every sample multiplied by `f`, the inverse direction
/// of `normalize_spec`; a zero factor again leaves the data unchanged.
pub open spec fn denormalize_spec(data: Seq<Sample>, f: int) -> Seq<Sample> {
    if f == 0 {
        data
    } else {
        data.map_values(|s: Sample| unscale_sample(s, f))
    }
}

/// Multiply every sample by the factor, mapping a normalized dataset back
/// toward raw space; a zero factor returns the dataset unchanged.
pub fn denormalize(data: &Vec<Sample>, factor: Fx) -> (r: Vec<Sample>)
    ensures
        r@ == denormalize_spec(data@, factor@),
{
    let mut r: Vec<Sample> = Vec::new();
    let mut i: usize = 0;
    if factor.m == 0 {
        while i < data.len()
            invariant
                0 <= i <= data@.len(),
                r@ == data@.subrange(0, i as int),
            decreases data@.len() - i,
        {
            proof {
                assert(data@.subrange(0, i as int + 1) =~= data@.subrange(0, i as int).push(
                    data@[i as int],
                ));
            }
            r.push(data[i]);
            i = i + 1;
        }
        proof {
            assert(data@.subrange(0, data@.len() as int) =~= data@);
        }
        r
    } else {
        while i < data.len()
            invariant
                0 <= i <= data@.len(),
                factor@ != 0,
                r@.len() == i as int,
                forall|j: int|
                    0 <= j < i as int ==> r@[j] == unscale_sample(data@[j], factor@),
            decreases data@.len() - i,
        {
            let s = data[i];
            let unscaled = Sample { x: s.x.mul(factor), y: s.y.mul(factor) };
            proof {
                assert(unscaled == unscale_sample(data@[i as int], factor@));
            }
            r.push(unscaled);
            i = i + 1;
        }
        proof {
            assert(r@ =~= denormalize_spec(data@, factor@));
        }
        r
    }
}

/// Map the fitted intercept from scaled space back to raw space by
/// multiplying with the scale factor; the slope needs no correction, since
/// dividing x and y by the same factor leaves their ratio unchanged.
pub fn denormalize_intercept(theta0: Fx, factor: Fx) -> (r: Fx)
    ensures
        r@ == fx_mul(theta0@, factor@),
{
    theta0.mul(factor)
}

/// The extrema of a dataset and of its pointwise negation mirror each
/// other: the minimum of one is the negated maximum of the other.
proof fn lemma_minmax_negate(data: Seq<Sample>, negated: Seq<Sample>)
    requires
        data.len() > 0,
        negated.len() == data.len(),
        forall|i: int|
            0 <= i < data.len() ==> negated[i].x@ == -data[i].x@ && negated[i].y@ == -data[i].y@,
    ensures
        min_all(negated) == -max_all(data),
        max_all(negated) == -min_all(data),
    decreases data.len(),
{
    if data.len() == 1 {
        assert(negated[0].x@ == -data[0].x@);
        assert(negated[0].y@ == -data[0].y@);
    } else {
        assert forall|i: int| 0 <= i < data.drop_last().len() implies negated.drop_last()[i].x@
            == -data.drop_last()[i].x@ && negated.drop_last()[i].y@
            == -data.drop_last()[i].y@ by {
            assert(negated.drop_last()[i] == negated[i]);
            assert(data.drop_last()[i] == data[i]);
        }
        lemma_minmax_negate(data.drop_last(), negated.drop_last());
        assert(negated.last().x@ == -data.last().x@);
        assert(negated.last().y@ == -data.last().y@);
    }
}

/// Law: the scale factor is invariant under the sign of the data —
/// negating every sample value leaves `max(|min|, |max|)` unchanged.
pub proof fn lemma_scale_factor_sign_invariant(data: Seq<Sample>, negated: Seq<Sample>)
    requires
        data.len() > 0,
        negated.len() == data.len(),
        forall|i: int|
            0 <= i < data.len() ==> negated[i].x@ == -data[i].x@ && negated[i].y@ == -data[i].y@,
    ensures
        factor_spec(negated) == factor_spec(data),
{
    lemma_minmax_negate(data, negated);
}

} // verus!
