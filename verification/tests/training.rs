use linreg::fixed::Fx;
use linreg::fixed::SCALE;
use linreg::scaler::Sample;
use linreg::scaler::TrainError;
use linreg::trainer::train;

fn sample(x: i64, y: i64) -> Sample {
    Sample { x: Fx::from_int(x), y: Fx::from_int(y) }
}

/// The default learning rate of the original tool, 0.001, in fixed point.
fn default_rate() -> Fx {
    Fx::from_int(1).div(Fx::from_int(1000))
}

#[test]
fn empty_dataset_fails_cleanly() {
    let data: Vec<Sample> = Vec::new();
    let r = train(&data, default_rate(), 100);
    assert_eq!(r.unwrap_err(), TrainError::EmptyDataset);
}

#[test]
fn zero_iterations_return_the_start_values() {
    // Scaled-space start is (1.0, 1.0); the intercept is rescaled by the
    // factor, so raw space sees (factor, 1.0).
    let data = vec![sample(5, 10), sample(2, 3)];
    let out = train(&data, default_rate(), 0).unwrap();
    assert_eq!(out.theta0, Fx::from_int(10));
    assert_eq!(out.theta1, Fx::one());
}

#[test]
fn zero_iterations_with_negative_extremum() {
    let data = vec![sample(-6, 1), sample(2, 3)];
    let out = train(&data, default_rate(), 0).unwrap();
    assert_eq!(out.theta0, Fx::from_int(6));
    assert_eq!(out.theta1, Fx::one());
}

#[test]
fn one_iteration_golden_values() {
    // One gradient-descent pass over the perfect line y = x, checked
    // against the exact mantissas of the deterministic update rule.
    let data = vec![sample(1, 1), sample(2, 2), sample(3, 3)];
    let out = train(&data, default_rate(), 1).unwrap();
    assert_eq!(out.theta0.m, 12872016993);
    assert_eq!(out.theta1.m, 4292103987);
}

#[test]
fn training_normalizes_by_the_combined_factor() {
    let data = vec![sample(1, 1), sample(2, 2), sample(3, 3)];
    let out = train(&data, default_rate(), 0).unwrap();
    assert_eq!(out.normalized.len(), 3);
    assert_eq!(out.normalized[0].x.m, SCALE / 3);
    assert_eq!(out.normalized[1].x.m, 2 * SCALE / 3);
    assert_eq!(out.normalized[2].x.m, SCALE);
    assert_eq!(out.normalized[2].y.m, SCALE);
}

#[test]
fn all_zero_dataset_trains_without_scaling() {
    // Degenerate dataset: factor 0, data passed through unchanged, and the
    // fit settles toward y = 0.
    let data = vec![sample(0, 0), sample(0, 0)];
    let out = train(&data, default_rate(), 10).unwrap();
    assert_eq!(out.normalized, data);
    // theta0 is rescaled by the zero factor, so it is exactly zero.
    assert_eq!(out.theta0, Fx::zero());
}

#[test]
fn converges_on_a_perfect_line() {
    // y = x: the fit tends to intercept 0, slope 1.
    let data = vec![sample(1, 1), sample(2, 2), sample(3, 3)];
    let out = train(&data, default_rate(), 100_000).unwrap();
    let tol = SCALE / 100;
    assert!(out.theta0.m.abs() < tol, "theta0 = {}", out.theta0.m);
    assert!((out.theta1.m - SCALE).abs() < tol, "theta1 = {}", out.theta1.m);
}

#[test]
fn converges_on_a_constant_line() {
    // y = 2 everywhere: the fit tends to intercept 2, slope 0.
    let data = vec![sample(1, 2), sample(2, 2), sample(3, 2)];
    let out = train(&data, default_rate(), 100_000).unwrap();
    let tol = SCALE / 100;
    assert!((out.theta0.m - 2 * SCALE).abs() < tol, "theta0 = {}", out.theta0.m);
    assert!(out.theta1.m.abs() < tol, "theta1 = {}", out.theta1.m);
}
