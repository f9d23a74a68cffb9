use linreg::fixed::Fx;
use linreg::fixed::SCALE;
use linreg::scaler::Sample;
use linreg::scaler::TrainError;
use linreg::scaler::compute_stats;
use linreg::scaler::denormalize;
use linreg::scaler::denormalize_intercept;
use linreg::scaler::normalize;
use linreg::scaler::scale_factor;

fn sample(x: i64, y: i64) -> Sample {
    Sample { x: Fx::from_int(x), y: Fx::from_int(y) }
}

#[test]
fn stats_cover_both_components() {
    let data = vec![sample(1, -2), sample(3, 4)];
    let stats = compute_stats(&data).unwrap();
    assert_eq!(stats.min, Fx::from_int(-2));
    assert_eq!(stats.max, Fx::from_int(4));
    assert_eq!(stats.x_min, Fx::from_int(1));
    assert_eq!(stats.x_max, Fx::from_int(3));
}

#[test]
fn stats_of_empty_dataset_fail() {
    let data: Vec<Sample> = Vec::new();
    assert_eq!(compute_stats(&data), Err(TrainError::EmptyDataset));
}

#[test]
fn factor_is_the_larger_magnitude() {
    let data = vec![sample(1, -7), sample(3, 4)];
    let stats = compute_stats(&data).unwrap();
    assert_eq!(scale_factor(&stats), Fx::from_int(7));
}

#[test]
fn factor_ignores_the_sign_of_the_data() {
    let data = vec![sample(1, -7), sample(3, 4)];
    let negated = vec![sample(-1, 7), sample(-3, -4)];
    let f = scale_factor(&compute_stats(&data).unwrap());
    let g = scale_factor(&compute_stats(&negated).unwrap());
    assert_eq!(f, g);
}

#[test]
fn normalize_divides_both_components() {
    let data = vec![sample(1, 2), sample(-4, 2)];
    let nd = normalize(&data, Fx::from_int(4));
    assert_eq!(nd[0].x.m, SCALE / 4);
    assert_eq!(nd[0].y.m, SCALE / 2);
    assert_eq!(nd[1].x.m, -SCALE);
    assert_eq!(nd[1].y.m, SCALE / 2);
}

#[test]
fn normalize_with_zero_factor_is_identity() {
    let data = vec![sample(0, 0), sample(0, 0)];
    let nd = normalize(&data, Fx::zero());
    assert_eq!(nd, data);
    let back = denormalize(&nd, Fx::zero());
    assert_eq!(back, data);
}

#[test]
fn dataset_round_trip_is_tight() {
    let data = vec![sample(1, 5), sample(-3, 2)];
    let f = Fx::from_int(5);
    let back = denormalize(&normalize(&data, f), f);
    for (b, d) in back.iter().zip(data.iter()) {
        // The proved bound: error * 2^32 < |f| + 2^32, so at most 5 units.
        assert!((b.x.m - d.x.m).abs() <= 5);
        assert!((b.y.m - d.y.m).abs() <= 5);
    }
}

#[test]
fn intercept_denormalization_multiplies_by_the_factor() {
    let t0 = Fx { m: SCALE / 2 };
    assert_eq!(denormalize_intercept(t0, Fx::from_int(6)), Fx::from_int(3));
}
