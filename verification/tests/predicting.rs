use linreg::fixed::Fx;
use linreg::predictor::Predict;

fn fx(v: i64) -> Fx {
    Fx::from_int(v)
}

#[test]
fn empty_coefficients_return_zero_everywhere() {
    let p = Predict::new(Vec::new());
    let r = p.predict(&vec![fx(0), fx(5), fx(-17)]);
    assert_eq!(r, vec![Fx::zero(), Fx::zero(), Fx::zero()]);
}

#[test]
fn empty_inputs_return_an_empty_result() {
    let p = Predict::new(vec![fx(1), fx(2)]);
    let r = p.predict(&Vec::new());
    assert!(r.is_empty());
}

#[test]
fn constant_polynomial_returns_the_constant() {
    // theta = [c]: c for every input, x = 0 included (x^0 is one even there).
    let p = Predict::new(vec![fx(9)]);
    let r = p.predict(&vec![fx(0), fx(5), fx(-17)]);
    assert_eq!(r, vec![fx(9), fx(9), fx(9)]);
}

#[test]
fn identity_polynomial_returns_the_input() {
    // theta = [0, 1]: the identity function.
    let p = Predict::new(vec![Fx::zero(), Fx::one()]);
    let xs = vec![fx(0), fx(42), fx(-3), Fx { m: 123456789 }];
    let r = p.predict(&xs);
    assert_eq!(r, xs);
}

#[test]
fn degree_two_polynomial_exact_value() {
    // 1 + 2x + 3x^2 at x = 2: 1 + 4 + 12 = 17, exact in fixed point.
    let p = Predict::new(vec![fx(1), fx(2), fx(3)]);
    let r = p.predict(&vec![fx(2)]);
    assert_eq!(r, vec![fx(17)]);
}

#[test]
fn fitted_line_predicts_in_order() {
    // theta = [5, 2]: y = 5 + 2x at several x, results in input order.
    let p = Predict::new(vec![fx(5), fx(2)]);
    let r = p.predict(&vec![fx(1), fx(0), fx(-2)]);
    assert_eq!(r, vec![fx(7), fx(5), fx(1)]);
}
