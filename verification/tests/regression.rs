use linear_regression::isqrt::isqrt;
use linear_regression::linear_regression::LinearRegressionModel;
use linear_regression::linear_regression::Ratio;
use linear_regression::linear_regression::RegressionError;

fn ratio_to_f64(r: Ratio) -> f64 {
    r.num as f64 / r.den as f64
}

#[test]
fn isqrt_small_values() {
    assert_eq!(isqrt(0), 0);
    assert_eq!(isqrt(1), 1);
    assert_eq!(isqrt(3), 1);
    assert_eq!(isqrt(4), 2);
    assert_eq!(isqrt(15), 3);
    assert_eq!(isqrt(16), 4);
    assert_eq!(isqrt(700), 26);
}

#[test]
fn isqrt_large_values() {
    let n: i128 = 400_000_000_000_000_000_000_000_000_000_000;
    let r = isqrt(n);
    assert!(r * r <= n);
    assert!((r + 1) * (r + 1) > n);
    assert_eq!(isqrt(1_000_000_000_000_000_000_000_000), 1_000_000_000_000);
}

#[test]
fn new_rejects_length_mismatch() {
    let r = LinearRegressionModel::new(vec![1, 2, 3], vec![1, 2]);
    assert_eq!(r.err(), Some(RegressionError::LengthMismatch));
}

#[test]
fn new_rejects_too_many_samples() {
    let n: usize = 10_001;
    let r = LinearRegressionModel::new(vec![0; n], vec![0; n]);
    assert_eq!(r.err(), Some(RegressionError::TooManySamples));
}

#[test]
fn new_rejects_value_out_of_range() {
    let r = LinearRegressionModel::new(vec![1, 10_001], vec![1, 2]);
    assert_eq!(r.err(), Some(RegressionError::ValueOutOfRange));
    let r = LinearRegressionModel::new(vec![1, 2], vec![-10_001, 2]);
    assert_eq!(r.err(), Some(RegressionError::ValueOutOfRange));
}

#[test]
fn new_zero_initializes_statistics() {
    let m = LinearRegressionModel::new(vec![1, 2, 3], vec![4, 5, 6]).unwrap();
    assert_eq!(m.a, Ratio { num: 0, den: 1 });
    assert_eq!(m.b, Ratio { num: 0, den: 1 });
    assert_eq!(m.summation_x, 0);
    assert_eq!(m.summation_y, 0);
    assert_eq!(m.summation_xy, 0);
    assert_eq!(m.summation_x_square, 0);
    assert_eq!(m.summation_y_square, 0);
    assert_eq!(m.n, 0);
}

#[test]
fn predict_before_training_is_zero() {
    let m = LinearRegressionModel::new(vec![1, 2, 3], vec![4, 5, 6]).unwrap();
    let p = m.predict(42);
    assert_eq!(p, Ratio { num: 0, den: 1 });
}

#[test]
fn correlation_before_training_is_undefined() {
    let m = LinearRegressionModel::new(vec![1, 2, 3], vec![4, 5, 6]).unwrap();
    let r = m.get_correlation_coefficient();
    assert_eq!(r, Ratio { num: 0, den: 0 });
}

#[test]
fn train_computes_exact_summations() {
    let mut m = LinearRegressionModel::new(vec![1, 2, 3], vec![2, 4, 6]).unwrap();
    m.train();
    assert_eq!(m.summation_x, 6);
    assert_eq!(m.summation_y, 12);
    assert_eq!(m.summation_xy, 28);
    assert_eq!(m.summation_x_square, 14);
    assert_eq!(m.summation_y_square, 56);
    assert_eq!(m.n, 3);
    // determinant 3*14 - 36 = 6; slope (3*28 - 72)/6 = 2; intercept 0/6
    assert_eq!(m.b, Ratio { num: 12, den: 6 });
    assert_eq!(m.a, Ratio { num: 0, den: 6 });
    let p = m.predict(4);
    assert_eq!(p, Ratio { num: 48, den: 6 });
    // perfectly linear rising data: correlation exactly one
    let r = m.get_correlation_coefficient();
    assert_eq!(r, Ratio { num: 12, den: 12 });
}

#[test]
fn train_twice_is_idempotent() {
    let mut m = LinearRegressionModel::new(vec![1, 5, 2, 4], vec![3, 9, 5, 7]).unwrap();
    m.train();
    let a1 = m.a;
    let b1 = m.b;
    let sums1 = (
        m.summation_x,
        m.summation_y,
        m.summation_xy,
        m.summation_x_square,
        m.summation_y_square,
        m.n,
    );
    m.train();
    assert_eq!(m.a, a1);
    assert_eq!(m.b, b1);
    let sums2 = (
        m.summation_x,
        m.summation_y,
        m.summation_xy,
        m.summation_x_square,
        m.summation_y_square,
        m.n,
    );
    assert_eq!(sums1, sums2);
}

#[test]
fn predict_is_affine_in_x() {
    let mut m = LinearRegressionModel::new(vec![1, 2, 3, 4], vec![1, 3, 2, 5]).unwrap();
    m.train();
    let x1: i128 = -7;
    let x2: i128 = 19;
    let p1 = m.predict(x1);
    let p2 = m.predict(x2);
    assert_eq!(p1.den, p2.den);
    // (p2 - p1) == b * (x2 - x1) as rational values, by cross-multiplication
    assert_eq!((p2.num - p1.num) * m.b.den, m.b.num * (x2 - x1) * p2.den);
}

#[test]
fn correlation_bounded_for_nondegenerate_data() {
    let mut m = LinearRegressionModel::new(vec![1, 2, 3, 4], vec![1, 3, 2, 5]).unwrap();
    m.train();
    let r = m.get_correlation_coefficient();
    // Sxy' = 4*33 - 10*11 = 22; Sxx' = 20; Syy' = 35; isqrt(700) = 26
    assert_eq!(r, Ratio { num: 22, den: 26 });
    assert!(r.den > 0);
    assert!(-r.den <= r.num && r.num <= r.den);
}

#[test]
fn correlation_bounded_for_scattered_data() {
    let xs: Vec<i128> = (0..100).map(|i: i128| (i * 37) % 101 - 50).collect();
    let ys: Vec<i128> = (0..100).map(|i: i128| (i * i * 13 + 7 * i) % 89 - 44).collect();
    let mut m = LinearRegressionModel::new(xs, ys).unwrap();
    m.train();
    let r = m.get_correlation_coefficient();
    assert!(r.den > 0);
    assert!(-r.den <= r.num && r.num <= r.den);
}

#[test]
fn perfect_linear_data_recovers_line() {
    // y = 3x + 7 exactly
    let xs: Vec<i128> = vec![-5, 0, 2, 9, 14];
    let ys: Vec<i128> = xs.iter().map(|&x| 3 * x + 7).collect();
    let mut m = LinearRegressionModel::new(xs, ys).unwrap();
    m.train();
    assert!(m.b.den != 0);
    assert_eq!(m.b.num, 3 * m.b.den);
    assert_eq!(m.a.num, 7 * m.a.den);
    let r = m.get_correlation_coefficient();
    assert!(r.den > 0);
    assert_eq!(r.num, r.den);
}

#[test]
fn perfect_falling_line_gives_minus_one_correlation() {
    // y = -2x + 1 exactly
    let xs: Vec<i128> = vec![1, 3, 4, 8];
    let ys: Vec<i128> = xs.iter().map(|&x| -2 * x + 1).collect();
    let mut m = LinearRegressionModel::new(xs, ys).unwrap();
    m.train();
    assert_eq!(m.b.num, -2 * m.b.den);
    assert_eq!(m.a.num, m.a.den);
    let r = m.get_correlation_coefficient();
    assert!(r.den > 0);
    assert_eq!(r.num, -r.den);
}

#[test]
fn zero_variance_x_is_degenerate() {
    let mut m = LinearRegressionModel::new(vec![5, 5, 5, 5], vec![1, 2, 3, 4]).unwrap();
    m.train();
    // zero determinant: intercept and slope are the NaN/infinity encoding
    assert_eq!(m.a.den, 0);
    assert_eq!(m.b.den, 0);
    // correlation is zero over zero, the NaN encoding
    let r = m.get_correlation_coefficient();
    assert_eq!(r, Ratio { num: 0, den: 0 });
}

#[test]
fn end_to_end_scenario() {
    // study hours and test scores, scaled by ten to integer samples
    let hours: [f64; 20] = [
        20.0, 12.0, 14.0, 15.0, 18.0, 9.0, 5.0, 4.0, 8.0, 13.0, 14.0, 15.0, 19.0, 18.0, 12.0,
        11.0, 10.0, 15.0, 17.0, 20.0,
    ];
    let scores: [f64; 20] = [
        9.5, 2.5, 3.6, 6.7, 5.2, 1.0, 0.0, 1.5, 2.0, 3.0, 3.5, 4.5, 8.5, 7.5, 5.0, 4.0, 3.0, 5.0,
        6.5, 10.0,
    ];
    let xs: Vec<i128> = hours.iter().map(|&v| (v * 10.0).round() as i128).collect();
    let ys: Vec<i128> = scores.iter().map(|&v| (v * 10.0).round() as i128).collect();
    let mut m = LinearRegressionModel::new(xs, ys).unwrap();
    m.train();

    // closed-form expectation computed directly from the summation formulas
    let n = hours.len() as f64;
    let sx: f64 = hours.iter().sum();
    let sy: f64 = scores.iter().sum();
    let sxy: f64 = hours.iter().zip(scores.iter()).map(|(a, b)| a * b).sum();
    let sxx: f64 = hours.iter().map(|a| a * a).sum();
    let syy: f64 = scores.iter().map(|b| b * b).sum();
    let det = n * sxx - sx * sx;
    let expected_b = (n * sxy - sx * sy) / det;
    let expected_a = (sy * sxx - sx * sxy) / det;
    let expected_at_16 = expected_a + expected_b * 16.0;

    // predictions carry the ten-fold scale of the samples
    let predicted = ratio_to_f64(m.predict(160)) / 10.0;
    assert!((predicted - expected_at_16).abs() < 1e-3);

    let slope = ratio_to_f64(m.b);
    let intercept = ratio_to_f64(m.a) / 10.0;
    assert!((slope - expected_b).abs() < 1e-6);
    assert!((intercept - expected_a).abs() < 1e-6);

    let r = m.get_correlation_coefficient();
    assert!(r.den > 0);
    let corr = ratio_to_f64(r);
    assert!(corr > 0.8 && corr < 1.0);
}

#[test]
fn getters_recompute_from_summations() {
    let mut m = LinearRegressionModel::new(vec![1, 2, 3], vec![2, 4, 6]).unwrap();
    m.train();
    let a = m.get_a();
    let b = m.get_b();
    assert_eq!(a, m.a);
    assert_eq!(b, m.b);
}

#[test]
fn samples_at_the_bounds_are_accepted() {
    let mut m =
        LinearRegressionModel::new(vec![10_000, -10_000], vec![-10_000, 10_000]).unwrap();
    m.train();
    assert_eq!(m.summation_x, 0);
    assert_eq!(m.summation_x_square, 200_000_000);
    // y = -x exactly: slope minus one, correlation minus one
    assert_eq!(m.b.num, -m.b.den);
    let r = m.get_correlation_coefficient();
    assert_eq!(r.num, -r.den);
}
