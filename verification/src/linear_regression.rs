//! The regression engine: equal-length integer samples in, exact rational
//! intercept, slope, predictions and correlation coefficient out.
//!
//! Sample values are integers (callers with fractional data scale it by a
//! fixed factor first; the slope and the correlation coefficient are
//! invariant under a common scale, and the intercept and predictions carry
//! the scale of the dependent variable). Every derived statistic is an
//! exact rational: a [`Ratio`] whose denominator is the variance
//! determinant `n * sum(x^2) - (sum x)^2`, which is zero exactly for the
//! degenerate inputs on which floating-point formulas would produce
//! infinities or NaN.

use vstd::prelude::*;

use crate::isqrt::isqrt;
use crate::isqrt::ISQRT_MAX;
use crate::sums::all_within;
use crate::sums::as_ints;
use crate::sums::intercept_num;
use crate::sums::lemma_affine_data_sums;
use crate::sums::lemma_centered_cauchy;
use crate::sums::lemma_mul_bound;
use crate::sums::lemma_mul_nonneg;
use crate::sums::lemma_sum_const;
use crate::sums::lemma_sum_prod_const_left;
use crate::sums::lemma_sum_bound;
use crate::sums::lemma_sum_of_products;
use crate::sums::lemma_sum_prod_bound;
use crate::sums::lemma_sum_take_step;
use crate::sums::slope_num;
use crate::sums::sum;
use crate::sums::sum_prod;
use crate::sums::variance_det;

verus! {

/// Most samples a model accepts.
pub const MAX_SAMPLES: usize = 10_000;

/// Largest magnitude a sample value may have.
pub const MAX_VALUE: i128 = 10_000;

/// Largest magnitude of a pairwise product: `MAX_VALUE * MAX_VALUE`.
pub const PROD_BOUND: i128 = 100_000_000;

/// Largest magnitude of a sum of samples: `MAX_SAMPLES * MAX_VALUE`.
pub const SUM_BOUND: i128 = 100_000_000;

/// Largest magnitude of a sum of products: `MAX_SAMPLES * PROD_BOUND`.
pub const SUMSQ_BOUND: i128 = 1_000_000_000_000;

/// Largest magnitude of one product of a count or sum with a sum of
/// products: `MAX_SAMPLES * SUMSQ_BOUND == SUM_BOUND * SUM_BOUND`.
pub const DET_TERM_BOUND: i128 = 10_000_000_000_000_000;

/// Largest magnitude of the slope numerator or the variance determinant:
/// `2 * DET_TERM_BOUND`.
pub const DET_BOUND: i128 = 20_000_000_000_000_000;

/// Largest magnitude of one term of the intercept numerator:
/// `SUM_BOUND * SUMSQ_BOUND`.
pub const NUM_TERM_BOUND: i128 = 100_000_000_000_000_000_000;

/// Largest magnitude of the intercept numerator: `2 * NUM_TERM_BOUND`.
pub const INTERCEPT_BOUND: i128 = 200_000_000_000_000_000_000;

/// Largest magnitude of a prediction point.
pub const PRED_X_BOUND: i128 = 1_000_000_000_000_000_000;

/// An exact rational value: `num / den` when `den != 0`. A denominator of
/// zero encodes the undefined outcomes that floating-point arithmetic
/// would render as an infinity (`num != 0`) or NaN (`num == 0`).
#[derive(Clone, Copy, Debug, PartialEq, Eq, Structural)]
pub struct Ratio {
    pub num: i128,
    pub den: i128,
}

/// Two fractions denote the same rational value (cross-multiplication).
pub open spec fn frac_eq(n1: int, d1: int, n2: int, d2: int) -> bool {
    n1 * d2 == n2 * d1
}

/// Why a sample set was rejected.
#[derive(Clone, Copy, Debug, PartialEq, Eq, Structural)]
pub enum RegressionError {
    /// The two sequences differ in length.
    LengthMismatch,
    /// More than `MAX_SAMPLES` pairs.
    TooManySamples,
    /// A value lies outside `[-MAX_VALUE, MAX_VALUE]`.
    ValueOutOfRange,
}

/// Least-squares engine over one immutable sample set. Construction
/// zero-initializes the statistics; `train` computes the five summations
/// and derives the intercept `a` and the slope `b`.
pub struct LinearRegressionModel {
    pub x: Vec<i128>,
    pub y: Vec<i128>,
    pub a: Ratio,
    pub b: Ratio,
    pub summation_x: i128,
    pub summation_y: i128,
    pub summation_xy: i128,
    pub summation_x_square: i128,
    pub summation_y_square: i128,
    pub n: i128,
}

impl LinearRegressionModel {
    /// The independent samples as mathematical integers.
    pub open spec fn xs(self) -> Seq<int> {
        as_ints(self.x@)
    }

    /// The dependent samples as mathematical integers.
    pub open spec fn ys(self) -> Seq<int> {
        as_ints(self.y@)
    }

    /// The sample set is the one a successful construction admits.
    pub open spec fn samples_wf(self) -> bool {
        &&& self.xs().len() == self.ys().len()
        &&& self.xs().len() <= MAX_SAMPLES as int
        &&& all_within(self.xs(), MAX_VALUE as int)
        &&& all_within(self.ys(), MAX_VALUE as int)
    }

    /// The statistic fields lie within the ranges the formulas need to
    /// stay free of overflow.
    pub open spec fn stats_bounded(self) -> bool {
        &&& -SUM_BOUND <= self.summation_x <= SUM_BOUND
        &&& -SUM_BOUND <= self.summation_y <= SUM_BOUND
        &&& -SUMSQ_BOUND <= self.summation_xy <= SUMSQ_BOUND
        &&& -SUMSQ_BOUND <= self.summation_x_square <= SUMSQ_BOUND
        &&& -SUMSQ_BOUND <= self.summation_y_square <= SUMSQ_BOUND
        &&& 0 <= self.n <= MAX_SAMPLES as int
    }

    /// The zero-initialized state construction leaves the model in.
    pub open spec fn is_initial(self) -> bool {
        &&& self.a == (Ratio { num: 0, den: 1 })
        &&& self.b == (Ratio { num: 0, den: 1 })
        &&& self.summation_x == 0
        &&& self.summation_y == 0
        &&& self.summation_xy == 0
        &&& self.summation_x_square == 0
        &&& self.summation_y_square == 0
        &&& self.n == 0
    }

    /// Every statistic matches the sample set: the five summations are the
    /// exact sums, and the intercept and slope are the closed-form
    /// fractions over the common variance determinant.
    pub open spec fn is_fitted(self) -> bool {
        &&& self.summation_x == sum(self.xs())
        &&& self.summation_y == sum(self.ys())
        &&& self.summation_xy == sum_prod(self.xs(), self.ys())
        &&& self.summation_x_square == sum_prod(self.xs(), self.xs())
        &&& self.summation_y_square == sum_prod(self.ys(), self.ys())
        &&& self.n == self.xs().len()
        &&& self.a.num == intercept_num(self.xs(), self.ys())
        &&& self.a.den == variance_det(self.xs())
        &&& self.b.num == slope_num(self.xs(), self.ys())
        &&& self.b.den == variance_det(self.xs())
    }

    /// A model is always either as constructed or exactly fitted.
    pub open spec fn wf(self) -> bool {
        &&& self.samples_wf()
        &&& self.stats_bounded()
        &&& self.is_initial() || self.is_fitted()
    }

    /// Slope numerator recomputed from the statistic fields.
    pub open spec fn corr_num_of(self) -> int {
        self.n * self.summation_xy - self.summation_x * self.summation_y
    }

    /// X scatter (`n * Sxx` in textbook terms) from the statistic fields.
    pub open spec fn x_scatter_of(self) -> int {
        self.n * self.summation_x_square - self.summation_x * self.summation_x
    }

    /// Y scatter (`n * Syy`) from the statistic fields.
    pub open spec fn y_scatter_of(self) -> int {
        self.n * self.summation_y_square - self.summation_y * self.summation_y
    }

    /// Radicand of the correlation formula's square root.
    pub open spec fn corr_rad_of(self) -> int {
        self.x_scatter_of() * self.y_scatter_of()
    }

    /// Accepts the sample set and zero-initializes all statistics, or says
    /// exactly why the set is rejected.
    pub fn new(x: Vec<i128>, y: Vec<i128>) -> (r: Result<LinearRegressionModel, RegressionError>)
        ensures
            r is Ok <==> x@.len() == y@.len() && x@.len() <= MAX_SAMPLES as int && all_within(
                as_ints(x@),
                MAX_VALUE as int,
            ) && all_within(as_ints(y@), MAX_VALUE as int),
            x@.len() != y@.len() ==> r == Err::<LinearRegressionModel, RegressionError>(
                RegressionError::LengthMismatch,
            ),
            x@.len() == y@.len() && x@.len() > MAX_SAMPLES as int ==> r == Err::<
                LinearRegressionModel,
                RegressionError,
            >(RegressionError::TooManySamples),
            x@.len() == y@.len() && x@.len() <= MAX_SAMPLES as int && !(all_within(
                as_ints(x@),
                MAX_VALUE as int,
            ) && all_within(as_ints(y@), MAX_VALUE as int)) ==> r == Err::<
                LinearRegressionModel,
                RegressionError,
            >(RegressionError::ValueOutOfRange),
            r is Ok ==> (r->Ok_0).wf() && (r->Ok_0).is_initial() && (r->Ok_0).xs() == as_ints(x@)
                && (r->Ok_0).ys() == as_ints(y@),
    {
        if x.len() != y.len() {
            return Err(RegressionError::LengthMismatch);
        }
        if x.len() > MAX_SAMPLES {
            return Err(RegressionError::TooManySamples);
        }
        if !all_in_range(&x) || !all_in_range(&y) {
            return Err(RegressionError::ValueOutOfRange);
        }
        Ok(
            LinearRegressionModel {
                x,
                y,
                a: Ratio { num: 0, den: 1 },
                b: Ratio { num: 0, den: 1 },
                summation_x: 0,
                summation_y: 0,
                summation_xy: 0,
                summation_x_square: 0,
                summation_y_square: 0,
                n: 0,
            },
        )
    }

    /// Recomputes the five summations from the sample set, then derives
    /// the intercept and the slope, leaving the model exactly fitted.
    /// Running it again recomputes the same values.
    pub fn train(&mut self)
        requires
            old(self).wf(),
        ensures
            final(self).wf(),
            final(self).is_fitted(),
            final(self).xs() == old(self).xs(),
            final(self).ys() == old(self).ys(),
    {
        let xy = multiply_two_arrays(&self.x, &self.y);
        let x_square = multiply_two_arrays(&self.x, &self.x);
        let y_square = multiply_two_arrays(&self.y, &self.y);
        self.summation_x_square = sum_all(&x_square);
        self.summation_y_square = sum_all(&y_square);
        self.summation_x = sum_all(&self.x);
        self.summation_y = sum_all(&self.y);
        self.summation_xy = sum_all(&xy);
        self.n = self.x.len() as i128;
        proof {
            lemma_sum_of_products(as_ints(xy@), self.xs(), self.ys());
            lemma_sum_of_products(as_ints(x_square@), self.xs(), self.xs());
            lemma_sum_of_products(as_ints(y_square@), self.ys(), self.ys());
            lemma_sum_bound(self.xs(), MAX_VALUE as int);
            lemma_sum_bound(self.ys(), MAX_VALUE as int);
            lemma_sum_prod_bound(self.xs(), self.ys(), MAX_VALUE as int);
            lemma_sum_prod_bound(self.xs(), self.xs(), MAX_VALUE as int);
            lemma_sum_prod_bound(self.ys(), self.ys(), MAX_VALUE as int);
        }
        let a = self.get_a();
        let b = self.get_b();
        self.a = a;
        self.b = b;
    }

    /// Prediction of the fitted line at `x`: the exact rational
    /// `a + b * x`, sharing the intercept's denominator. Before training
    /// it returns zero.
    pub fn predict(&self, x: i128) -> (r: Ratio)
        requires
            self.wf(),
            -PRED_X_BOUND <= x <= PRED_X_BOUND,
        ensures
            r.num == self.a.num + self.b.num * x,
            r.den == self.a.den,
    {
        proof {
            if self.is_fitted() {
                self.lemma_derived_bounds();
                lemma_mul_bound(self.b.num as int, x as int, DET_BOUND as int, PRED_X_BOUND as int);
            }
        }
        Ratio { num: self.a.num + self.b.num * x, den: self.a.den }
    }

    /// Intercept fraction recomputed from the current statistic fields:
    /// `(sum(y) * sum(x^2) - sum(x) * sum(xy)) / (n * sum(x^2) - (sum x)^2)`.
    pub fn get_a(&self) -> (r: Ratio)
        requires
            self.stats_bounded(),
        ensures
            r.num == self.summation_y * self.summation_x_square - self.summation_x
                * self.summation_xy,
            r.den == self.n * self.summation_x_square - self.summation_x * self.summation_x,
    {
        proof {
            self.lemma_field_products_bounded();
        }
        Ratio {
            num: self.summation_y * self.summation_x_square - self.summation_x * self.summation_xy,
            den: self.n * self.summation_x_square - self.summation_x * self.summation_x,
        }
    }

    /// Slope fraction recomputed from the current statistic fields:
    /// `(n * sum(xy) - sum(x) * sum(y)) / (n * sum(x^2) - (sum x)^2)`.
    pub fn get_b(&self) -> (r: Ratio)
        requires
            self.stats_bounded(),
        ensures
            r.num == self.n * self.summation_xy - self.summation_x * self.summation_y,
            r.den == self.n * self.summation_x_square - self.summation_x * self.summation_x,
    {
        proof {
            self.lemma_field_products_bounded();
        }
        Ratio {
            num: self.n * self.summation_xy - self.summation_x * self.summation_y,
            den: self.n * self.summation_x_square - self.summation_x * self.summation_x,
        }
    }

    /// Pearson correlation coefficient from the current statistic fields,
    /// as the exact fraction `(n*Sxy) / isqrt((n*Sxx) * (n*Syy))`: the
    /// numerator is exact and the denominator is the integer square root
    /// of the exact radicand. A non-positive radicand gives denominator
    /// zero, the encoding of the NaN and infinite float outcomes. On a
    /// fitted model the fraction never exceeds one in magnitude.
    pub fn get_correlation_coefficient(&self) -> (r: Ratio)
        requires
            self.stats_bounded(),
        ensures
            r.num == self.corr_num_of(),
            self.corr_rad_of() > 0 ==> 0 <= r.den && r.den * r.den <= self.corr_rad_of()
                < (r.den + 1) * (r.den + 1),
            self.corr_rad_of() <= 0 ==> r.den == 0,
            self.wf() && self.is_fitted() ==> -r.den <= r.num <= r.den,
    {
        proof {
            self.lemma_field_products_bounded();
        }
        let sxy: i128 = self.n * self.summation_xy - self.summation_x * self.summation_y;
        let sxx: i128 = self.n * self.summation_x_square - self.summation_x * self.summation_x;
        let syy: i128 = self.n * self.summation_y_square - self.summation_y * self.summation_y;
        proof {
            lemma_mul_bound(sxx as int, syy as int, DET_BOUND as int, DET_BOUND as int);
            assert(DET_BOUND * DET_BOUND <= ISQRT_MAX) by (nonlinear_arith);
        }
        let rad: i128 = sxx * syy;
        let den: i128 = if rad > 0 {
            isqrt(rad)
        } else {
            0
        };
        proof {
            if self.wf() && self.is_fitted() {
                lemma_centered_cauchy(self.xs(), self.ys());
                assert(sxy == slope_num(self.xs(), self.ys()));
                assert(sxx == variance_det(self.xs()));
                assert(syy == variance_det(self.ys()));
                lemma_mul_nonneg(sxx as int, syy as int);
                if rad > 0 {
                    assert(-den <= sxy <= den) by (nonlinear_arith)
                        requires
                            den >= 0,
                            sxy * sxy <= rad,
                            rad < (den + 1) * (den + 1),
                    ;
                } else {
                    assert(sxy * sxy <= 0);
                    assert(sxy == 0) by (nonlinear_arith)
                        requires
                            sxy * sxy <= 0,
                    ;
                }
            }
        }
        Ratio { num: sxy, den }
    }

    /// The products of statistic fields that the closed-form fractions
    /// take stay within `i128`.
    proof fn lemma_field_products_bounded(self)
        requires
            self.stats_bounded(),
        ensures
            -NUM_TERM_BOUND <= self.summation_y * self.summation_x_square <= NUM_TERM_BOUND,
            -NUM_TERM_BOUND <= self.summation_x * self.summation_xy <= NUM_TERM_BOUND,
            -DET_TERM_BOUND <= self.n * self.summation_x_square <= DET_TERM_BOUND,
            -DET_TERM_BOUND <= self.n * self.summation_y_square <= DET_TERM_BOUND,
            -DET_TERM_BOUND <= self.n * self.summation_xy <= DET_TERM_BOUND,
            -DET_TERM_BOUND <= self.summation_x * self.summation_x <= DET_TERM_BOUND,
            -DET_TERM_BOUND <= self.summation_x * self.summation_y <= DET_TERM_BOUND,
            -DET_TERM_BOUND <= self.summation_y * self.summation_y <= DET_TERM_BOUND,
            -DET_BOUND <= self.corr_num_of() <= DET_BOUND,
            -DET_BOUND <= self.x_scatter_of() <= DET_BOUND,
            -DET_BOUND <= self.y_scatter_of() <= DET_BOUND,
    {
        lemma_mul_bound(
            self.summation_y as int,
            self.summation_x_square as int,
            SUM_BOUND as int,
            SUMSQ_BOUND as int,
        );
        lemma_mul_bound(
            self.summation_x as int,
            self.summation_xy as int,
            SUM_BOUND as int,
            SUMSQ_BOUND as int,
        );
        lemma_mul_bound(
            self.n as int,
            self.summation_x_square as int,
            MAX_SAMPLES as int,
            SUMSQ_BOUND as int,
        );
        lemma_mul_bound(
            self.n as int,
            self.summation_y_square as int,
            MAX_SAMPLES as int,
            SUMSQ_BOUND as int,
        );
        lemma_mul_bound(
            self.n as int,
            self.summation_xy as int,
            MAX_SAMPLES as int,
            SUMSQ_BOUND as int,
        );
        lemma_mul_bound(
            self.summation_x as int,
            self.summation_x as int,
            SUM_BOUND as int,
            SUM_BOUND as int,
        );
        lemma_mul_bound(
            self.summation_x as int,
            self.summation_y as int,
            SUM_BOUND as int,
            SUM_BOUND as int,
        );
        lemma_mul_bound(
            self.summation_y as int,
            self.summation_y as int,
            SUM_BOUND as int,
            SUM_BOUND as int,
        );
    }

    /// On a fitted, well-formed model the intercept and slope numerators
    /// stay within the ranges prediction needs.
    proof fn lemma_derived_bounds(self)
        requires
            self.samples_wf(),
            self.stats_bounded(),
            self.is_fitted(),
        ensures
            -INTERCEPT_BOUND <= self.a.num <= INTERCEPT_BOUND,
            -DET_BOUND <= self.b.num <= DET_BOUND,
            -DET_BOUND <= self.a.den <= DET_BOUND,
    {
        self.lemma_field_products_bounded();
        assert(self.b.num == self.n * self.summation_xy - self.summation_x * self.summation_y);
        assert(self.a.num == self.summation_y * self.summation_x_square - self.summation_x
            * self.summation_xy);
        assert(self.a.den == self.n * self.summation_x_square - self.summation_x
            * self.summation_x);
    }
}

/// Predictions are affine in the query point: the difference of two
/// predictions equals the slope times the difference of the points, as
/// rational values. `p1` and `p2` are what `predict` returns at `x1` and
/// `x2` on a fitted model whose X samples have non-zero variance.
pub proof fn lemma_predict_affine(
    m: LinearRegressionModel,
    p1: Ratio,
    p2: Ratio,
    x1: int,
    x2: int,
)
    requires
        m.wf(),
        m.is_fitted(),
        variance_det(m.xs()) != 0,
        p1.num == m.a.num + m.b.num * x1,
        p1.den == m.a.den,
        p2.num == m.a.num + m.b.num * x2,
        p2.den == m.a.den,
    ensures
        p2.den == p1.den,
        p1.den != 0,
        frac_eq(p2.num - p1.num, p2.den as int, m.b.num * (x2 - x1), m.b.den as int),
{
    assert(m.b.num * x2 - m.b.num * x1 == m.b.num * (x2 - x1)) by (nonlinear_arith);
}

/// Fitting is deterministic in the sample set: two fitted models over the
/// same samples agree on the intercept, the slope, and all five
/// summations, so training a model again recomputes identical values.
pub proof fn lemma_fit_idempotent(m1: LinearRegressionModel, m2: LinearRegressionModel)
    requires
        m1.is_fitted(),
        m2.is_fitted(),
        m1.xs() == m2.xs(),
        m1.ys() == m2.ys(),
    ensures
        m1.a == m2.a,
        m1.b == m2.b,
        m1.summation_x == m2.summation_x,
        m1.summation_y == m2.summation_y,
        m1.summation_xy == m2.summation_xy,
        m1.summation_x_square == m2.summation_x_square,
        m1.summation_y_square == m2.summation_y_square,
        m1.n == m2.n,
{
}

/// Perfect linear data: when every `y[i]` equals `k * x[i] + c` exactly,
/// the fitted slope is exactly `k`, the intercept exactly `c`, and the
/// correlation radicand is the perfect square of the correlation
/// numerator, so the correlation coefficient is exactly one in magnitude
/// whenever it is defined.
pub proof fn lemma_perfect_linear_fit(m: LinearRegressionModel, k: int, c: int)
    requires
        m.wf(),
        m.is_fitted(),
        forall|i: int| 0 <= i < m.ys().len() ==> #[trigger] m.ys()[i] == k * m.xs()[i] + c,
    ensures
        m.b.num == k * m.b.den,
        m.a.num == c * m.a.den,
        m.corr_num_of() == k * m.x_scatter_of(),
        m.corr_rad_of() == (k * m.x_scatter_of()) * (k * m.x_scatter_of()),
{
    let x = m.xs();
    let y = m.ys();
    lemma_affine_data_sums(x, y, k, c);
    let n = x.len() as int;
    let sx = sum(x);
    let sxx = sum_prod(x, x);
    let spxy = sum_prod(x, y);
    let sy = sum(y);
    let syy = sum_prod(y, y);
    assert(slope_num(x, y) == k * variance_det(x)) by (nonlinear_arith)
        requires
            slope_num(x, y) == n * spxy - sx * sy,
            variance_det(x) == n * sxx - sx * sx,
            spxy == k * sxx + c * sx,
            sy == k * sx + n * c,
    ;
    assert(intercept_num(x, y) == c * variance_det(x)) by (nonlinear_arith)
        requires
            intercept_num(x, y) == sy * sxx - sx * spxy,
            variance_det(x) == n * sxx - sx * sx,
            spxy == k * sxx + c * sx,
            sy == k * sx + n * c,
    ;
    assert(sy * sy == k * (k * (sx * sx)) + 2 * ((k * sx) * (n * c)) + (n * c) * (n * c))
        by (nonlinear_arith)
        requires
            sy == k * sx + n * c,
    ;
    assert((k * sx) * (n * c) == (k * c) * (n * sx)) by (nonlinear_arith);
    assert(n * syy == n * (k * (k * sxx)) + 2 * (n * ((k * c) * sx)) + n * (n * (c * c)))
        by (nonlinear_arith)
        requires
            syy == k * (k * sxx) + 2 * ((k * c) * sx) + n * (c * c),
    ;
    assert(n * (k * (k * sxx)) == k * (k * (n * sxx))) by (nonlinear_arith);
    assert(n * ((k * c) * sx) == (k * c) * (n * sx)) by (nonlinear_arith);
    assert(n * (n * (c * c)) == (n * c) * (n * c)) by (nonlinear_arith);
    assert(k * (k * (n * sxx)) - k * (k * (sx * sx)) == k * (k * (n * sxx - sx * sx)))
        by (nonlinear_arith);
    assert(variance_det(y) == k * (k * variance_det(x)));
    assert(m.x_scatter_of() == variance_det(x));
    assert(m.y_scatter_of() == variance_det(y));
    assert(m.corr_num_of() == slope_num(x, y));
    assert(variance_det(x) * (k * (k * variance_det(x))) == (k * variance_det(x)) * (k
        * variance_det(x))) by (nonlinear_arith);
}

/// On perfect linear data with non-zero slope and X variance the
/// radicand is a positive perfect square, so the integer square root is
/// exact and the correlation coefficient returned for the model is
/// exactly one (rising line) or minus one (falling line). `r` is what
/// `get_correlation_coefficient` returns on the fitted model.
pub proof fn lemma_perfect_linear_correlation(m: LinearRegressionModel, r: Ratio, k: int, c: int)
    requires
        m.wf(),
        m.is_fitted(),
        forall|i: int| 0 <= i < m.ys().len() ==> #[trigger] m.ys()[i] == k * m.xs()[i] + c,
        variance_det(m.xs()) != 0,
        k != 0,
        r.num == m.corr_num_of(),
        m.corr_rad_of() > 0 ==> 0 <= r.den && r.den * r.den <= m.corr_rad_of() < (r.den + 1) * (
        r.den + 1),
        m.corr_rad_of() <= 0 ==> r.den == 0,
    ensures
        r.den >= 1,
        k > 0 ==> r.num == r.den,
        k < 0 ==> r.num == -r.den,
{
    lemma_perfect_linear_fit(m, k, c);
    lemma_centered_cauchy(m.xs(), m.ys());
    let vd = m.x_scatter_of();
    assert(vd == variance_det(m.xs()));
    assert(vd >= 1);
    let t = if k > 0 {
        k * vd
    } else {
        -(k * vd)
    };
    assert(t >= 1) by (nonlinear_arith)
        requires
            vd >= 1,
            k != 0,
            t == if k > 0 {
                k * vd
            } else {
                -(k * vd)
            },
    ;
    assert(m.corr_rad_of() == t * t) by (nonlinear_arith)
        requires
            m.corr_rad_of() == (k * vd) * (k * vd),
            t == if k > 0 {
                k * vd
            } else {
                -(k * vd)
            },
    ;
    assert(r.den == t) by (nonlinear_arith)
        requires
            t >= 1,
            r.den >= 0,
            r.den * r.den <= t * t,
            t * t < (r.den + 1) * (r.den + 1),
    ;
}

/// Zero X-variance: with all X samples equal, the shared denominator of
/// the intercept and the slope is zero (the infinite/NaN float outcome),
/// and the correlation fraction is zero over zero (the NaN outcome).
pub proof fn lemma_zero_variance_degenerate(m: LinearRegressionModel)
    requires
        m.wf(),
        m.is_fitted(),
        m.xs().len() >= 1,
        forall|i: int| 0 <= i < m.xs().len() ==> #[trigger] m.xs()[i] == m.xs()[0],
    ensures
        m.a.den == 0,
        m.b.den == 0,
        m.corr_num_of() == 0,
        m.corr_rad_of() == 0,
{
    let x = m.xs();
    let y = m.ys();
    let v = x[0];
    let n = x.len() as int;
    let sy = sum(y);
    lemma_sum_const(x, v);
    lemma_sum_prod_const_left(x, v, x);
    lemma_sum_prod_const_left(x, v, y);
    assert(variance_det(x) == 0) by (nonlinear_arith)
        requires
            variance_det(x) == n * (v * (n * v)) - (n * v) * (n * v),
    ;
    assert(slope_num(x, y) == 0) by (nonlinear_arith)
        requires
            slope_num(x, y) == n * (v * sy) - (n * v) * sy,
    ;
    assert(m.corr_num_of() == slope_num(x, y));
    assert(m.x_scatter_of() == variance_det(x));
    assert(m.corr_rad_of() == 0 * m.y_scatter_of());
}

/// Every value lies within `[-MAX_VALUE, MAX_VALUE]`.
fn all_in_range(v: &Vec<i128>) -> (r: bool)
    ensures
        r == all_within(as_ints(v@), MAX_VALUE as int),
{
    let mut i: usize = 0;
    while i < v.len()
        invariant
            0 <= i <= v@.len(),
            forall|j: int| 0 <= j < i ==> -MAX_VALUE <= #[trigger] as_ints(v@)[j] <= MAX_VALUE,
        decreases v@.len() - i,
    {
        proof {
            assert(as_ints(v@)[i as int] == v@[i as int] as int);
        }
        if v[i] < -MAX_VALUE || v[i] > MAX_VALUE {
            return false;
        }
        i += 1;
    }
    true
}

/// Pairwise products of two equal-length sequences, in order.
fn multiply_two_arrays(a: &Vec<i128>, b: &Vec<i128>) -> (r: Vec<i128>)
    requires
        a@.len() == b@.len(),
        a@.len() <= MAX_SAMPLES as int,
        all_within(as_ints(a@), MAX_VALUE as int),
        all_within(as_ints(b@), MAX_VALUE as int),
    ensures
        r@.len() == a@.len(),
        forall|i: int| 0 <= i < r@.len() ==> #[trigger] as_ints(r@)[i] == as_ints(a@)[i] * as_ints(
            b@,
        )[i],
        all_within(as_ints(r@), PROD_BOUND as int),
{
    let mut result: Vec<i128> = Vec::new();
    let mut i: usize = 0;
    while i < a.len()
        invariant
            0 <= i <= a@.len(),
            a@.len() == b@.len(),
            all_within(as_ints(a@), MAX_VALUE as int),
            all_within(as_ints(b@), MAX_VALUE as int),
            result@.len() == i,
            forall|j: int| 0 <= j < i ==> #[trigger] result@[j] == a@[j] * b@[j],
            forall|j: int| 0 <= j < i ==> -PROD_BOUND <= #[trigger] result@[j] <= PROD_BOUND,
        decreases a@.len() - i,
    {
        proof {
            assert(as_ints(a@)[i as int] == a@[i as int] as int);
            assert(as_ints(b@)[i as int] == b@[i as int] as int);
            lemma_mul_bound(
                a@[i as int] as int,
                b@[i as int] as int,
                MAX_VALUE as int,
                MAX_VALUE as int,
            );
        }
        let p: i128 = a[i] * b[i];
        result.push(p);
        i += 1;
    }
    result
}

/// Left-to-right sum of the values.
fn sum_all(array: &Vec<i128>) -> (r: i128)
    requires
        array@.len() <= MAX_SAMPLES as int,
        all_within(as_ints(array@), PROD_BOUND as int),
    ensures
        r == sum(as_ints(array@)),
{
    let mut result: i128 = 0;
    let mut i: usize = 0;
    while i < array.len()
        invariant
            0 <= i <= array@.len() <= MAX_SAMPLES as int,
            all_within(as_ints(array@), PROD_BOUND as int),
            result == sum(as_ints(array@).take(i as int)),
            -((i as int) * PROD_BOUND) <= result <= (i as int) * PROD_BOUND,
        decreases array@.len() - i,
    {
        proof {
            lemma_sum_take_step(as_ints(array@), i as int);
            assert((i as int) * PROD_BOUND + PROD_BOUND == (i as int + 1) * PROD_BOUND)
                by (nonlinear_arith);
        }
        result = result + array[i];
        i += 1;
    }
    proof {
        assert(as_ints(array@).take(array@.len() as int) =~= as_ints(array@));
    }
    result
}

} // verus!
