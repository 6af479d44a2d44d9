//! Mathematical model of the summations behind least-squares fitting:
//! sums and inner products of integer sequences, with the lemmas that the
//! regression engine's contracts rest on, up to the Cauchy-Schwarz
//! inequality that bounds the correlation coefficient.

use vstd::prelude::*;

verus! {

/// The sample values as mathematical integers.
pub open spec fn as_ints(s: Seq<i128>) -> Seq<int> {
    s.map_values(|v: i128| v as int)
}

/// Left-to-right sum of a sequence.
pub open spec fn sum(s: Seq<int>) -> int
    decreases s.len(),
{
    if s.len() == 0 {
        0
    } else {
        sum(s.drop_last()) + s.last()
    }
}

/// Inner product of two equal-length sequences: the sum of the pairwise
/// products.
pub open spec fn sum_prod(x: Seq<int>, y: Seq<int>) -> int
    recommends
        x.len() == y.len(),
    decreases x.len(),
{
    if x.len() == 0 || y.len() != x.len() {
        0
    } else {
        sum_prod(x.drop_last(), y.drop_last()) + x.last() * y.last()
    }
}

/// Denominator shared by the intercept and the slope:
/// `n * sum(x^2) - (sum x)^2`, zero exactly when X has no variance.
pub open spec fn variance_det(x: Seq<int>) -> int {
    x.len() * sum_prod(x, x) - sum(x) * sum(x)
}

/// Numerator of the slope: `n * sum(xy) - sum(x) * sum(y)`.
pub open spec fn slope_num(x: Seq<int>, y: Seq<int>) -> int {
    x.len() * sum_prod(x, y) - sum(x) * sum(y)
}

/// Numerator of the intercept: `sum(y) * sum(x^2) - sum(x) * sum(xy)`.
pub open spec fn intercept_num(x: Seq<int>, y: Seq<int>) -> int {
    sum(y) * sum_prod(x, x) - sum(x) * sum_prod(x, y)
}

/// Every value of the sequence lies within `b` of zero.
pub open spec fn all_within(s: Seq<int>, b: int) -> bool {
    forall|i: int| 0 <= i < s.len() ==> -b <= #[trigger] s[i] <= b
}

pub proof fn lemma_sum_take_step(s: Seq<int>, i: int)
    requires
        0 <= i < s.len(),
    ensures
        sum(s.take(i + 1)) == sum(s.take(i)) + s[i],
{
    assert(s.take(i + 1).drop_last() =~= s.take(i));
    assert(s.take(i + 1).last() == s[i]);
}

pub proof fn lemma_sum_bound(s: Seq<int>, b: int)
    requires
        all_within(s, b),
        b >= 0,
    ensures
        -(s.len() * b) <= sum(s) <= s.len() * b,
    decreases s.len(),
{
    if s.len() > 0 {
        assert(all_within(s.drop_last(), b));
        lemma_sum_bound(s.drop_last(), b);
        assert(s.last() == s[s.len() - 1]);
        assert((s.len() - 1) * b + b == s.len() * b) by (nonlinear_arith);
    }
}

pub proof fn lemma_sum_prod_bound(x: Seq<int>, y: Seq<int>, b: int)
    requires
        x.len() == y.len(),
        all_within(x, b),
        all_within(y, b),
        b >= 0,
    ensures
        -(x.len() * (b * b)) <= sum_prod(x, y) <= x.len() * (b * b),
    decreases x.len(),
{
    if x.len() > 0 {
        assert(all_within(x.drop_last(), b));
        assert(all_within(y.drop_last(), b));
        lemma_sum_prod_bound(x.drop_last(), y.drop_last(), b);
        let a = x.last();
        let c = y.last();
        assert(a == x[x.len() - 1]);
        assert(c == y[y.len() - 1]);
        assert(-(b * b) <= a * c <= b * b) by (nonlinear_arith)
            requires
                -b <= a <= b,
                -b <= c <= b,
                b >= 0,
        ;
        assert((x.len() - 1) * (b * b) + b * b == x.len() * (b * b)) by (nonlinear_arith);
    }
}

/// A sequence of the pairwise products sums to the inner product.
pub proof fn lemma_sum_of_products(z: Seq<int>, x: Seq<int>, y: Seq<int>)
    requires
        z.len() == x.len(),
        x.len() == y.len(),
        forall|i: int| 0 <= i < z.len() ==> #[trigger] z[i] == x[i] * y[i],
    ensures
        sum(z) == sum_prod(x, y),
    decreases z.len(),
{
    if z.len() > 0 {
        lemma_sum_of_products(z.drop_last(), x.drop_last(), y.drop_last());
        assert(z.last() == z[z.len() - 1]);
    }
}

pub proof fn lemma_mul_bound(a: int, b: int, ba: int, bb: int)
    by (nonlinear_arith)
    requires
        -ba <= a <= ba,
        -bb <= b <= bb,
        ba >= 0,
        bb >= 0,
    ensures
        -(ba * bb) <= a * b <= ba * bb,
{
}

pub proof fn lemma_mul_nonneg(a: int, b: int)
    by (nonlinear_arith)
    requires
        a >= 0,
        b >= 0,
    ensures
        a * b >= 0,
{
}

pub proof fn lemma_sum_prod_self_nonneg(x: Seq<int>)
    ensures
        sum_prod(x, x) >= 0,
    decreases x.len(),
{
    if x.len() > 0 {
        lemma_sum_prod_self_nonneg(x.drop_last());
        let a = x.last();
        assert(a * a >= 0) by (nonlinear_arith);
    }
}

/// `sum_i (x[i]*q - p*y[i])^2`, the sum-of-squares defect that drives the
/// inductive proof of the Cauchy-Schwarz inequality.
pub open spec fn cross_term(x: Seq<int>, y: Seq<int>, p: int, q: int) -> int
    recommends
        x.len() == y.len(),
    decreases x.len(),
{
    if x.len() == 0 || y.len() != x.len() {
        0
    } else {
        cross_term(x.drop_last(), y.drop_last(), p, q) + (x.last() * q - p * y.last()) * (x.last()
            * q - p * y.last())
    }
}

pub proof fn lemma_cross_term_nonneg(x: Seq<int>, y: Seq<int>, p: int, q: int)
    requires
        x.len() == y.len(),
    ensures
        cross_term(x, y, p, q) >= 0,
    decreases x.len(),
{
    if x.len() > 0 {
        lemma_cross_term_nonneg(x.drop_last(), y.drop_last(), p, q);
        let t = x.last() * q - p * y.last();
        assert(t * t >= 0) by (nonlinear_arith);
    }
}

pub proof fn lemma_cross_term_value(x: Seq<int>, y: Seq<int>, p: int, q: int)
    requires
        x.len() == y.len(),
    ensures
        cross_term(x, y, p, q) == sum_prod(x, x) * (q * q) - 2 * (sum_prod(x, y) * (p * q))
            + sum_prod(y, y) * (p * p),
    decreases x.len(),
{
    if x.len() > 0 {
        lemma_cross_term_value(x.drop_last(), y.drop_last(), p, q);
        let a = x.last();
        let b = y.last();
        let sa = sum_prod(x.drop_last(), x.drop_last());
        let sc = sum_prod(x.drop_last(), y.drop_last());
        let sb = sum_prod(y.drop_last(), y.drop_last());
        assert(sum_prod(x, x) == sa + a * a);
        assert(sum_prod(x, y) == sc + a * b);
        assert(sum_prod(y, y) == sb + b * b);
        assert(cross_term(x, y, p, q) == cross_term(x.drop_last(), y.drop_last(), p, q) + (a * q - p
            * b) * (a * q - p * b));
        let t = a * q - p * b;
        assert(t * t == (a * q) * t - (p * b) * t) by (nonlinear_arith)
            requires
                t == a * q - p * b,
        ;
        assert((a * q) * t == (a * q) * (a * q) - (a * q) * (p * b)) by (nonlinear_arith)
            requires
                t == a * q - p * b,
        ;
        assert((p * b) * t == (p * b) * (a * q) - (p * b) * (p * b)) by (nonlinear_arith)
            requires
                t == a * q - p * b,
        ;
        assert((a * q) * (a * q) == (a * a) * (q * q)) by (nonlinear_arith);
        assert((a * q) * (p * b) == (a * b) * (p * q)) by (nonlinear_arith);
        assert((p * b) * (a * q) == (a * b) * (p * q)) by (nonlinear_arith);
        assert((p * b) * (p * b) == (b * b) * (p * p)) by (nonlinear_arith);
        assert((sa + a * a) * (q * q) == sa * (q * q) + (a * a) * (q * q)) by (nonlinear_arith);
        assert((sc + a * b) * (p * q) == sc * (p * q) + (a * b) * (p * q)) by (nonlinear_arith);
        assert((sb + b * b) * (p * p) == sb * (p * p) + (b * b) * (p * p)) by (nonlinear_arith);
    }
}

/// Cauchy-Schwarz inequality: the inner product squared never exceeds the
/// product of the squared norms.
pub proof fn lemma_cauchy_schwarz(x: Seq<int>, y: Seq<int>)
    requires
        x.len() == y.len(),
    ensures
        sum_prod(x, y) * sum_prod(x, y) <= sum_prod(x, x) * sum_prod(y, y),
    decreases x.len(),
{
    if x.len() > 0 {
        let xd = x.drop_last();
        let yd = y.drop_last();
        lemma_cauchy_schwarz(xd, yd);
        let a = x.last();
        let b = y.last();
        let sa = sum_prod(xd, xd);
        let sb = sum_prod(yd, yd);
        let sc = sum_prod(xd, yd);
        lemma_cross_term_value(xd, yd, a, b);
        lemma_cross_term_nonneg(xd, yd, a, b);
        assert(sum_prod(x, x) == sa + a * a);
        assert(sum_prod(x, y) == sc + a * b);
        assert(sum_prod(y, y) == sb + b * b);
        // the defect supplied by the cross term: sa*b^2 - 2*sc*ab + sb*a^2 >= 0
        assert(sa * (b * b) - 2 * (sc * (a * b)) + sb * (a * a) >= 0);
        assert((sc + a * b) * (sc + a * b) == sc * sc + 2 * (sc * (a * b)) + (a * b) * (a * b))
            by (nonlinear_arith);
        assert((sa + a * a) * (sb + b * b) == sa * sb + sa * (b * b) + sb * (a * a) + (a * a) * (b
            * b)) by (nonlinear_arith);
        assert((a * b) * (a * b) == (a * a) * (b * b)) by (nonlinear_arith);
    }
}

/// A positive common factor cancels from an inequality.
pub proof fn lemma_cancel_pos_factor(k: int, a: int, b: int)
    by (nonlinear_arith)
    requires
        k >= 1,
        k * a <= k * b,
    ensures
        a <= b,
{
}

/// Cauchy-Schwarz applied to the mean-centered samples: the slope
/// numerator squared never exceeds the product of the two variance
/// determinants, which are themselves non-negative. This is what bounds
/// the correlation coefficient by one in magnitude.
pub proof fn lemma_centered_cauchy(x: Seq<int>, y: Seq<int>)
    requires
        x.len() == y.len(),
    ensures
        slope_num(x, y) * slope_num(x, y) <= variance_det(x) * variance_det(y),
        variance_det(x) >= 0,
        variance_det(y) >= 0,
{
    let n = x.len() as int;
    let sx = sum(x);
    let sy = sum(y);
    let sxy = sum_prod(x, y);
    let sxx = sum_prod(x, x);
    let syy = sum_prod(y, y);
    let sn = slope_num(x, y);
    let vdx = variance_det(x);
    let vdy = variance_det(y);
    if n == 0 {
        assert(sn == 0 && vdx == 0 && vdy == 0);
    } else {
        let u = centered(x, n, sx);
        let v = centered(y, n, sy);
        lemma_sum_prod_centered(x, y, n, sx, n, sy);
        lemma_sum_prod_centered(x, x, n, sx, n, sx);
        lemma_sum_prod_centered(y, y, n, sy, n, sy);
        lemma_cauchy_schwarz(u, v);
        lemma_sum_prod_self_nonneg(u);
        lemma_sum_prod_self_nonneg(v);
        let puv = sum_prod(u, v);
        let pu = sum_prod(u, u);
        let pv = sum_prod(v, v);
        assert(puv == n * sn) by (nonlinear_arith)
            requires
                puv == n * n * sxy - n * sy * sx - n * sx * sy + x.len() * (sx * sy),
                sn == n * sxy - sx * sy,
                n == x.len(),
        ;
        assert(pu == n * vdx) by (nonlinear_arith)
            requires
                pu == n * n * sxx - n * sx * sx - n * sx * sx + x.len() * (sx * sx),
                vdx == n * sxx - sx * sx,
                n == x.len(),
        ;
        assert(pv == n * vdy) by (nonlinear_arith)
            requires
                pv == n * n * syy - n * sy * sy - n * sy * sy + y.len() * (sy * sy),
                vdy == n * syy - sy * sy,
                n == y.len(),
        ;
        assert(vdx >= 0) by (nonlinear_arith)
            requires
                n >= 1,
                n * vdx >= 0,
        ;
        assert(vdy >= 0) by (nonlinear_arith)
            requires
                n >= 1,
                n * vdy >= 0,
        ;
        assert((n * sn) * (n * sn) == (n * n) * (sn * sn)) by (nonlinear_arith);
        assert((n * vdx) * (n * vdy) == (n * n) * (vdx * vdy)) by (nonlinear_arith);
        assert(n * n >= 1) by (nonlinear_arith)
            requires
                n >= 1,
        ;
        lemma_cancel_pos_factor(n * n, sn * sn, vdx * vdy);
    }
}

/// The samples shifted and scaled pointwise: `c * s[i] - d`.
pub open spec fn centered(s: Seq<int>, c: int, d: int) -> Seq<int> {
    s.map_values(|v: int| c * v - d)
}

pub proof fn lemma_centered_drop_last(s: Seq<int>, c: int, d: int)
    requires
        s.len() > 0,
    ensures
        centered(s, c, d).drop_last() == centered(s.drop_last(), c, d),
{
    assert(centered(s, c, d).drop_last() =~= centered(s.drop_last(), c, d));
}

pub proof fn lemma_sum_prod_centered(x: Seq<int>, y: Seq<int>, c1: int, d1: int, c2: int, d2: int)
    requires
        x.len() == y.len(),
    ensures
        sum_prod(centered(x, c1, d1), centered(y, c2, d2)) == c1 * c2 * sum_prod(x, y) - c1 * d2
            * sum(x) - c2 * d1 * sum(y) + x.len() * (d1 * d2),
    decreases x.len(),
{
    if x.len() == 0 {
        assert(centered(x, c1, d1).len() == 0);
    } else {
        lemma_sum_prod_centered(x.drop_last(), y.drop_last(), c1, d1, c2, d2);
        lemma_centered_drop_last(x, c1, d1);
        lemma_centered_drop_last(y, c2, d2);
        let a = x.last();
        let b = y.last();
        let spd = sum_prod(x.drop_last(), y.drop_last());
        let sxd = sum(x.drop_last());
        let syd = sum(y.drop_last());
        assert(centered(x, c1, d1).last() == c1 * a - d1);
        assert(centered(y, c2, d2).last() == c2 * b - d2);
        assert(sum_prod(x, y) == spd + a * b);
        assert(sum(x) == sxd + a);
        assert(sum(y) == syd + b);
        assert(sum_prod(centered(x, c1, d1), centered(y, c2, d2)) == sum_prod(
            centered(x.drop_last(), c1, d1),
            centered(y.drop_last(), c2, d2),
        ) + (c1 * a - d1) * (c2 * b - d2));
        let t = c2 * b - d2;
        assert((c1 * a - d1) * t == (c1 * a) * t - d1 * t) by (nonlinear_arith);
        assert((c1 * a) * t == (c1 * a) * (c2 * b) - (c1 * a) * d2) by (nonlinear_arith)
            requires
                t == c2 * b - d2,
        ;
        assert((c1 * a) * (c2 * b) == c1 * c2 * (a * b)) by (nonlinear_arith);
        assert((c1 * a) * d2 == c1 * d2 * a) by (nonlinear_arith);
        assert(d1 * t == c2 * d1 * b - d1 * d2) by (nonlinear_arith)
            requires
                t == c2 * b - d2,
        ;
        assert(c1 * c2 * (spd + a * b) == c1 * c2 * spd + c1 * c2 * (a * b)) by (nonlinear_arith);
        assert(c1 * d2 * (sxd + a) == c1 * d2 * sxd + c1 * d2 * a) by (nonlinear_arith);
        assert(c2 * d1 * (syd + b) == c2 * d1 * syd + c2 * d1 * b) by (nonlinear_arith);
        assert((x.len() - 1) * (d1 * d2) + d1 * d2 == x.len() * (d1 * d2)) by (nonlinear_arith);
    }
}

/// Sums over a constant sequence.
pub proof fn lemma_sum_const(s: Seq<int>, v: int)
    requires
        forall|i: int| 0 <= i < s.len() ==> #[trigger] s[i] == v,
    ensures
        sum(s) == s.len() * v,
    decreases s.len(),
{
    if s.len() > 0 {
        lemma_sum_const(s.drop_last(), v);
        assert(s.last() == s[s.len() - 1]);
        assert((s.len() - 1) * v + v == s.len() * v) by (nonlinear_arith);
    }
}

/// Inner product with a constant left factor.
pub proof fn lemma_sum_prod_const_left(s: Seq<int>, v: int, y: Seq<int>)
    requires
        s.len() == y.len(),
        forall|i: int| 0 <= i < s.len() ==> #[trigger] s[i] == v,
    ensures
        sum_prod(s, y) == v * sum(y),
    decreases s.len(),
{
    if s.len() > 0 {
        lemma_sum_prod_const_left(s.drop_last(), v, y.drop_last());
        assert(s.last() == s[s.len() - 1]);
        let b = y.last();
        let syd = sum(y.drop_last());
        assert(v * syd + v * b == v * (syd + b)) by (nonlinear_arith);
    }
}

/// Sums over data that lies exactly on the line `y = k*x + c`.
pub proof fn lemma_affine_data_sums(x: Seq<int>, y: Seq<int>, k: int, c: int)
    requires
        x.len() == y.len(),
        forall|i: int| 0 <= i < y.len() ==> #[trigger] y[i] == k * x[i] + c,
    ensures
        sum(y) == k * sum(x) + x.len() * c,
        sum_prod(x, y) == k * sum_prod(x, x) + c * sum(x),
        sum_prod(y, y) == k * (k * sum_prod(x, x)) + 2 * ((k * c) * sum(x)) + x.len() * (c * c),
    decreases x.len(),
{
    if x.len() > 0 {
        lemma_affine_data_sums(x.drop_last(), y.drop_last(), k, c);
        let a = x.last();
        let b = y.last();
        assert(b == y[y.len() - 1]);
        assert(a == x[x.len() - 1]);
        assert(b == k * a + c);
        let sxd = sum(x.drop_last());
        let sxxd = sum_prod(x.drop_last(), x.drop_last());
        let sxyd = sum_prod(x.drop_last(), y.drop_last());
        let syyd = sum_prod(y.drop_last(), y.drop_last());
        assert(sum(x) == sxd + a);
        assert(sum(y) == sum(y.drop_last()) + b);
        assert(sum_prod(x, y) == sxyd + a * b);
        assert(sum_prod(x, x) == sxxd + a * a);
        assert(sum_prod(y, y) == syyd + b * b);
        assert(k * (sxd + a) == k * sxd + k * a) by (nonlinear_arith);
        assert((x.len() - 1) * c + c == x.len() * c) by (nonlinear_arith);
        assert(a * b == k * (a * a) + c * a) by (nonlinear_arith)
            requires
                b == k * a + c,
        ;
        assert(k * (sxxd + a * a) == k * sxxd + k * (a * a)) by (nonlinear_arith);
        assert(c * (sxd + a) == c * sxd + c * a) by (nonlinear_arith);
        assert(b * b == k * (k * (a * a)) + 2 * ((k * c) * a) + c * c) by (nonlinear_arith)
            requires
                b == k * a + c,
        ;
        assert(k * (k * (sxxd + a * a)) == k * (k * sxxd) + k * (k * (a * a)))
            by (nonlinear_arith);
        assert((k * c) * (sxd + a) == (k * c) * sxd + (k * c) * a) by (nonlinear_arith);
        assert((x.len() - 1) * (c * c) + c * c == x.len() * (c * c)) by (nonlinear_arith);
    }
}

} // verus!
