//! Batch gradient descent for a univariate linear model on
//! min-max-normalized data, with parameters reported in original units.

use crate::error::Error;
use crate::fx;
use crate::fx::{fadd_s, fdivr_s, fmul_s, fsub_s, gscale_s, lemma_tdiv_bounds, tdiv, SCALE};
use crate::normalizer::{norm_seq, Normalizer};
use crate::seqs::{as_ints, csum_k, csum_vec, min_max, smax, smin};
use vstd::prelude::*;

verus! {

/// Residual of sample `j` under parameters `(s, c)`: the prediction
/// `s * xs[j] + c` minus `ys[j]`, in saturating fixed point.
pub open spec fn perr(xs: Seq<int>, ys: Seq<int>, s: int, c: int, j: int) -> int {
    fsub_s(fadd_s(fmul_s(s, xs[j]), c), ys[j])
}

/// Saturating sum of squared residuals over the first `k` samples.
pub open spec fn sq_err_sum(xs: Seq<int>, ys: Seq<int>, s: int, c: int, k: int) -> int
    decreases k,
{
    if k <= 0 {
        0
    } else {
        let d = perr(xs, ys, s, c, k - 1);
        fadd_s(sq_err_sum(xs, ys, s, c, k - 1), fmul_s(d, d))
    }
}

/// Mean squared error of parameters `(s, c)` on the raw samples.
pub open spec fn mse_s(xs: Seq<int>, ys: Seq<int>, s: int, c: int) -> int
    recommends
        xs.len() >= 1,
{
    tdiv(sq_err_sum(xs, ys, s, c, xs.len() as int), xs.len() as int)
}

/// Slope-gradient sum over the first `k` samples: residuals weighted by
/// the input value.
pub open spec fn sg_acc(xn: Seq<int>, yn: Seq<int>, s: int, c: int, k: int) -> int
    decreases k,
{
    if k <= 0 {
        0
    } else {
        fadd_s(sg_acc(xn, yn, s, c, k - 1), fmul_s(xn[k - 1], perr(xn, yn, s, c, k - 1)))
    }
}

/// Intercept-gradient sum over the first `k` samples: plain residuals.
pub open spec fn ig_acc(xn: Seq<int>, yn: Seq<int>, s: int, c: int, k: int) -> int
    decreases k,
{
    if k <= 0 {
        0
    } else {
        fadd_s(ig_acc(xn, yn, s, c, k - 1), perr(xn, yn, s, c, k - 1))
    }
}

/// One gradient-descent update of `(slope, intercept)` in normalized
/// space: each gradient sum is scaled by `2 / n` and stepped against the
/// learning rate.
pub open spec fn gstep(xn: Seq<int>, yn: Seq<int>, lr: int, s: int, c: int) -> (int, int)
    recommends
        xn.len() >= 1,
{
    let n = xn.len() as int;
    let sg = gscale_s(sg_acc(xn, yn, s, c, n), n);
    let ig = gscale_s(ig_acc(xn, yn, s, c, n), n);
    (fsub_s(s, fmul_s(lr, sg)), fsub_s(c, fmul_s(lr, ig)))
}

/// Normalized-space parameters after `k` gradient-descent iterations:
/// the slope starts at zero, the intercept at the mean of the normalized
/// inputs.
pub open spec fn gd(xn: Seq<int>, yn: Seq<int>, lr: int, k: nat) -> (int, int)
    recommends
        xn.len() >= 1,
    decreases k,
{
    if k == 0 {
        (0, tdiv(csum_k(xn, xn.len() as int), xn.len() as int))
    } else {
        let p = gd(xn, yn, lr, (k - 1) as nat);
        gstep(xn, yn, lr, p.0, p.1)
    }
}

/// Normalized-space slope mapped back to original units:
/// `slope * (y_range / x_range)`.
pub open spec fn dslope_v(slope: int, xmin: int, xmax: int, ymin: int, ymax: int) -> int {
    fmul_s(slope, fdivr_s(ymax - ymin, xmax - xmin))
}

/// Normalized-space intercept mapped back to original units:
/// `intercept * y_range + y_min - slope * x_min`, where `slope` is the
/// normalized-space slope — the asymmetry that inverts the min-max chain.
pub open spec fn dintercept_v(
    slope: int,
    intercept: int,
    xmin: int,
    xmax: int,
    ymin: int,
    ymax: int,
) -> int {
    fsub_s(fadd_s(fmul_s(intercept, ymax - ymin), ymin), fmul_s(slope, xmin))
}

/// Final normalized-space parameters of a fit over the given data.
pub open spec fn fit_params(xs: Seq<int>, ys: Seq<int>, lr: int, iters: nat) -> (int, int)
    recommends
        xs.len() >= 1,
        xs.len() == ys.len(),
{
    gd(norm_seq(xs), norm_seq(ys), lr, iters)
}

/// Mean squared error, in original units, after `k` gradient iterations
/// over the given data.
pub open spec fn mse_after(xs: Seq<int>, ys: Seq<int>, lr: int, k: nat) -> int
    recommends
        xs.len() >= 1,
        xs.len() == ys.len(),
{
    let p = gd(norm_seq(xs), norm_seq(ys), lr, k);
    mse_s(
        xs,
        ys,
        dslope_v(p.0, smin(xs), smax(xs), smin(ys), smax(ys)),
        dintercept_v(p.0, p.1, smin(xs), smax(xs), smin(ys), smax(ys)),
    )
}

/// A squared residual is never negative.
proof fn lemma_fmul_sq_nonneg(d: int)
    ensures
        fmul_s(d, d) >= 0,
{
    assert(d * d >= 0) by (nonlinear_arith);
    lemma_tdiv_bounds(d * d, SCALE as int);
}

/// A sum of squared residuals is never negative.
proof fn lemma_sq_err_sum_nonneg(xs: Seq<int>, ys: Seq<int>, s: int, c: int, k: int)
    ensures
        sq_err_sum(xs, ys, s, c, k) >= 0,
    decreases k,
{
    if k > 0 {
        lemma_sq_err_sum_nonneg(xs, ys, s, c, k - 1);
        lemma_fmul_sq_nonneg(perr(xs, ys, s, c, k - 1));
    }
}

/// The mean squared error is non-negative for every dataset and every
/// parameter pair.
pub proof fn lemma_mse_nonneg(xs: Seq<int>, ys: Seq<int>, s: int, c: int)
    requires
        xs.len() >= 1,
    ensures
        mse_s(xs, ys, s, c) >= 0,
{
    lemma_sq_err_sum_nonneg(xs, ys, s, c, xs.len() as int);
    lemma_tdiv_bounds(sq_err_sum(xs, ys, s, c, xs.len() as int), xs.len() as int);
}

/// Fits `y = slope * x + intercept` by a fixed number of gradient-descent
/// iterations at a fixed learning rate, normalizing both coordinates to
/// the unit range first; owns the two normalizers whose stored ranges
/// denormalize the parameters.
pub struct Regressor {
    pub slope: i64,
    pub intercept: i64,
    pub iters: usize,
    pub learning_rate: i64,
    pub x_norm: Normalizer,
    pub y_norm: Normalizer,
}

impl Regressor {
    /// Both stored ranges are ordered and the hyperparameters are positive.
    pub open spec fn wf(&self) -> bool {
        &&& self.x_norm.wf()
        &&& self.y_norm.wf()
        &&& self.iters >= 1
        &&& self.learning_rate >= 1
    }

    /// The denormalized slope determined by the current state.
    pub open spec fn dslope(&self) -> int {
        dslope_v(
            self.slope as int,
            self.x_norm.min as int,
            self.x_norm.max as int,
            self.y_norm.min as int,
            self.y_norm.max as int,
        )
    }

    /// The denormalized intercept determined by the current state.
    pub open spec fn dintercept(&self) -> int {
        dintercept_v(
            self.slope as int,
            self.intercept as int,
            self.x_norm.min as int,
            self.x_norm.max as int,
            self.y_norm.min as int,
            self.y_norm.max as int,
        )
    }

    /// A fresh regressor: zero parameters, fresh normalizers, and the
    /// given positive iteration count and learning rate.
    pub fn new(iters: usize, learning_rate: i64) -> (r: Regressor)
        requires
            iters >= 1,
            learning_rate >= 1,
        ensures
            r.slope == 0,
            r.intercept == 0,
            r.iters == iters,
            r.learning_rate == learning_rate,
            r.x_norm.min == 0,
            r.x_norm.max == 0,
            r.y_norm.min == 0,
            r.y_norm.max == 0,
            r.wf(),
    {
        Regressor {
            slope: 0,
            intercept: 0,
            iters,
            learning_rate,
            x_norm: Normalizer::new(),
            y_norm: Normalizer::new(),
        }
    }

    /// Map the normalized-space parameters back to original units using
    /// the stored ranges. A pure read: callable at any time, yielding
    /// zero for the slope factor while a range is still degenerate.
    pub fn denormalize_params(&self) -> (r: (i64, i64))
        requires
            self.wf(),
        ensures
            r.0 as int == self.dslope(),
            r.1 as int == self.dintercept(),
    {
        let xr: i128 = self.x_norm.max as i128 - self.x_norm.min as i128;
        let yr: i128 = self.y_norm.max as i128 - self.y_norm.min as i128;
        let ratio = fx::fdivr(yr, xr);
        let rs = fx::fmul(self.slope, ratio);
        let a = fx::fmul_r(self.intercept, yr);
        let b = fx::fadd(a, self.y_norm.min);
        let c = fx::fmul(self.slope, self.x_norm.min);
        (rs, fx::fsub(b, c))
    }

    /// Mean of squared residuals of the denormalized model evaluated
    /// directly on the raw samples. Rejects mismatched lengths and empty
    /// input; the result is never negative.
    pub fn mse(&self, x: &Vec<i64>, y: &Vec<i64>) -> (r: Result<i64, Error>)
        requires
            self.wf(),
        ensures
            x@.len() != y@.len() <==> r == Err::<i64, Error>(Error::LengthMismatch),
            (x@.len() == y@.len() && x@.len() == 0) <==> r == Err::<i64, Error>(
                Error::EmptyInput,
            ),
            (x@.len() == y@.len() && x@.len() >= 1) <==> r is Ok,
            r matches Ok(m) ==> m as int == mse_s(
                as_ints(x@),
                as_ints(y@),
                self.dslope(),
                self.dintercept(),
            ) && m >= 0,
    {
        if x.len() != y.len() {
            return Err(Error::LengthMismatch);
        }
        if x.len() == 0 {
            return Err(Error::EmptyInput);
        }
        let (rs, ri) = self.denormalize_params();
        let n = x.len();
        let mut acc: i64 = 0;
        let mut j: usize = 0;
        while j < n
            invariant
                j <= n,
                n == x@.len(),
                n == y@.len(),
                acc as int == sq_err_sum(as_ints(x@), as_ints(y@), rs as int, ri as int, j as int),
            decreases n - j,
        {
            let pred = fx::fadd(fx::fmul(rs, x[j]), ri);
            let d = fx::fsub(pred, y[j]);
            acc = fx::fadd(acc, fx::fmul(d, d));
            j += 1;
        }
        let m = fx::divn(acc, n);
        proof {
            lemma_mse_nonneg(as_ints(x@), as_ints(y@), rs as int, ri as int);
        }
        Ok(m)
    }

    /// Normalize both coordinates, initialize the intercept to the mean
    /// of the normalized inputs, then run exactly `iters` gradient
    /// iterations, collecting the mean squared error in original units
    /// after each one — the per-iteration loss signal, in order. Rejects
    /// mismatched lengths, empty input, and constant input explicitly;
    /// on any rejection the regressor is unchanged. A run that diverges
    /// under a too-large learning rate saturates at the representable
    /// bound — the saturation is part of each operation's specification —
    /// rather than faulting.
    pub fn fit(&mut self, x: &Vec<i64>, y: &Vec<i64>) -> (r: Result<Vec<i64>, Error>)
        requires
            old(self).wf(),
        ensures
            final(self).wf(),
            final(self).iters == old(self).iters,
            final(self).learning_rate == old(self).learning_rate,
            x@.len() != y@.len() <==> r == Err::<Vec<i64>, Error>(Error::LengthMismatch),
            (x@.len() == y@.len() && x@.len() == 0) <==> r == Err::<Vec<i64>, Error>(
                Error::EmptyInput,
            ),
            (x@.len() == y@.len() && x@.len() >= 1 && (smin(as_ints(x@)) == smax(as_ints(x@))
                || smin(as_ints(y@)) == smax(as_ints(y@)))) <==> r == Err::<Vec<i64>, Error>(
                Error::DegenerateRange,
            ),
            (x@.len() == y@.len() && x@.len() >= 1 && smin(as_ints(x@)) != smax(as_ints(x@))
                && smin(as_ints(y@)) != smax(as_ints(y@))) <==> r is Ok,
            r is Err ==> *final(self) == *old(self),
            r is Ok ==> {
                &&& final(self).x_norm.min as int == smin(as_ints(x@))
                &&& final(self).x_norm.max as int == smax(as_ints(x@))
                &&& final(self).y_norm.min as int == smin(as_ints(y@))
                &&& final(self).y_norm.max as int == smax(as_ints(y@))
                &&& final(self).slope as int == fit_params(
                    as_ints(x@),
                    as_ints(y@),
                    old(self).learning_rate as int,
                    old(self).iters as nat,
                ).0
                &&& final(self).intercept as int == fit_params(
                    as_ints(x@),
                    as_ints(y@),
                    old(self).learning_rate as int,
                    old(self).iters as nat,
                ).1
            },
            r matches Ok(mses) ==> mses@.len() == old(self).iters && (forall|k: int|
                0 <= k < old(self).iters ==> (#[trigger] mses@[k]) as int == mse_after(
                    as_ints(x@),
                    as_ints(y@),
                    old(self).learning_rate as int,
                    (k + 1) as nat,
                )),
    {
        if x.len() != y.len() {
            return Err(Error::LengthMismatch);
        }
        if x.len() == 0 {
            return Err(Error::EmptyInput);
        }
        let (xlo, xhi) = min_max(x);
        if xlo == xhi {
            return Err(Error::DegenerateRange);
        }
        let (ylo, yhi) = min_max(y);
        if ylo == yhi {
            return Err(Error::DegenerateRange);
        }
        let ghost xs = as_ints(x@);
        let ghost ys = as_ints(y@);
        let xn = match self.x_norm.normalize(x) {
            Ok(v) => v,
            Err(_) => {
                proof {
                    assert(false);
                }
                return Err(Error::DegenerateRange);
            },
        };
        let yn = match self.y_norm.normalize(y) {
            Ok(v) => v,
            Err(_) => {
                proof {
                    assert(false);
                }
                return Err(Error::DegenerateRange);
            },
        };
        let ghost xnv = as_ints(xn@);
        let ghost ynv = as_ints(yn@);
        let n = x.len();
        let iters = self.iters;
        let lr = self.learning_rate;
        let s0 = csum_vec(&xn);
        self.slope = 0;
        self.intercept = fx::divn(s0, n);
        let mut mses: Vec<i64> = Vec::new();
        let mut it: usize = 0;
        while it < iters
            invariant
                it <= iters,
                n == x@.len(),
                n == y@.len(),
                n >= 1,
                xs == as_ints(x@),
                ys == as_ints(y@),
                xnv == norm_seq(xs),
                ynv == norm_seq(ys),
                xn@.len() == n,
                yn@.len() == n,
                as_ints(xn@) == xnv,
                as_ints(yn@) == ynv,
                self.iters == iters,
                self.learning_rate == lr,
                iters >= 1,
                lr >= 1,
                self.x_norm.min as int == smin(xs),
                self.x_norm.max as int == smax(xs),
                self.y_norm.min as int == smin(ys),
                self.y_norm.max as int == smax(ys),
                self.wf(),
                self.slope as int == gd(xnv, ynv, lr as int, it as nat).0,
                self.intercept as int == gd(xnv, ynv, lr as int, it as nat).1,
                mses@.len() == it,
                forall|k: int|
                    0 <= k < it ==> (#[trigger] mses@[k]) as int == mse_after(
                        xs,
                        ys,
                        lr as int,
                        (k + 1) as nat,
                    ),
            decreases iters - it,
        {
            let s_cur = self.slope;
            let c_cur = self.intercept;
            let mut sg: i64 = 0;
            let mut ig: i64 = 0;
            let mut j: usize = 0;
            while j < n
                invariant
                    j <= n,
                    n == xn@.len(),
                    n == yn@.len(),
                    as_ints(xn@) == xnv,
                    as_ints(yn@) == ynv,
                    sg as int == sg_acc(xnv, ynv, s_cur as int, c_cur as int, j as int),
                    ig as int == ig_acc(xnv, ynv, s_cur as int, c_cur as int, j as int),
                decreases n - j,
            {
                let pred = fx::fadd(fx::fmul(s_cur, xn[j]), c_cur);
                let e = fx::fsub(pred, yn[j]);
                sg = fx::fadd(sg, fx::fmul(xn[j], e));
                ig = fx::fadd(ig, e);
                j += 1;
            }
            let sgs = fx::gscale(sg, n);
            let igs = fx::gscale(ig, n);
            self.slope = fx::fsub(s_cur, fx::fmul(lr, sgs));
            self.intercept = fx::fsub(c_cur, fx::fmul(lr, igs));
            proof {
                assert(gd(xnv, ynv, lr as int, (it + 1) as nat) == gstep(
                    xnv,
                    ynv,
                    lr as int,
                    gd(xnv, ynv, lr as int, it as nat).0,
                    gd(xnv, ynv, lr as int, it as nat).1,
                ));
            }
            let m = match self.mse(x, y) {
                Ok(m) => m,
                Err(_) => {
                    proof {
                        assert(false);
                    }
                    0
                },
            };
            mses.push(m);
            it += 1;
        }
        Ok(mses)
    }
}

} // verus!
