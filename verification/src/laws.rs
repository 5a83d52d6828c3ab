//! General properties of the estimation, proved once for all inputs.

use vstd::prelude::*;
use crate::data::Diag2;
use crate::data::Mat2;
use crate::data::PointSet;
use crate::data::Q;
use crate::data::SvdInput;
use crate::estimator::Moments;
use crate::estimator::corr_s0;
use crate::estimator::corr_s1;
use crate::estimator::corr_trigger;
use crate::estimator::det2i;
use crate::estimator::spec_estimate;
use crate::estimator::spec_moments;
use crate::estimator::spec_result;
use crate::model::cov_terms;
use crate::model::ints;
use crate::model::lemma_isum_permutation;
use crate::model::lemma_mul_bound;

verus! {

/// Determinant of the signed singular-vector product: applying the two
/// correction signs to the columns of `U` and multiplying by `V^T`
/// multiplies the determinants.
proof fn lemma_det_product(
    s0: int,
    s1: int,
    ua: int,
    ub: int,
    uc: int,
    ud: int,
    vta: int,
    vtb: int,
    vtc: int,
    vtd: int,
)
    ensures
        (s0 * ua * vta + s1 * ub * vtc) * (s0 * uc * vtb + s1 * ud * vtd) - (s0 * ua * vtb + s1 * ub
            * vtd) * (s0 * uc * vta + s1 * ud * vtc) == (s0 * s1) * ((ua * ud - ub * uc) * (vta
            * vtd - vtb * vtc)),
{
    let wa = s0 * ua;
    let wb = s1 * ub;
    let wc = s0 * uc;
    let wd = s1 * ud;
    lemma_expand(wa * vta, wb * vtc, wc * vtb, wd * vtd);
    lemma_expand(wa * vtb, wb * vtd, wc * vta, wd * vtc);
    lemma_expand_sub(wa * wd, wb * wc, vta * vtd, vtb * vtc);
    assert((wa * vta) * (wc * vtb) == (wa * vtb) * (wc * vta)) by (nonlinear_arith);
    assert((wa * vta) * (wd * vtd) == (wa * wd) * (vta * vtd)) by (nonlinear_arith);
    assert((wb * vtc) * (wc * vtb) == (wb * wc) * (vtb * vtc)) by (nonlinear_arith);
    assert((wb * vtc) * (wd * vtd) == (wb * vtd) * (wd * vtc)) by (nonlinear_arith);
    assert((wa * vtb) * (wd * vtc) == (wa * wd) * (vtb * vtc)) by (nonlinear_arith);
    assert((wb * vtd) * (wc * vta) == (wb * wc) * (vta * vtd)) by (nonlinear_arith);
    assert((wa * wd) * (vta * vtd) - (wa * wd) * (vtb * vtc) - ((wb * wc) * (vta * vtd) - (wb * wc)
        * (vtb * vtc)) == (wa * wd - wb * wc) * (vta * vtd - vtb * vtc));
    assert(wa * wd == (s0 * s1) * (ua * ud)) by (nonlinear_arith)
        requires
            wa == s0 * ua,
            wd == s1 * ud,
    ;
    assert(wb * wc == (s0 * s1) * (ub * uc)) by (nonlinear_arith)
        requires
            wb == s1 * ub,
            wc == s0 * uc,
    ;
    lemma_factor(s0 * s1, ua * ud, ub * uc);
    lemma_factor_pair(s0 * s1, ua * ud - ub * uc, vta * vtd - vtb * vtc);
}

/// Multiplying out a product of two sums.
proof fn lemma_expand(x: int, y: int, z: int, w: int)
    by (nonlinear_arith)
    ensures
        (x + y) * (z + w) == x * z + x * w + y * z + y * w,
{
}

/// Multiplying out a product of two differences.
proof fn lemma_expand_sub(x: int, y: int, z: int, w: int)
    by (nonlinear_arith)
    ensures
        (x - y) * (z - w) == x * z - x * w - (y * z - y * w),
{
}

/// Pulling a common factor out of a difference.
proof fn lemma_factor(t: int, x: int, y: int)
    by (nonlinear_arith)
    ensures
        t * x - t * y == t * (x - y),
{
}

/// Reassociating a scalar times a product.
proof fn lemma_factor_pair(t: int, x: int, y: int)
    by (nonlinear_arith)
    ensures
        (t * x) * y == t * (x * y),
{
}

/// Determinant invariant: whenever the decomposition factors handed in are
/// consistent with the covariance held in the moments — they multiply back
/// to it at determinant level, with nonnegative singular values — and the
/// two singular-vector matrices have unit determinant magnitude (as every
/// orthonormal matrix has), the estimated rotation matrix has determinant
/// exactly one: the reflection correction always restores a proper
/// rotation, whichever way the input correspondence is oriented.
pub proof fn lemma_rotation_proper(m: Moments, u: Mat2, vt: Mat2, d: Diag2)
    requires
        m.wf(),
        u.wf(),
        vt.wf(),
        d.wf(),
        det2i(m.c00 as int, m.c01 as int, m.c10 as int, m.c11 as int) * ((u.den as int) * (
        u.den as int) * ((vt.den as int) * (vt.den as int)) * ((d.den as int) * (d.den as int)))
            == (
        det2i(u.m00 as int, u.m01 as int, u.m10 as int, u.m11 as int) * det2i(
            vt.m00 as int,
            vt.m01 as int,
            vt.m10 as int,
            vt.m11 as int,
        )) * ((d.d0 as int) * (d.d1 as int)) * (((m.n as int) * (m.n as int) * (m.n as int) * (
        m.df as int) * (m.dt as int)) * ((m.n as int) * (m.n as int) * (m.n as int) * (
        m.df as int) * (m.dt as int))),
        det2i(u.m00 as int, u.m01 as int, u.m10 as int, u.m11 as int) * det2i(
            vt.m00 as int,
            vt.m01 as int,
            vt.m10 as int,
            vt.m11 as int,
        ) == (u.den as int) * (u.den as int) * ((vt.den as int) * (vt.den as int)) || det2i(
            u.m00 as int,
            u.m01 as int,
            u.m10 as int,
            u.m11 as int,
        ) * det2i(vt.m00 as int, vt.m01 as int, vt.m10 as int, vt.m11 as int) == -((u.den as int)
            * (u.den as int) * ((vt.den as int) * (vt.den as int))),
    ensures
        ({
            let t = spec_estimate(m, u, vt, d);
            det2i(
                t.rotation.m00 as int,
                t.rotation.m01 as int,
                t.rotation.m10 as int,
                t.rotation.m11 as int,
            ) == (t.rotation.den as int) * (t.rotation.den as int)
        }),
{
    let detc = det2i(m.c00 as int, m.c01 as int, m.c10 as int, m.c11 as int);
    let detu = det2i(u.m00 as int, u.m01 as int, u.m10 as int, u.m11 as int);
    let detvt = det2i(vt.m00 as int, vt.m01 as int, vt.m10 as int, vt.m11 as int);
    let duv = detu * detvt;
    let s0 = corr_s0(detc, duv, d.d0 as int, d.d1 as int);
    let s1 = corr_s1(detc, duv, d.d0 as int, d.d1 as int);
    let du = u.den as int;
    let dv = vt.den as int;
    let dd = d.den as int;
    let p = du * du * (dv * dv);
    let q = du * du * (dv * dv) * (dd * dd);
    let covd = (m.n as int) * (m.n as int) * (m.n as int) * (m.df as int) * (m.dt as int);

    assert(p > 0) by (nonlinear_arith)
        requires
            du > 0,
            dv > 0,
            p == du * du * (dv * dv),
    ;
    assert(q > 0) by (nonlinear_arith)
        requires
            du > 0,
            dv > 0,
            dd > 0,
            q == du * du * (dv * dv) * (dd * dd),
    ;
    assert(detc * q == duv * ((d.d0 as int) * (d.d1 as int)) * (covd * covd));
    assert(duv == p || duv == -p);

    if duv == p {
        // Agreeing singular-vector determinants: the covariance determinant
        // is nonnegative, the correction does not fire.
        assert(detc >= 0) by (nonlinear_arith)
            requires
                detc * q == duv * ((d.d0 as int) * (d.d1 as int)) * (covd * covd),
                duv > 0,
                q > 0,
                d.d0 as int >= 0,
                d.d1 as int >= 0,
                duv == p,
                p > 0,
        ;
        assert(!corr_trigger(detc, duv));
        assert(s0 * s1 == 1);
    } else {
        // Disagreeing determinants: the covariance determinant cannot be
        // positive, the correction fires and flips exactly one sign.
        assert(duv == -p);
        assert(detc <= 0) by (nonlinear_arith)
            requires
                detc * q == duv * ((d.d0 as int) * (d.d1 as int)) * (covd * covd),
                duv < 0,
                q > 0,
                d.d0 as int >= 0,
                d.d1 as int >= 0,
        ;
        assert(corr_trigger(detc, duv));
        assert(s0 * s1 == -1);
    }
    lemma_det_product(
        s0,
        s1,
        u.m00 as int,
        u.m01 as int,
        u.m10 as int,
        u.m11 as int,
        vt.m00 as int,
        vt.m01 as int,
        vt.m10 as int,
        vt.m11 as int,
    );
    assert((s0 * s1) * (detu * detvt) == p) by (nonlinear_arith)
        requires
            (duv == p && s0 * s1 == 1) || (duv == -p && s0 * s1 == -1),
            duv == detu * detvt,
    ;

    // The struct holds the same numbers: the casts are faithful inside the
    // well-formedness bounds.
    let t = spec_estimate(m, u, vt, d);
    assert(s0 == 1 || s0 == -1);
    assert(s1 == 1 || s1 == -1);
    assert(-0x4000 <= s0 * (u.m00 as int) <= 0x4000);
    assert(-0x4000 <= s0 * (u.m10 as int) <= 0x4000);
    assert(-0x4000 <= s1 * (u.m01 as int) <= 0x4000);
    assert(-0x4000 <= s1 * (u.m11 as int) <= 0x4000);
    lemma_mul_bound(s0 * (u.m00 as int), vt.m00 as int, 0x4000, 0x4000);
    lemma_mul_bound(s0 * (u.m00 as int), vt.m01 as int, 0x4000, 0x4000);
    lemma_mul_bound(s1 * (u.m01 as int), vt.m10 as int, 0x4000, 0x4000);
    lemma_mul_bound(s1 * (u.m01 as int), vt.m11 as int, 0x4000, 0x4000);
    lemma_mul_bound(s0 * (u.m10 as int), vt.m00 as int, 0x4000, 0x4000);
    lemma_mul_bound(s0 * (u.m10 as int), vt.m01 as int, 0x4000, 0x4000);
    lemma_mul_bound(s1 * (u.m11 as int), vt.m10 as int, 0x4000, 0x4000);
    lemma_mul_bound(s1 * (u.m11 as int), vt.m11 as int, 0x4000, 0x4000);
    lemma_mul_bound(du, dv, 0x4000, 0x4000);
    assert(t.rotation.den as int == du * dv);
    assert(t.rotation.m00 as int == s0 * (u.m00 as int) * (vt.m00 as int) + s1 * (u.m01 as int) * (
    vt.m10 as int));
    assert((du * dv) * (du * dv) == p) by (nonlinear_arith)
        requires
            p == du * du * (dv * dv),
    ;
}

/// Permutation invariance: reordering the `from` and `to` point sets by
/// one and the same permutation leaves every moment — centroid sums,
/// variance, cross-covariance — unchanged, and with them the whole
/// estimation outcome, whatever decomposition factors are then handed in.
pub proof fn lemma_permutation_invariant(
    from1: PointSet,
    to1: PointSet,
    from2: PointSet,
    to2: PointSet,
    p: Seq<int>,
)
    requires
        from1.wf(),
        to1.wf(),
        from2.wf(),
        to2.wf(),
        from1.den == from2.den,
        to1.den == to2.den,
        p.len() == from1.xs@.len(),
        from2.xs@.len() == p.len(),
        to1.xs@.len() == p.len(),
        to2.xs@.len() == p.len(),
        forall|i: int| 0 <= i < p.len() ==> 0 <= #[trigger] p[i] < p.len(),
        forall|i: int, j: int| 0 <= i < j < p.len() ==> p[i] != p[j],
        forall|i: int| 0 <= i < p.len() ==> #[trigger] from2.xs@[i] == from1.xs@[p[i]],
        forall|i: int| 0 <= i < p.len() ==> #[trigger] from2.ys@[i] == from1.ys@[p[i]],
        forall|i: int| 0 <= i < p.len() ==> #[trigger] to2.xs@[i] == to1.xs@[p[i]],
        forall|i: int| 0 <= i < p.len() ==> #[trigger] to2.ys@[i] == to1.ys@[p[i]],
    ensures
        spec_moments(from2, to2) == spec_moments(from1, to1),
        forall|svd: SvdInput|
            spec_result(spec_moments(from2, to2), svd) == spec_result(
                spec_moments(from1, to1),
                svd,
            ),
{
    let n = p.len() as int;

    assert forall|i: int| 0 <= i < n implies #[trigger] ints(from2.xs@)[i] == ints(from1.xs@)[p[i]] by {}
    lemma_isum_permutation(ints(from1.xs@), ints(from2.xs@), p);
    assert forall|i: int| 0 <= i < n implies #[trigger] ints(from2.ys@)[i] == ints(from1.ys@)[p[i]] by {}
    lemma_isum_permutation(ints(from1.ys@), ints(from2.ys@), p);
    assert forall|i: int| 0 <= i < n implies #[trigger] ints(to2.xs@)[i] == ints(to1.xs@)[p[i]] by {}
    lemma_isum_permutation(ints(to1.xs@), ints(to2.xs@), p);
    assert forall|i: int| 0 <= i < n implies #[trigger] ints(to2.ys@)[i] == ints(to1.ys@)[p[i]] by {}
    lemma_isum_permutation(ints(to1.ys@), ints(to2.ys@), p);

    let sfx = crate::model::sum_xs(from1);
    let sfy = crate::model::sum_ys(from1);
    let stx = crate::model::sum_xs(to1);
    let sty = crate::model::sum_ys(to1);

    assert forall|i: int| 0 <= i < n implies #[trigger] cov_terms(from2.xs@, from2.xs@, n, sfx, sfx)[i]
        == cov_terms(from1.xs@, from1.xs@, n, sfx, sfx)[p[i]] by {}
    lemma_isum_permutation(
        cov_terms(from1.xs@, from1.xs@, n, sfx, sfx),
        cov_terms(from2.xs@, from2.xs@, n, sfx, sfx),
        p,
    );
    assert forall|i: int| 0 <= i < n implies #[trigger] cov_terms(from2.ys@, from2.ys@, n, sfy, sfy)[i]
        == cov_terms(from1.ys@, from1.ys@, n, sfy, sfy)[p[i]] by {}
    lemma_isum_permutation(
        cov_terms(from1.ys@, from1.ys@, n, sfy, sfy),
        cov_terms(from2.ys@, from2.ys@, n, sfy, sfy),
        p,
    );
    assert forall|i: int| 0 <= i < n implies #[trigger] cov_terms(to2.xs@, from2.xs@, n, stx, sfx)[i]
        == cov_terms(to1.xs@, from1.xs@, n, stx, sfx)[p[i]] by {}
    lemma_isum_permutation(
        cov_terms(to1.xs@, from1.xs@, n, stx, sfx),
        cov_terms(to2.xs@, from2.xs@, n, stx, sfx),
        p,
    );
    assert forall|i: int| 0 <= i < n implies #[trigger] cov_terms(to2.xs@, from2.ys@, n, stx, sfy)[i]
        == cov_terms(to1.xs@, from1.ys@, n, stx, sfy)[p[i]] by {}
    lemma_isum_permutation(
        cov_terms(to1.xs@, from1.ys@, n, stx, sfy),
        cov_terms(to2.xs@, from2.ys@, n, stx, sfy),
        p,
    );
    assert forall|i: int| 0 <= i < n implies #[trigger] cov_terms(to2.ys@, from2.xs@, n, sty, sfx)[i]
        == cov_terms(to1.ys@, from1.xs@, n, sty, sfx)[p[i]] by {}
    lemma_isum_permutation(
        cov_terms(to1.ys@, from1.xs@, n, sty, sfx),
        cov_terms(to2.ys@, from2.xs@, n, sty, sfx),
        p,
    );
    assert forall|i: int| 0 <= i < n implies #[trigger] cov_terms(to2.ys@, from2.ys@, n, sty, sfy)[i]
        == cov_terms(to1.ys@, from1.ys@, n, sty, sfy)[p[i]] by {}
    lemma_isum_permutation(
        cov_terms(to1.ys@, from1.ys@, n, sty, sfy),
        cov_terms(to2.ys@, from2.ys@, n, sty, sfy),
        p,
    );
}

/// Degenerate-scale safety: when the centered `from` set has zero variance
/// (all points coincide), the estimation still yields a transform, with
/// scale exactly one; no division by the variance happens.
pub proof fn lemma_degenerate_scale(m: Moments, u: Mat2, vt: Mat2, d: Diag2)
    requires
        m.wf(),
        u.wf(),
        vt.wf(),
        d.wf(),
        m.sigma == 0,
    ensures
        spec_estimate(m, u, vt, d).scale == (Q { num: 1, den: 1 }),
{
}

} // verus!
