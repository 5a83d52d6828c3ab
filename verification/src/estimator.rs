//! The closed-form least-squares similarity estimation, split at the
//! singular-value-decomposition boundary.
//!
//! `moments` reduces the two point sets to their exact moment sums
//! (coordinate sums, variance numerator, cross-covariance numerators), and
//! rejects mismatched or empty inputs.  The caller decomposes the
//! cross-covariance with whatever backend it has and hands the factors back
//! as `SvdInput`; `estimate` then builds the transform: reflection
//! correction, scale (with the zero-variance fallback) and translation, all
//! in exact rational arithmetic.

use vstd::prelude::*;
use crate::data::Diag2;
use crate::data::Failure;
use crate::data::Mat2;
use crate::data::PointSet;
use crate::data::Q;
use crate::data::Rotation;
use crate::data::Similarity;
use crate::data::SvdInput;
use crate::data::MAX_COORD;
use crate::data::MAX_POINTS;
use crate::data::MAX_POINT_DEN;
use crate::model::cov_terms;
use crate::model::ints;
use crate::model::isum;
use crate::model::lemma_isum_take_succ;
use crate::model::lemma_mul_bound;
use crate::model::lemma_square_nonneg;
use crate::model::lemma_mul_nonneg;
use crate::model::lemma_mul_pos;
use crate::model::cov_entry;
use crate::model::sigma_num;
use crate::model::sum_xs;
use crate::model::sum_ys;

verus! {

/// The exact moment sums of a pair of point sets, everything the
/// estimation needs from the points themselves.
///
/// With `n` points, `from` denominator `df` and `to` denominator `dt`:
/// the centroid of `from` is `(sfx, sfy) / (n * df)` and of `to` is
/// `(stx, sty) / (n * dt)`; the variance of the centered `from` set is
/// `sigma / (n^3 * df^2)`; cross-covariance entry `(r, c)` is
/// `c{r}{c} / (n^3 * df * dt)`.
#[derive(Clone, Copy, Debug, PartialEq, Eq, Structural)]
pub struct Moments {
    pub n: usize,
    pub df: i64,
    pub dt: i64,
    pub sfx: i128,
    pub sfy: i128,
    pub stx: i128,
    pub sty: i128,
    pub sigma: i128,
    pub c00: i128,
    pub c01: i128,
    pub c10: i128,
    pub c11: i128,
}

impl Moments {
    /// Bounds that every value produced by `moments` on well-formed sets
    /// meets; they keep the remaining arithmetic inside 128 bits.
    pub open spec fn wf(self) -> bool {
        &&& 1 <= self.n <= MAX_POINTS
        &&& 1 <= self.df <= MAX_POINT_DEN
        &&& 1 <= self.dt <= MAX_POINT_DEN
        &&& -0x80_0000 <= self.sfx <= 0x80_0000
        &&& -0x80_0000 <= self.sfy <= 0x80_0000
        &&& -0x80_0000 <= self.stx <= 0x80_0000
        &&& -0x80_0000 <= self.sty <= 0x80_0000
        &&& 0 <= self.sigma <= 0x200_0000_0000_0000
        &&& -0x100_0000_0000_0000 <= self.c00 <= 0x100_0000_0000_0000
        &&& -0x100_0000_0000_0000 <= self.c01 <= 0x100_0000_0000_0000
        &&& -0x100_0000_0000_0000 <= self.c10 <= 0x100_0000_0000_0000
        &&& -0x100_0000_0000_0000 <= self.c11 <= 0x100_0000_0000_0000
    }
}

/// The moments of a pair of sets, as the model states them.
pub open spec fn spec_moments(from: PointSet, to: PointSet) -> Moments {
    Moments {
        n: from.xs@.len() as usize,
        df: from.den,
        dt: to.den,
        sfx: sum_xs(from) as i128,
        sfy: sum_ys(from) as i128,
        stx: sum_xs(to) as i128,
        sty: sum_ys(to) as i128,
        sigma: sigma_num(from) as i128,
        c00: cov_entry(from, to, 0, 0) as i128,
        c01: cov_entry(from, to, 0, 1) as i128,
        c10: cov_entry(from, to, 1, 0) as i128,
        c11: cov_entry(from, to, 1, 1) as i128,
    }
}

/// Determinant of a 2x2 matrix given row-major.
pub open spec fn det2i(a: int, b: int, c: int, d: int) -> int {
    a * d - b * c
}

/// Whether the reflection correction fires: the covariance determinant is
/// negative, or it is zero and the singular-vector determinants disagree.
pub open spec fn corr_trigger(detc: int, duv: int) -> bool {
    detc < 0 || (detc == 0 && duv < 0)
}

/// Sign put at entry (0,0) of the correction matrix: negated when the
/// correction fires and the first singular value is the smaller one.
pub open spec fn corr_s0(detc: int, duv: int, d0: int, d1: int) -> int {
    if corr_trigger(detc, duv) && !(d1 < d0) {
        -1
    } else {
        1
    }
}

/// Sign put at entry (1,1) of the correction matrix: negated when the
/// correction fires and the second singular value is the smaller one.
pub open spec fn corr_s1(detc: int, duv: int, d0: int, d1: int) -> int {
    if corr_trigger(detc, duv) && d1 < d0 {
        -1
    } else {
        1
    }
}

/// The transform that the estimation builds from the moments and the
/// decomposition factors, stated value by value.
///
/// With correction signs `s0`, `s1`: the rotation is `U * S * V^T`; the
/// scale is `trace(D * S) / sigma`, or one when the variance is zero; the
/// translation is `centroid(to) - scale * rotation * centroid(from)`.
pub open spec fn spec_estimate(m: Moments, u: Mat2, vt: Mat2, d: Diag2) -> Similarity {
    let detc = det2i(m.c00 as int, m.c01 as int, m.c10 as int, m.c11 as int);
    let detu = det2i(u.m00 as int, u.m01 as int, u.m10 as int, u.m11 as int);
    let detvt = det2i(vt.m00 as int, vt.m01 as int, vt.m10 as int, vt.m11 as int);
    let duv = detu * detvt;
    let s0 = corr_s0(detc, duv, d.d0 as int, d.d1 as int);
    let s1 = corr_s1(detc, duv, d.d0 as int, d.d1 as int);
    let rden = (u.den as int) * (vt.den as int);
    let r00 = s0 * (u.m00 as int) * (vt.m00 as int) + s1 * (u.m01 as int) * (vt.m10 as int);
    let r01 = s0 * (u.m00 as int) * (vt.m01 as int) + s1 * (u.m01 as int) * (vt.m11 as int);
    let r10 = s0 * (u.m10 as int) * (vt.m00 as int) + s1 * (u.m11 as int) * (vt.m10 as int);
    let r11 = s0 * (u.m10 as int) * (vt.m01 as int) + s1 * (u.m11 as int) * (vt.m11 as int);
    let tr = s0 * (d.d0 as int) + s1 * (d.d1 as int);
    let n = m.n as int;
    let df = m.df as int;
    let dt = m.dt as int;
    let dd = d.den as int;
    let sig = m.sigma as int;
    let sfx = m.sfx as int;
    let sfy = m.sfy as int;
    let stx = m.stx as int;
    let sty = m.sty as int;
    let q1x = r00 * sfx + r01 * sfy;
    let q1y = r10 * sfx + r11 * sfy;
    let scale = if sig == 0 {
        Q { num: 1, den: 1 }
    } else {
        Q { num: (tr * (n * n * n) * df * df) as i128, den: (dd * sig) as i128 }
    };
    let txn = if sig == 0 {
        stx * rden * df - q1x * dt
    } else {
        stx * dd * sig * rden - tr * (n * n * n) * df * dt * q1x
    };
    let tyn = if sig == 0 {
        sty * rden * df - q1y * dt
    } else {
        sty * dd * sig * rden - tr * (n * n * n) * df * dt * q1y
    };
    let tden = if sig == 0 {
        n * dt * rden * df
    } else {
        n * dt * dd * sig * rden
    };
    Similarity {
        rotation: Rotation {
            den: rden as i128,
            m00: r00 as i128,
            m01: r01 as i128,
            m10: r10 as i128,
            m11: r11 as i128,
        },
        scale,
        tx: Q { num: txn as i128, den: tden as i128 },
        ty: Q { num: tyn as i128, den: tden as i128 },
    }
}

/// What `estimate` returns for each decomposition outcome: each missing
/// part of the decomposition is its own failure, and with full factors the
/// transform is the one `spec_estimate` states.
pub open spec fn spec_result(m: Moments, svd: SvdInput) -> Result<Similarity, Failure> {
    match svd {
        SvdInput::NotConverged => Result::Err(Failure::NotConverged),
        SvdInput::Factors(f) => match f.u {
            Option::None => Result::Err(Failure::NoLeftSingularVectors),
            Option::Some(u) => match f.vt {
                Option::None => Result::Err(Failure::NoRightSingularVectors),
                Option::Some(vt) => Result::Ok(spec_estimate(m, u, vt, f.d)),
            },
        },
    }
}

/// Sums one row of coordinate numerators.
fn sum_coords(v: &Vec<i64>) -> (s: i128)
    requires
        v@.len() <= MAX_POINTS,
        forall|i: int| 0 <= i < v@.len() ==> -MAX_COORD <= #[trigger] v@[i] <= MAX_COORD,
    ensures
        s as int == isum(ints(v@)),
        -0x80_0000 <= s <= 0x80_0000,
{
    let mut s: i128 = 0;
    let mut i: usize = 0;
    while i < v.len()
        invariant
            i <= v@.len(),
            v@.len() <= MAX_POINTS,
            forall|j: int| 0 <= j < v@.len() ==> -MAX_COORD <= #[trigger] v@[j] <= MAX_COORD,
            s as int == isum(ints(v@).take(i as int)),
            -(i as int) * (MAX_COORD as int) <= s as int <= (i as int) * (MAX_COORD as int),
        decreases v@.len() - i,
    {
        proof {
            lemma_isum_take_succ(ints(v@), i as int);
            assert(ints(v@)[i as int] == v@[i as int] as int);
        }
        s = s + v[i] as i128;
        i = i + 1;
    }
    proof {
        assert(ints(v@).take(v@.len() as int) =~= ints(v@));
    }
    s
}

/// Reduces the two point sets to their exact moments: centroid sums,
/// variance numerator and cross-covariance numerators.  Rejects, before any
/// numerical work, sets whose lengths differ or are zero; that is the only
/// failure.
pub fn moments(from: &PointSet, to: &PointSet) -> (r: Result<Moments, Failure>)
    requires
        from.wf(),
        to.wf(),
    ensures
        r is Err <==> (from.xs@.len() != to.xs@.len() || from.xs@.len() == 0),
        r is Err ==> r == Result::<Moments, Failure>::Err(Failure::PreconditionViolation),
        r is Ok ==> r == Result::<Moments, Failure>::Ok(spec_moments(*from, *to)),
        r is Ok ==> spec_moments(*from, *to).wf(),
{
    let n = from.xs.len();
    if n != to.xs.len() || n == 0 {
        return Err(Failure::PreconditionViolation);
    }
    let sfx = sum_coords(&from.xs);
    let sfy = sum_coords(&from.ys);
    let stx = sum_coords(&to.xs);
    let sty = sum_coords(&to.ys);

    let nw = n as i128;
    let ghost ni = n as int;
    let mut sgx: i128 = 0;
    let mut sgy: i128 = 0;
    let mut c00: i128 = 0;
    let mut c01: i128 = 0;
    let mut c10: i128 = 0;
    let mut c11: i128 = 0;
    let mut i: usize = 0;
    while i < n
        invariant
            i <= n,
            n == from.xs@.len(),
            n == from.ys@.len(),
            n == to.xs@.len(),
            n == to.ys@.len(),
            1 <= n <= MAX_POINTS,
            nw == n as i128,
            ni == n as int,
            from.wf(),
            to.wf(),
            sfx as int == sum_xs(*from),
            sfy as int == sum_ys(*from),
            stx as int == sum_xs(*to),
            sty as int == sum_ys(*to),
            -0x80_0000 <= sfx <= 0x80_0000,
            -0x80_0000 <= sfy <= 0x80_0000,
            -0x80_0000 <= stx <= 0x80_0000,
            -0x80_0000 <= sty <= 0x80_0000,
            sgx as int == isum(
                cov_terms(from.xs@, from.xs@, ni, sfx as int, sfx as int).take(i as int),
            ),
            sgy as int == isum(
                cov_terms(from.ys@, from.ys@, ni, sfy as int, sfy as int).take(i as int),
            ),
            c00 as int == isum(
                cov_terms(to.xs@, from.xs@, ni, stx as int, sfx as int).take(i as int),
            ),
            c01 as int == isum(
                cov_terms(to.xs@, from.ys@, ni, stx as int, sfy as int).take(i as int),
            ),
            c10 as int == isum(
                cov_terms(to.ys@, from.xs@, ni, sty as int, sfx as int).take(i as int),
            ),
            c11 as int == isum(
                cov_terms(to.ys@, from.ys@, ni, sty as int, sfy as int).take(i as int),
            ),
            0 <= sgx <= (i as i128) * 0x1_0000_0000_0000,
            0 <= sgy <= (i as i128) * 0x1_0000_0000_0000,
            -(i as i128) * 0x1_0000_0000_0000 <= c00 <= (i as i128) * 0x1_0000_0000_0000,
            -(i as i128) * 0x1_0000_0000_0000 <= c01 <= (i as i128) * 0x1_0000_0000_0000,
            -(i as i128) * 0x1_0000_0000_0000 <= c10 <= (i as i128) * 0x1_0000_0000_0000,
            -(i as i128) * 0x1_0000_0000_0000 <= c11 <= (i as i128) * 0x1_0000_0000_0000,
        decreases n - i,
    {
        proof {
            lemma_mul_bound(ni, from.xs@[i as int] as int, MAX_POINTS as int, MAX_COORD as int);
            lemma_mul_bound(ni, from.ys@[i as int] as int, MAX_POINTS as int, MAX_COORD as int);
            lemma_mul_bound(ni, to.xs@[i as int] as int, MAX_POINTS as int, MAX_COORD as int);
            lemma_mul_bound(ni, to.ys@[i as int] as int, MAX_POINTS as int, MAX_COORD as int);
        }
        let cfx = nw * (from.xs[i] as i128) - sfx;
        let cfy = nw * (from.ys[i] as i128) - sfy;
        let ctx = nw * (to.xs[i] as i128) - stx;
        let cty = nw * (to.ys[i] as i128) - sty;
        proof {
            lemma_mul_bound(cfx as int, cfx as int, 0x100_0000, 0x100_0000);
            lemma_mul_bound(cfy as int, cfy as int, 0x100_0000, 0x100_0000);
            lemma_mul_bound(ctx as int, cfx as int, 0x100_0000, 0x100_0000);
            lemma_mul_bound(ctx as int, cfy as int, 0x100_0000, 0x100_0000);
            lemma_mul_bound(cty as int, cfx as int, 0x100_0000, 0x100_0000);
            lemma_mul_bound(cty as int, cfy as int, 0x100_0000, 0x100_0000);
            lemma_square_nonneg(cfx as int);
            lemma_square_nonneg(cfy as int);
            lemma_isum_take_succ(
                cov_terms(from.xs@, from.xs@, ni, sfx as int, sfx as int),
                i as int,
            );
            lemma_isum_take_succ(
                cov_terms(from.ys@, from.ys@, ni, sfy as int, sfy as int),
                i as int,
            );
            lemma_isum_take_succ(cov_terms(to.xs@, from.xs@, ni, stx as int, sfx as int), i as int);
            lemma_isum_take_succ(cov_terms(to.xs@, from.ys@, ni, stx as int, sfy as int), i as int);
            lemma_isum_take_succ(cov_terms(to.ys@, from.xs@, ni, sty as int, sfx as int), i as int);
            lemma_isum_take_succ(cov_terms(to.ys@, from.ys@, ni, sty as int, sfy as int), i as int);
        }
        sgx = sgx + cfx * cfx;
        sgy = sgy + cfy * cfy;
        c00 = c00 + ctx * cfx;
        c01 = c01 + ctx * cfy;
        c10 = c10 + cty * cfx;
        c11 = c11 + cty * cfy;
        i = i + 1;
    }
    proof {
        assert(cov_terms(from.xs@, from.xs@, ni, sfx as int, sfx as int).take(n as int) =~= cov_terms(
            from.xs@,
            from.xs@,
            ni,
            sfx as int,
            sfx as int,
        ));
        assert(cov_terms(from.ys@, from.ys@, ni, sfy as int, sfy as int).take(n as int) =~= cov_terms(
            from.ys@,
            from.ys@,
            ni,
            sfy as int,
            sfy as int,
        ));
        assert(cov_terms(to.xs@, from.xs@, ni, stx as int, sfx as int).take(n as int) =~= cov_terms(
            to.xs@,
            from.xs@,
            ni,
            stx as int,
            sfx as int,
        ));
        assert(cov_terms(to.xs@, from.ys@, ni, stx as int, sfy as int).take(n as int) =~= cov_terms(
            to.xs@,
            from.ys@,
            ni,
            stx as int,
            sfy as int,
        ));
        assert(cov_terms(to.ys@, from.xs@, ni, sty as int, sfx as int).take(n as int) =~= cov_terms(
            to.ys@,
            from.xs@,
            ni,
            sty as int,
            sfx as int,
        ));
        assert(cov_terms(to.ys@, from.ys@, ni, sty as int, sfy as int).take(n as int) =~= cov_terms(
            to.ys@,
            from.ys@,
            ni,
            sty as int,
            sfy as int,
        ));
    }
    let m = Moments {
        n,
        df: from.den,
        dt: to.den,
        sfx,
        sfy,
        stx,
        sty,
        sigma: sgx + sgy,
        c00,
        c01,
        c10,
        c11,
    };
    proof {
        assert(m.sigma as int == sigma_num(*from));
        assert(m.c00 as int == cov_entry(*from, *to, 0, 0));
        assert(m.c01 as int == cov_entry(*from, *to, 0, 1));
        assert(m.c10 as int == cov_entry(*from, *to, 1, 0));
        assert(m.c11 as int == cov_entry(*from, *to, 1, 1));
        assert(m == spec_moments(*from, *to));
    }
    Ok(m)
}

/// The two diagonal signs of the reflection-correction matrix, from the
/// sign tests the estimation makes: the correction fires when the
/// covariance determinant is negative, or zero with disagreeing
/// singular-vector determinants; it negates the diagonal entry of the
/// smaller singular value.
pub fn correction_signs(
    det_negative: bool,
    det_zero: bool,
    uv_negative: bool,
    d1_smaller: bool,
) -> (s: (i64, i64))
    ensures
        s.0 as int == if (det_negative || (det_zero && uv_negative)) && !d1_smaller {
            -1int
        } else {
            1int
        },
        s.1 as int == if (det_negative || (det_zero && uv_negative)) && d1_smaller {
            -1int
        } else {
            1int
        },
{
    if det_negative || (det_zero && uv_negative) {
        if d1_smaller {
            (1, -1)
        } else {
            (-1, 1)
        }
    } else {
        (1, 1)
    }
}

/// Builds the similarity transform from the moments and the decomposition
/// factors the caller obtained for the cross-covariance matrix.
///
/// Exactly one outcome per decomposition shape: missing convergence, left
/// vectors or right vectors each give their own failure; with full factors
/// the call always succeeds and returns the transform `spec_estimate`
/// states.  A zero-variance `from` set is not a failure: the scale then
/// falls back to one.
pub fn estimate(m: &Moments, svd: &SvdInput) -> (r: Result<Similarity, Failure>)
    requires
        m.wf(),
        svd.wf(),
    ensures
        r == spec_result(*m, *svd),
        r is Ok <==> (svd matches SvdInput::Factors(f) && f.u is Some && f.vt is Some),
        r matches Ok(t) ==> t.wf(),
        r matches Ok(t) ==> t.scale.num >= 0,
        m.sigma == 0 ==> (r matches Ok(t) ==> t.scale == (Q { num: 1, den: 1 })),
{
    let f = match svd {
        SvdInput::NotConverged => {
            return Err(Failure::NotConverged);
        },
        SvdInput::Factors(f) => f,
    };
    let u = match f.u {
        None => {
            return Err(Failure::NoLeftSingularVectors);
        },
        Some(u) => u,
    };
    let vt = match f.vt {
        None => {
            return Err(Failure::NoRightSingularVectors);
        },
        Some(vt) => vt,
    };
    let d = f.d;

    let ua = u.m00 as i128;
    let ub = u.m01 as i128;
    let uc = u.m10 as i128;
    let ud = u.m11 as i128;
    let vta = vt.m00 as i128;
    let vtb = vt.m01 as i128;
    let vtc = vt.m10 as i128;
    let vtd = vt.m11 as i128;

    proof {
        lemma_mul_bound(ua as int, ud as int, 0x4000, 0x4000);
        lemma_mul_bound(ub as int, uc as int, 0x4000, 0x4000);
        lemma_mul_bound(vta as int, vtd as int, 0x4000, 0x4000);
        lemma_mul_bound(vtb as int, vtc as int, 0x4000, 0x4000);
    }
    let detu = ua * ud - ub * uc;
    let detvt = vta * vtd - vtb * vtc;
    proof {
        lemma_mul_bound(detu as int, detvt as int, 0x2000_0000, 0x2000_0000);
        lemma_mul_bound(m.c00 as int, m.c11 as int, 0x100_0000_0000_0000, 0x100_0000_0000_0000);
        lemma_mul_bound(m.c01 as int, m.c10 as int, 0x100_0000_0000_0000, 0x100_0000_0000_0000);
    }
    let duv = detu * detvt;
    let detc = m.c00 * m.c11 - m.c01 * m.c10;

    let signs = correction_signs(detc < 0, detc == 0, duv < 0, d.d1 < d.d0);
    let s0 = signs.0 as i128;
    let s1 = signs.1 as i128;
    proof {
        assert(s0 as int == corr_s0(detc as int, duv as int, d.d0 as int, d.d1 as int));
        assert(s1 as int == corr_s1(detc as int, duv as int, d.d0 as int, d.d1 as int));
        lemma_mul_pos(u.den as int, vt.den as int);
        lemma_mul_bound(u.den as int, vt.den as int, 0x4000, 0x4000);
        lemma_mul_bound(s0 as int, ua as int, 1, 0x4000);
        lemma_mul_bound(s0 as int, ub as int, 1, 0x4000);
        lemma_mul_bound(s0 as int, uc as int, 1, 0x4000);
        lemma_mul_bound(s0 as int, ud as int, 1, 0x4000);
        lemma_mul_bound(s1 as int, ua as int, 1, 0x4000);
        lemma_mul_bound(s1 as int, ub as int, 1, 0x4000);
        lemma_mul_bound(s1 as int, uc as int, 1, 0x4000);
        lemma_mul_bound(s1 as int, ud as int, 1, 0x4000);
        lemma_mul_bound((s0 * ua) as int, vta as int, 0x4000, 0x4000);
        lemma_mul_bound((s0 * ua) as int, vtb as int, 0x4000, 0x4000);
        lemma_mul_bound((s1 * ub) as int, vtc as int, 0x4000, 0x4000);
        lemma_mul_bound((s1 * ub) as int, vtd as int, 0x4000, 0x4000);
        lemma_mul_bound((s0 * uc) as int, vta as int, 0x4000, 0x4000);
        lemma_mul_bound((s0 * uc) as int, vtb as int, 0x4000, 0x4000);
        lemma_mul_bound((s1 * ud) as int, vtc as int, 0x4000, 0x4000);
        lemma_mul_bound((s1 * ud) as int, vtd as int, 0x4000, 0x4000);
    }
    let rden = (u.den as i128) * (vt.den as i128);
    let r00 = s0 * ua * vta + s1 * ub * vtc;
    let r01 = s0 * ua * vtb + s1 * ub * vtd;
    let r10 = s0 * uc * vta + s1 * ud * vtc;
    let r11 = s0 * uc * vtb + s1 * ud * vtd;

    proof {
        lemma_mul_bound(s0 as int, d.d0 as int, 1, 0x10_0000);
        lemma_mul_bound(s1 as int, d.d1 as int, 1, 0x10_0000);
    }
    let tr = s0 * (d.d0 as i128) + s1 * (d.d1 as i128);
    let n = m.n as i128;
    let df = m.df as i128;
    let dt = m.dt as i128;
    let dd = d.den as i128;

    proof {
        lemma_mul_bound(r00 as int, m.sfx as int, 0x2000_0000, 0x80_0000);
        lemma_mul_bound(r01 as int, m.sfy as int, 0x2000_0000, 0x80_0000);
        lemma_mul_bound(r10 as int, m.sfx as int, 0x2000_0000, 0x80_0000);
        lemma_mul_bound(r11 as int, m.sfy as int, 0x2000_0000, 0x80_0000);
        lemma_mul_bound(n as int, n as int, 0x100, 0x100);
        lemma_mul_bound((n * n) as int, n as int, 0x1_0000, 0x100);
    }
    let q1x = r00 * m.sfx + r01 * m.sfy;
    let q1y = r10 * m.sfx + r11 * m.sfy;
    let n3 = n * n * n;

    let (scale, txn, tyn, tden) = if m.sigma == 0 {
        proof {
            lemma_mul_bound(m.stx as int, rden as int, 0x80_0000, 0x1000_0000);
            lemma_mul_bound((m.stx * rden) as int, df as int, 0x8_0000_0000_0000, 0x1000);
            lemma_mul_bound(m.sty as int, rden as int, 0x80_0000, 0x1000_0000);
            lemma_mul_bound((m.sty * rden) as int, df as int, 0x8_0000_0000_0000, 0x1000);
            lemma_mul_bound(q1x as int, dt as int, 0x20_0000_0000_0000, 0x1000);
            lemma_mul_bound(q1y as int, dt as int, 0x20_0000_0000_0000, 0x1000);
            lemma_mul_bound(n as int, dt as int, 0x100, 0x1000);
            lemma_mul_bound((n * dt) as int, rden as int, 0x10_0000, 0x1000_0000);
            lemma_mul_bound((n * dt * rden) as int, df as int, 0x1_0000_0000_0000, 0x1000);
            lemma_mul_pos(n as int, dt as int);
            lemma_mul_pos((n * dt) as int, rden as int);
            lemma_mul_pos((n * dt * rden) as int, df as int);
        }
        let txn = m.stx * rden * df - q1x * dt;
        let tyn = m.sty * rden * df - q1y * dt;
        let tden = n * dt * rden * df;
        (Q { num: 1, den: 1 }, txn, tyn, tden)
    } else {
        proof {
            lemma_mul_bound(tr as int, n3 as int, 0x20_0000, 0x100_0000);
            lemma_mul_bound((tr * n3) as int, df as int, 0x2000_0000_0000, 0x1000);
            lemma_mul_bound((tr * n3 * df) as int, df as int, 0x200_0000_0000_0000, 0x1000);
            lemma_mul_bound((tr * n3 * df) as int, dt as int, 0x200_0000_0000_0000, 0x1000);
            lemma_mul_bound(dd as int, m.sigma as int, 0x4000, 0x200_0000_0000_0000);
            lemma_mul_pos(dd as int, m.sigma as int);
            lemma_mul_bound(m.stx as int, dd as int, 0x80_0000, 0x4000);
            lemma_mul_bound((m.stx * dd) as int, m.sigma as int, 0x20_0000_0000, 0x200_0000_0000_0000);
            lemma_mul_bound(
                (m.stx * dd * m.sigma) as int,
                rden as int,
                0x4000_0000_0000_0000_0000_0000,
                0x1000_0000,
            );
            lemma_mul_bound(m.sty as int, dd as int, 0x80_0000, 0x4000);
            lemma_mul_bound((m.sty * dd) as int, m.sigma as int, 0x20_0000_0000, 0x200_0000_0000_0000);
            lemma_mul_bound(
                (m.sty * dd * m.sigma) as int,
                rden as int,
                0x4000_0000_0000_0000_0000_0000,
                0x1000_0000,
            );
            lemma_mul_bound(
                (tr * n3 * df * dt) as int,
                q1x as int,
                0x20_0000_0000_0000_0000,
                0x20_0000_0000_0000,
            );
            lemma_mul_bound(
                (tr * n3 * df * dt) as int,
                q1y as int,
                0x20_0000_0000_0000_0000,
                0x20_0000_0000_0000,
            );
            lemma_mul_bound(n as int, dt as int, 0x100, 0x1000);
            lemma_mul_bound((n * dt) as int, dd as int, 0x10_0000, 0x4000);
            lemma_mul_bound((n * dt * dd) as int, m.sigma as int, 0x4_0000_0000, 0x200_0000_0000_0000);
            lemma_mul_bound(
                (n * dt * dd * m.sigma) as int,
                rden as int,
                0x800_0000_0000_0000_0000_0000,
                0x1000_0000,
            );
            lemma_mul_pos(n as int, dt as int);
            lemma_mul_pos((n * dt) as int, dd as int);
            lemma_mul_pos((n * dt * dd) as int, m.sigma as int);
            lemma_mul_pos((n * dt * dd * m.sigma) as int, rden as int);
        }
        let sn = tr * n3 * df * df;
        let sd = dd * m.sigma;
        let txn = m.stx * dd * m.sigma * rden - tr * n3 * df * dt * q1x;
        let tyn = m.sty * dd * m.sigma * rden - tr * n3 * df * dt * q1y;
        let tden = n * dt * dd * m.sigma * rden;
        (Q { num: sn, den: sd }, txn, tyn, tden)
    };

    let result = Similarity {
        rotation: Rotation { den: rden, m00: r00, m01: r01, m10: r10, m11: r11 },
        scale,
        tx: Q { num: txn, den: tden },
        ty: Q { num: tyn, den: tden },
    };
    proof {
        assert(tr >= 0);
        if m.sigma != 0 {
            lemma_mul_nonneg(tr as int, n3 as int);
            lemma_mul_nonneg((tr * n3) as int, df as int);
            lemma_mul_nonneg((tr * n3 * df) as int, df as int);
        }
        assert(result == spec_estimate(*m, u, vt, d));
    }
    Ok(result)
}

/// The common denominator of the cross-covariance numerators held in the
/// moments: `n^3 * df * dt`.
pub fn covariance_denominator(m: &Moments) -> (r: i128)
    requires
        m.wf(),
    ensures
        r as int == (m.n as int) * (m.n as int) * (m.n as int) * (m.df as int) * (m.dt as int),
        r > 0,
{
    let n = m.n as i128;
    proof {
        lemma_mul_bound(n as int, n as int, 0x100, 0x100);
        lemma_mul_bound((n * n) as int, n as int, 0x1_0000, 0x100);
        lemma_mul_bound((n * n * n) as int, m.df as int, 0x100_0000, 0x1000);
        lemma_mul_bound((n * n * n * m.df as i128) as int, m.dt as int, 0x1_0000_0000_0000, 0x1000);
        lemma_mul_pos(n as int, n as int);
        lemma_mul_pos((n * n) as int, n as int);
        lemma_mul_pos((n * n * n) as int, m.df as int);
        lemma_mul_pos((n * n * n * m.df as i128) as int, m.dt as int);
    }
    n * n * n * (m.df as i128) * (m.dt as i128)
}

/// The denominator of the variance numerator held in the moments:
/// `n^3 * df^2`.
pub fn sigma_denominator(m: &Moments) -> (r: i128)
    requires
        m.wf(),
    ensures
        r as int == (m.n as int) * (m.n as int) * (m.n as int) * (m.df as int) * (m.df as int),
        r > 0,
{
    let n = m.n as i128;
    proof {
        lemma_mul_bound(n as int, n as int, 0x100, 0x100);
        lemma_mul_bound((n * n) as int, n as int, 0x1_0000, 0x100);
        lemma_mul_bound((n * n * n) as int, m.df as int, 0x100_0000, 0x1000);
        lemma_mul_bound((n * n * n * m.df as i128) as int, m.df as int, 0x1_0000_0000_0000, 0x1000);
        lemma_mul_pos(n as int, n as int);
        lemma_mul_pos((n * n) as int, n as int);
        lemma_mul_pos((n * n * n) as int, m.df as int);
        lemma_mul_pos((n * n * n * m.df as i128) as int, m.df as int);
    }
    n * n * n * (m.df as i128) * (m.df as i128)
}

} // verus!
