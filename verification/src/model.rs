//! The mathematical model: exact integer sums over sequences, and the
//! moment sums (centroid numerators, variance numerator, cross-covariance
//! numerators) of a pair of point sets.

use vstd::prelude::*;
use crate::data::PointSet;

verus! {

/// The view of a row of coordinate numerators as mathematical integers.
pub open spec fn ints(s: Seq<i64>) -> Seq<int> {
    s.map_values(|v: i64| v as int)
}

/// The sum of a sequence of integers.
pub open spec fn isum(s: Seq<int>) -> int
    decreases s.len(),
{
    if s.len() == 0 {
        0
    } else {
        isum(s.drop_last()) + s.last()
    }
}

/// The sequence of products of mean-centered coordinates, scaled by `n`:
/// term `i` is `(n * ts[i] - st) * (n * fs[i] - sf)`, where `st` and `sf`
/// are the coordinate sums of the two rows.  Summed, these are the
/// numerators of `n^3` times a cross-covariance entry (before dividing by
/// the denominators of the two sets).
pub open spec fn cov_terms(ts: Seq<i64>, fs: Seq<i64>, n: int, st: int, sf: int) -> Seq<int> {
    Seq::new(ts.len(), |i: int| (n * ts[i] - st) * (n * fs[i] - sf))
}

/// The summed cross product of two mean-centered rows.
pub open spec fn covn(ts: Seq<i64>, fs: Seq<i64>, n: int, st: int, sf: int) -> int {
    isum(cov_terms(ts, fs, n, st, sf))
}

/// Sum of the x-coordinate numerators of a set.
pub open spec fn sum_xs(ps: PointSet) -> int {
    isum(ints(ps.xs@))
}

/// Sum of the y-coordinate numerators of a set.
pub open spec fn sum_ys(ps: PointSet) -> int {
    isum(ints(ps.ys@))
}

/// Numerator of `n^3 * den^2` times the population variance of the set:
/// the summed squared norm of the mean-centered, `n`-scaled coordinates.
pub open spec fn sigma_num(ps: PointSet) -> int {
    let n = ps.count();
    covn(ps.xs@, ps.xs@, n, sum_xs(ps), sum_xs(ps)) + covn(
        ps.ys@,
        ps.ys@,
        n,
        sum_ys(ps),
        sum_ys(ps),
    )
}

/// Numerator of entry `(r, c)` of `n^3 * den_from * den_to` times the
/// cross-covariance matrix `(1/n) * sum of centered_to_i * centered_from_i^T`.
/// Row index picks the `to` coordinate, column index the `from` coordinate.
pub open spec fn cov_entry(from: PointSet, to: PointSet, r: int, c: int) -> int {
    let n = from.count();
    let ts = if r == 0 {
        to.xs@
    } else {
        to.ys@
    };
    let st = if r == 0 {
        sum_xs(to)
    } else {
        sum_ys(to)
    };
    let fs = if c == 0 {
        from.xs@
    } else {
        from.ys@
    };
    let sf = if c == 0 {
        sum_xs(from)
    } else {
        sum_ys(from)
    };
    covn(ts, fs, n, st, sf)
}

/// A product is bounded by the product of the bounds.
pub proof fn lemma_mul_bound(a: int, b: int, ab: int, bb: int)
    by (nonlinear_arith)
    requires
        -ab <= a <= ab,
        -bb <= b <= bb,
        0 <= ab,
        0 <= bb,
    ensures
        -(ab * bb) <= a * b <= ab * bb,
{
}

/// A product of positive integers is positive.
pub proof fn lemma_mul_pos(a: int, b: int)
    by (nonlinear_arith)
    requires
        a > 0,
        b > 0,
    ensures
        a * b > 0,
{
}

/// A square is never negative.
pub proof fn lemma_square_nonneg(a: int)
    by (nonlinear_arith)
    ensures
        a * a >= 0,
{
}

/// A product of nonnegative integers is nonnegative.
pub proof fn lemma_mul_nonneg(a: int, b: int)
    by (nonlinear_arith)
    requires
        a >= 0,
        b >= 0,
    ensures
        a * b >= 0,
{
}

/// Appending one element to a prefix adds that element to the prefix sum.
pub proof fn lemma_isum_take_succ(s: Seq<int>, i: int)
    requires
        0 <= i < s.len(),
    ensures
        isum(s.take(i + 1)) == isum(s.take(i)) + s[i],
{
    assert(s.take(i + 1).drop_last() =~= s.take(i));
    assert(s.take(i + 1).last() == s[i]);
}

/// Removing one element takes exactly its value out of the sum.
pub proof fn lemma_isum_remove(s: Seq<int>, k: int)
    requires
        0 <= k < s.len(),
    ensures
        isum(s.remove(k)) == isum(s) - s[k],
    decreases s.len(),
{
    if k == s.len() - 1 {
        assert(s.remove(k) =~= s.drop_last());
    } else {
        assert(s.remove(k).drop_last() =~= s.drop_last().remove(k));
        assert(s.remove(k).last() == s.last());
        lemma_isum_remove(s.drop_last(), k);
    }
}

/// A sum of integers does not depend on the order of its terms: reading the
/// terms of `a` through any bijective index map gives the same sum.
pub proof fn lemma_isum_permutation(a: Seq<int>, b: Seq<int>, p: Seq<int>)
    requires
        b.len() == a.len(),
        p.len() == a.len(),
        forall|i: int| 0 <= i < p.len() ==> 0 <= #[trigger] p[i] < p.len(),
        forall|i: int, j: int| 0 <= i < j < p.len() ==> p[i] != p[j],
        forall|i: int| 0 <= i < p.len() ==> #[trigger] b[i] == a[p[i]],
    ensures
        isum(a) == isum(b),
    decreases a.len(),
{
    if a.len() == 0 {
    } else {
        let last = a.len() - 1;
        let k = p[last];
        let a2 = a.remove(k);
        let b2 = b.drop_last();
        let p2 = Seq::new(
            (p.len() - 1) as nat,
            |i: int| if p[i] < k {
                p[i]
            } else {
                p[i] - 1
            },
        );
        assert forall|i: int| 0 <= i < p2.len() implies 0 <= #[trigger] p2[i] < p2.len() by {
            assert(p[i] != p[last]);
        }
        assert forall|i: int, j: int| 0 <= i < j < p2.len() implies p2[i] != p2[j] by {
            assert(p[i] != p[j]);
        }
        assert forall|i: int| 0 <= i < p2.len() implies #[trigger] b2[i] == a2[p2[i]] by {
            assert(b[i] == a[p[i]]);
            assert(p[i] != k);
            if p[i] < k {
                assert(a2[p2[i]] == a[p[i]]);
            } else {
                assert(a2[p2[i]] == a[p[i]]);
            }
        }
        lemma_isum_permutation(a2, b2, p2);
        lemma_isum_remove(a, k);
        assert(isum(b) == isum(b2) + b[last]);
        assert(b[last] == a[k]);
    }
}

} // verus!
