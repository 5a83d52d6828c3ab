//! Data types for two-dimensional similarity estimation.
//!
//! All coordinates are exact rationals: integer numerators over a positive
//! common denominator.  The numeric bounds in the well-formedness predicates
//! are chosen so that every intermediate value of the estimation fits in a
//! 128-bit signed integer; they are machine limits, not part of the
//! mathematical model.

use vstd::prelude::*;

verus! {

/// Largest number of points a set may hold.
pub const MAX_POINTS: usize = 256;
/// Largest magnitude of a coordinate numerator.
pub const MAX_COORD: i64 = 32768;
/// Largest denominator of a point set.
pub const MAX_POINT_DEN: i64 = 4096;
/// Largest magnitude of an entry numerator of a singular-vector matrix.
pub const MAX_FACTOR_NUM: i64 = 16384;
/// Largest denominator of a singular-vector matrix or of the singular values.
pub const MAX_FACTOR_DEN: i64 = 16384;
/// Largest numerator of a singular value.
pub const MAX_SINGULAR: i64 = 1048576;

/// Why the estimation could not produce a transform.
#[derive(Clone, Copy, Debug, PartialEq, Eq, Structural)]
pub enum Failure {
    /// The two point sets do not have the same, nonzero number of points.
    PreconditionViolation,
    /// The singular value decomposition delivered no left singular vectors.
    NoLeftSingularVectors,
    /// The singular value decomposition delivered no right singular vectors.
    NoRightSingularVectors,
    /// The singular value decomposition did not converge within its budget.
    NotConverged,
}

/// One 2D point: coordinates are `x / den` and `y / den` for the denominator
/// of the set the point goes into.
#[derive(Clone, Copy, Debug, PartialEq, Eq, Structural)]
pub struct Point {
    pub x: i64,
    pub y: i64,
}

/// An ordered set of 2D points, kept as a 2-row layout: `xs` is the row of
/// x-coordinate numerators, `ys` the row of y-coordinate numerators, and
/// `den` the common positive denominator.  Point `i` is
/// `(xs[i] / den, ys[i] / den)`.
#[derive(Clone, Debug)]
pub struct PointSet {
    pub den: i64,
    pub xs: Vec<i64>,
    pub ys: Vec<i64>,
}

impl PointSet {
    /// The number of points.
    pub open spec fn count(self) -> int {
        self.xs@.len() as int
    }

    /// Rows of equal length, bounded size, positive bounded denominator,
    /// bounded coordinate numerators.
    pub open spec fn wf(self) -> bool {
        &&& self.xs@.len() == self.ys@.len()
        &&& self.xs@.len() <= MAX_POINTS
        &&& 1 <= self.den <= MAX_POINT_DEN
        &&& forall|i: int| 0 <= i < self.xs@.len() ==> -MAX_COORD <= #[trigger] self.xs@[i] <= MAX_COORD
        &&& forall|i: int| 0 <= i < self.ys@.len() ==> -MAX_COORD <= #[trigger] self.ys@[i] <= MAX_COORD
    }
}

/// A 2x2 matrix of rationals with one common positive denominator:
/// entry `(r, c)` is `m{r}{c} / den`.
#[derive(Clone, Copy, Debug, PartialEq, Eq, Structural)]
pub struct Mat2 {
    pub den: i64,
    pub m00: i64,
    pub m01: i64,
    pub m10: i64,
    pub m11: i64,
}

impl Mat2 {
    pub open spec fn wf(self) -> bool {
        &&& 1 <= self.den <= MAX_FACTOR_DEN
        &&& -MAX_FACTOR_NUM <= self.m00 <= MAX_FACTOR_NUM
        &&& -MAX_FACTOR_NUM <= self.m01 <= MAX_FACTOR_NUM
        &&& -MAX_FACTOR_NUM <= self.m10 <= MAX_FACTOR_NUM
        &&& -MAX_FACTOR_NUM <= self.m11 <= MAX_FACTOR_NUM
    }
}

/// The two singular values of a 2x2 matrix, as nonnegative rationals
/// `d0 / den` and `d1 / den`.
#[derive(Clone, Copy, Debug, PartialEq, Eq, Structural)]
pub struct Diag2 {
    pub den: i64,
    pub d0: i64,
    pub d1: i64,
}

impl Diag2 {
    pub open spec fn wf(self) -> bool {
        &&& 1 <= self.den <= MAX_FACTOR_DEN
        &&& 0 <= self.d0 <= MAX_SINGULAR
        &&& 0 <= self.d1 <= MAX_SINGULAR
    }
}

/// What a converged singular value decomposition of the cross-covariance
/// delivered: left singular vectors `u` and right singular vectors `vt`
/// may each be missing, the singular values are always present.
#[derive(Clone, Copy, Debug, PartialEq, Eq, Structural)]
pub struct SvdFactors {
    pub u: Option<Mat2>,
    pub vt: Option<Mat2>,
    pub d: Diag2,
}

impl SvdFactors {
    pub open spec fn wf(self) -> bool {
        &&& match self.u {
            Option::Some(u) => u.wf(),
            Option::None => true,
        }
        &&& match self.vt {
            Option::Some(vt) => vt.wf(),
            Option::None => true,
        }
        &&& self.d.wf()
    }
}

/// The outcome of the externally computed singular value decomposition of
/// the cross-covariance matrix, handed in by the caller.
#[derive(Clone, Copy, Debug, PartialEq, Eq, Structural)]
pub enum SvdInput {
    /// The decomposition did not converge within its iteration budget at the
    /// requested tolerance.
    NotConverged,
    /// The decomposition converged and delivered these factors.
    Factors(SvdFactors),
}

impl SvdInput {
    pub open spec fn wf(self) -> bool {
        match self {
            SvdInput::NotConverged => true,
            SvdInput::Factors(f) => f.wf(),
        }
    }
}

/// An exact rational number `num / den` with a positive denominator.
#[derive(Clone, Copy, Debug, PartialEq, Eq, Structural)]
pub struct Q {
    pub num: i128,
    pub den: i128,
}

impl Q {
    pub open spec fn wf(self) -> bool {
        self.den > 0
    }
}

/// A 2x2 matrix of rationals over one positive denominator, holding the
/// estimated rotation: entry `(r, c)` is `m{r}{c} / den`.
#[derive(Clone, Copy, Debug, PartialEq, Eq, Structural)]
pub struct Rotation {
    pub den: i128,
    pub m00: i128,
    pub m01: i128,
    pub m10: i128,
    pub m11: i128,
}

impl Rotation {
    pub open spec fn wf(self) -> bool {
        self.den > 0
    }
}

/// The estimated similarity transform: a point `p` of the `from` set is
/// mapped to `scale * rotation * p + (tx, ty)`.
#[derive(Clone, Copy, Debug, PartialEq, Eq, Structural)]
pub struct Similarity {
    pub rotation: Rotation,
    pub scale: Q,
    pub tx: Q,
    pub ty: Q,
}

impl Similarity {
    pub open spec fn wf(self) -> bool {
        &&& self.rotation.wf()
        &&& self.scale.wf()
        &&& self.tx.wf()
        &&& self.ty.wf()
    }
}

/// Stacks an ordered list of 2D points into the 2-row set layout the
/// estimator takes, checking the machine-limit bounds.  Returns `None`
/// exactly when the denominator, the number of points or a coordinate
/// numerator is out of range.
pub fn point_slice_to_matrix(points: &Vec<Point>, den: i64) -> (r: Option<PointSet>)
    ensures
        r is Some <==> {
            &&& 1 <= den <= MAX_POINT_DEN
            &&& points@.len() <= MAX_POINTS
            &&& forall|i: int|
                0 <= i < points@.len() ==> -MAX_COORD <= #[trigger] points@[i].x <= MAX_COORD
            &&& forall|i: int|
                0 <= i < points@.len() ==> -MAX_COORD <= #[trigger] points@[i].y <= MAX_COORD
        },
        r matches Some(ps) ==> {
            &&& ps.wf()
            &&& ps.den == den
            &&& ps.xs@.len() == points@.len()
            &&& forall|i: int| 0 <= i < points@.len() ==> #[trigger] ps.xs@[i] == points@[i].x
            &&& forall|i: int| 0 <= i < points@.len() ==> #[trigger] ps.ys@[i] == points@[i].y
        },
{
    if den < 1 || den > MAX_POINT_DEN {
        return None;
    }
    if points.len() > MAX_POINTS {
        return None;
    }
    let mut xs: Vec<i64> = Vec::new();
    let mut ys: Vec<i64> = Vec::new();
    let mut i: usize = 0;
    while i < points.len()
        invariant
            i <= points@.len(),
            points@.len() <= MAX_POINTS,
            xs@.len() == i,
            ys@.len() == i,
            forall|j: int| 0 <= j < i ==> -MAX_COORD <= #[trigger] points@[j].x <= MAX_COORD,
            forall|j: int| 0 <= j < i ==> -MAX_COORD <= #[trigger] points@[j].y <= MAX_COORD,
            forall|j: int| 0 <= j < i ==> #[trigger] xs@[j] == points@[j].x,
            forall|j: int| 0 <= j < i ==> #[trigger] ys@[j] == points@[j].y,
        decreases points@.len() - i,
    {
        let p = points[i];
        if p.x < -MAX_COORD || p.x > MAX_COORD || p.y < -MAX_COORD || p.y > MAX_COORD {
            return None;
        }
        xs.push(p.x);
        ys.push(p.y);
        i = i + 1;
    }
    Some(PointSet { den, xs, ys })
}

} // verus!
