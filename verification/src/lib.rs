//! Least-squares estimation of the 2D similarity transform (uniform scale,
//! proper rotation, translation) that best maps one ordered point set onto
//! another, by the closed-form covariance-decomposition method.
//!
//! Coordinates are exact rationals (integer numerators over a common
//! denominator), so every arithmetic step of the estimation is exact and
//! carries a proved contract.  The singular value decomposition of the
//! cross-covariance matrix is an external capability: the caller computes
//! it with whatever backend it has and hands the factors in as data.
//! Estimation is therefore split in two calls: `moments` reduces the two
//! point sets to centroid sums, variance and cross-covariance, and
//! `estimate` turns those moments and the decomposition factors into the
//! transform, or into one of the distinct failure outcomes.

pub mod data;
pub mod estimator;
pub mod laws;
pub mod model;

pub use data::Diag2;
pub use data::Failure;
pub use data::Mat2;
pub use data::Point;
pub use data::PointSet;
pub use data::Q;
pub use data::Rotation;
pub use data::Similarity;
pub use data::SvdFactors;
pub use data::SvdInput;
pub use data::point_slice_to_matrix;
pub use estimator::Moments;
pub use estimator::correction_signs;
pub use estimator::covariance_denominator;
pub use estimator::estimate;
pub use estimator::moments;
pub use estimator::sigma_denominator;
