use nalgebra::Matrix2;
use similarity_least_squares::correction_signs;
use similarity_least_squares::covariance_denominator;
use similarity_least_squares::estimate;
use similarity_least_squares::moments;
use similarity_least_squares::point_slice_to_matrix;
use similarity_least_squares::Diag2;
use similarity_least_squares::Failure;
use similarity_least_squares::Mat2;
use similarity_least_squares::Point;
use similarity_least_squares::PointSet;
use similarity_least_squares::Similarity;
use similarity_least_squares::SvdFactors;
use similarity_least_squares::SvdInput;

const PDEN: i64 = 4096;
const FDEN: i64 = 16384;

fn quantize(pts: &[(f64, f64)], den: i64) -> PointSet {
    let v: Vec<Point> = pts
        .iter()
        .map(|&(x, y)| Point {
            x: (x * den as f64).round() as i64,
            y: (y * den as f64).round() as i64,
        })
        .collect();
    point_slice_to_matrix(&v, den).expect("points out of range")
}

fn mat_q(m: &Matrix2<f64>, den: i64) -> Mat2 {
    Mat2 {
        den,
        m00: (m[(0, 0)] * den as f64).round() as i64,
        m01: (m[(0, 1)] * den as f64).round() as i64,
        m10: (m[(1, 0)] * den as f64).round() as i64,
        m11: (m[(1, 1)] * den as f64).round() as i64,
    }
}

fn decompose(m: &similarity_least_squares::Moments) -> SvdInput {
    let cd = covariance_denominator(m) as f64;
    let cov = Matrix2::new(
        m.c00 as f64 / cd,
        m.c01 as f64 / cd,
        m.c10 as f64 / cd,
        m.c11 as f64 / cd,
    );
    let svd = nalgebra::SVD::try_new_unordered(cov, true, true, 1.0e-12, 250)
        .expect("svd did not converge");
    let u = svd.u.as_ref().map(|u| mat_q(u, FDEN));
    let vt = svd.v_t.as_ref().map(|v| mat_q(v, FDEN));
    let d = Diag2 {
        den: FDEN,
        d0: (svd.singular_values[0] * FDEN as f64).round() as i64,
        d1: (svd.singular_values[1] * FDEN as f64).round() as i64,
    };
    SvdInput::Factors(SvdFactors { u, vt, d })
}

fn run(from: &[(f64, f64)], to: &[(f64, f64)]) -> Result<Similarity, Failure> {
    let f = quantize(from, PDEN);
    let t = quantize(to, PDEN);
    let m = moments(&f, &t)?;
    estimate(&m, &decompose(&m))
}

fn rot_entries(s: &Similarity) -> (f64, f64, f64, f64) {
    let den = s.rotation.den as f64;
    (
        s.rotation.m00 as f64 / den,
        s.rotation.m01 as f64 / den,
        s.rotation.m10 as f64 / den,
        s.rotation.m11 as f64 / den,
    )
}

fn scale_of(s: &Similarity) -> f64 {
    s.scale.num as f64 / s.scale.den as f64
}

fn translation_of(s: &Similarity) -> (f64, f64) {
    (
        s.tx.num as f64 / s.tx.den as f64,
        s.ty.num as f64 / s.ty.den as f64,
    )
}

fn apply(scale: f64, angle: f64, t: (f64, f64), p: (f64, f64)) -> (f64, f64) {
    let (c, s) = (angle.cos(), angle.sin());
    (
        scale * (c * p.0 - s * p.1) + t.0,
        scale * (s * p.0 + c * p.1) + t.1,
    )
}

fn base_points() -> Vec<(f64, f64)> {
    vec![
        (0.0, 0.0),
        (1.0, 1.0),
        (-2.0, 0.0),
        (2.0, -0.5),
        (-1.0, -1.0),
        (1.0, 0.0),
        (0.0, 1.0),
    ]
}

#[test]
fn check_find_similarity() {
    let from = base_points();
    let angles = [
        0.0f64,
        std::f64::consts::FRAC_PI_2,
        std::f64::consts::FRAC_PI_3,
        std::f64::consts::FRAC_PI_4,
        std::f64::consts::FRAC_PI_6,
    ];
    let scales = [1.0f64, 1.0 / 3.0, 0.5, 1.5, 2.0];
    let xs = [-2.0f64, -1.0, 0.0, 1.0];
    let ys = [-2.0f64, -1.0, 0.0, 1.0];
    for &scale in scales.iter() {
        for &angle in angles.iter() {
            for &x in xs.iter() {
                for &y in ys.iter() {
                    let to: Vec<(f64, f64)> = from
                        .iter()
                        .map(|&p| apply(scale, angle, (x, y), p))
                        .collect();
                    let est = run(&from, &to).expect("estimation failed");
                    let (r00, r01, r10, r11) = rot_entries(&est);
                    let (c, s) = (angle.cos(), angle.sin());
                    assert!((r00 - c).abs() < 1.0e-3, "{:?}", (scale, angle, x, y));
                    assert!((r01 - (-s)).abs() < 1.0e-3);
                    assert!((r10 - s).abs() < 1.0e-3);
                    assert!((r11 - c).abs() < 1.0e-3);
                    assert!((scale_of(&est) - scale).abs() < 1.0e-3);
                    let (tx, ty) = translation_of(&est);
                    assert!((tx - x).abs() < 1.0e-3, "{:?}\n", (scale, angle, x, y));
                    assert!((ty - y).abs() < 1.0e-3);
                }
            }
        }
    }
}

#[test]
fn check_concrete_scenario() {
    let from = base_points();
    let angle = std::f64::consts::FRAC_PI_3;
    let to: Vec<(f64, f64)> = from
        .iter()
        .map(|&p| apply(1.5, angle, (-1.0, 2.0), p))
        .collect();
    let est = run(&from, &to).expect("estimation failed");
    let (r00, r01, r10, r11) = rot_entries(&est);
    assert!((r00 - angle.cos()).abs() < 1.0e-3);
    assert!((r01 + angle.sin()).abs() < 1.0e-3);
    assert!((r10 - angle.sin()).abs() < 1.0e-3);
    assert!((r11 - angle.cos()).abs() < 1.0e-3);
    assert!((scale_of(&est) - 1.5).abs() < 1.0e-3);
    let (tx, ty) = translation_of(&est);
    assert!((tx + 1.0).abs() < 1.0e-3);
    assert!((ty - 2.0).abs() < 1.0e-3);
}

#[test]
fn check_rotation_proper_on_reflection() {
    // A reflective correspondence: the estimator must still return a proper
    // rotation (determinant +1, orthonormal), never a reflection.
    let from = base_points();
    let to: Vec<(f64, f64)> = from
        .iter()
        .map(|&(x, y)| (1.3 * x + 0.3, -1.3 * y - 0.7))
        .collect();
    let est = run(&from, &to).expect("estimation failed");
    let (r00, r01, r10, r11) = rot_entries(&est);
    let det = r00 * r11 - r01 * r10;
    assert!((det - 1.0).abs() < 1.0e-3, "det = {:?}", det);
    assert!((r00 * r00 + r01 * r01 - 1.0).abs() < 1.0e-3);
    assert!((r10 * r10 + r11 * r11 - 1.0).abs() < 1.0e-3);
    assert!((r00 * r10 + r01 * r11).abs() < 1.0e-3);
    assert!(est.scale.num >= 0);
}

#[test]
fn check_permutation_invariance() {
    let from = base_points();
    let angle = std::f64::consts::FRAC_PI_6;
    let to: Vec<(f64, f64)> = from
        .iter()
        .map(|&p| apply(0.75, angle, (0.5, -1.25), p))
        .collect();
    let perm = [3usize, 0, 6, 1, 5, 2, 4];
    let from_p: Vec<(f64, f64)> = perm.iter().map(|&i| from[i]).collect();
    let to_p: Vec<(f64, f64)> = perm.iter().map(|&i| to[i]).collect();
    let a = run(&from, &to).expect("estimation failed");
    let b = run(&from_p, &to_p).expect("estimation failed");
    // Same moments, same decomposition, same transform: equality is exact.
    assert_eq!(a, b);
}

#[test]
fn check_degenerate_scale() {
    // Every `from` point identical: zero variance must not fail and must
    // give scale exactly one.
    let from = vec![(1.0, 2.0); 5];
    let to = vec![
        (0.0, 0.0),
        (1.0, 0.0),
        (0.0, 1.0),
        (-1.0, 0.5),
        (2.0, -2.0),
    ];
    let est = run(&from, &to).expect("estimation failed");
    assert_eq!(est.scale.num, 1);
    assert_eq!(est.scale.den, 1);
    assert!(est.tx.den > 0 && est.ty.den > 0);
    // Translation maps the `from` centroid onto the `to` centroid.
    let (r00, r01, r10, r11) = rot_entries(&est);
    let (mfx, mfy) = (1.0, 2.0);
    let (mtx, mty) = (0.4, -0.1);
    let (tx, ty) = translation_of(&est);
    assert!((tx - (mtx - (r00 * mfx + r01 * mfy))).abs() < 1.0e-3);
    assert!((ty - (mty - (r10 * mfx + r11 * mfy))).abs() < 1.0e-3);
}

#[test]
fn check_dimension_mismatch() {
    let f = quantize(&[(0.0, 0.0), (1.0, 1.0), (2.0, 0.0)], PDEN);
    let t = quantize(&[(0.0, 0.0), (1.0, 1.0)], PDEN);
    assert_eq!(moments(&f, &t), Err(Failure::PreconditionViolation));
    let empty = quantize(&[], PDEN);
    assert_eq!(
        moments(&empty, &empty),
        Err(Failure::PreconditionViolation)
    );
}

#[test]
fn check_svd_failure_mapping() {
    let f = quantize(&[(0.0, 0.0), (1.0, 1.0)], PDEN);
    let t = quantize(&[(1.0, 0.0), (0.0, 1.0)], PDEN);
    let m = moments(&f, &t).expect("moments failed");
    assert_eq!(
        estimate(&m, &SvdInput::NotConverged),
        Err(Failure::NotConverged)
    );
    let d = Diag2 { den: 1, d0: 1, d1: 1 };
    let eye = Mat2 { den: 1, m00: 1, m01: 0, m10: 0, m11: 1 };
    assert_eq!(
        estimate(&m, &SvdInput::Factors(SvdFactors { u: None, vt: Some(eye), d })),
        Err(Failure::NoLeftSingularVectors)
    );
    assert_eq!(
        estimate(&m, &SvdInput::Factors(SvdFactors { u: Some(eye), vt: None, d })),
        Err(Failure::NoRightSingularVectors)
    );
    assert!(estimate(&m, &SvdInput::Factors(SvdFactors { u: Some(eye), vt: Some(eye), d })).is_ok());
}

#[test]
fn check_moments_exact() {
    let f = point_slice_to_matrix(
        &vec![Point { x: 0, y: 0 }, Point { x: 2, y: 0 }],
        1,
    )
    .unwrap();
    let t = point_slice_to_matrix(
        &vec![Point { x: 1, y: 1 }, Point { x: 1, y: 3 }],
        1,
    )
    .unwrap();
    let m = moments(&f, &t).unwrap();
    assert_eq!(m.n, 2);
    assert_eq!(m.df, 1);
    assert_eq!(m.dt, 1);
    assert_eq!(m.sfx, 2);
    assert_eq!(m.sfy, 0);
    assert_eq!(m.stx, 2);
    assert_eq!(m.sty, 4);
    assert_eq!(m.sigma, 8);
    assert_eq!(m.c00, 0);
    assert_eq!(m.c01, 0);
    assert_eq!(m.c10, 8);
    assert_eq!(m.c11, 0);
    assert_eq!(covariance_denominator(&m), 8);
}

#[test]
fn check_point_slice_to_matrix() {
    assert!(point_slice_to_matrix(&vec![Point { x: 0, y: 0 }], 0).is_none());
    assert!(point_slice_to_matrix(&vec![Point { x: 0, y: 0 }], 5000).is_none());
    assert!(point_slice_to_matrix(&vec![Point { x: 40000, y: 0 }], 1).is_none());
    let ps = point_slice_to_matrix(&vec![Point { x: 3, y: -4 }], 2).unwrap();
    assert_eq!(ps.den, 2);
    assert_eq!(ps.xs, vec![3]);
    assert_eq!(ps.ys, vec![-4]);
}

#[test]
fn check_correction_signs() {
    assert_eq!(correction_signs(false, false, false, false), (1, 1));
    assert_eq!(correction_signs(false, true, false, true), (1, 1));
    assert_eq!(correction_signs(true, false, false, false), (-1, 1));
    assert_eq!(correction_signs(true, false, false, true), (1, -1));
    assert_eq!(correction_signs(false, true, true, false), (-1, 1));
    assert_eq!(correction_signs(false, true, true, true), (1, -1));
}
