//! The ordinary-least-squares engine over a concrete float scalar, with
//! `linfa_linalg` and `statrs` behind the backend.

use amita::backend::{Backend, InversionError};
use amita::errors::AmitaError;
use amita::matrix::Mat;
use amita::ols::{OLSResults, OLSSolver, SEType};
use amita::scalar::Scalar;
use amita::traits::{Solver, SolverResults};

use linfa_linalg::qr::QR;
use ndarray::{Array1, Array2};
use statrs::distribution::{ContinuousCDF, StudentsT};

#[derive(Clone, Copy, Debug, PartialEq)]
struct Fx(f64);

impl Scalar for Fx {
    fn zero() -> Self {
        Fx(0.0)
    }
    fn one() -> Self {
        Fx(1.0)
    }
    fn from_count(n: usize) -> Self {
        Fx(n as f64)
    }
    fn plus(self, other: Self) -> Self {
        Fx(self.0 + other.0)
    }
    fn minus(self, other: Self) -> Self {
        Fx(self.0 - other.0)
    }
    fn times(self, other: Self) -> Self {
        Fx(self.0 * other.0)
    }
    fn divided_by(self, other: Self) -> Self {
        Fx(self.0 / other.0)
    }
    fn neg(self) -> Self {
        Fx(-self.0)
    }
    fn sqrt(self) -> Self {
        Fx(self.0.sqrt())
    }
    fn exp(self) -> Self {
        Fx(self.0.exp())
    }
    fn ln(self) -> Self {
        Fx(self.0.ln())
    }
    fn abs(self) -> Self {
        Fx(self.0.abs())
    }
    fn le(self, other: Self) -> bool {
        self.0 <= other.0
    }
    fn render(self) -> String {
        format!("{}", self.0)
    }
}

#[derive(Debug)]
struct NdBackend;

fn mat_to_nd(m: &Mat<Fx>) -> Array2<f64> {
    Array2::from_shape_fn((m.rows(), m.cols()), |(i, j)| m.get(i, j).0)
}

fn nd_to_mat(a: &Array2<f64>) -> Mat<Fx> {
    let mut rows: Vec<Vec<Fx>> = Vec::new();
    for i in 0..a.nrows() {
        let mut row: Vec<Fx> = Vec::new();
        for j in 0..a.ncols() {
            row.push(Fx(a[(i, j)]));
        }
        rows.push(row);
    }
    Mat::from_rows(a.ncols(), rows).unwrap()
}

impl Backend<Fx> for NdBackend {
    fn qr(&self, m: &Mat<Fx>) -> Option<(Mat<Fx>, Mat<Fx>)> {
        let a = mat_to_nd(m);
        let decomp = a.qr().ok()?;
        let q = decomp.generate_q();
        let r = decomp.into_r();
        Some((nd_to_mat(&q), nd_to_mat(&r)))
    }

    fn invert(&self, m: &Mat<Fx>) -> Result<Mat<Fx>, InversionError> {
        let a = mat_to_nd(m);
        let decomp = a.qr().map_err(|_| InversionError::NotDecomposable)?;
        let inv = decomp.inverse().map_err(|_| InversionError::Singular)?;
        Ok(nd_to_mat(&inv))
    }

    fn students_t_cdf(&self, x: Fx, df: Fx) -> Fx {
        let dist = StudentsT::new(0.0, 1.0, df.0).unwrap();
        Fx(dist.cdf(x.0))
    }

    fn minimize_logit(
        &self,
        _x: &Mat<Fx>,
        _y: &Vec<Fx>,
        _init: Vec<Fx>,
        _max_iter: u64,
        _tol: Fx,
    ) -> Option<Vec<Fx>> {
        None
    }
}

fn mk_mat(rows: Vec<Vec<f64>>) -> Mat<Fx> {
    let width = rows[0].len();
    let data: Vec<Vec<Fx>> = rows
        .into_iter()
        .map(|r| r.into_iter().map(Fx).collect())
        .collect();
    Mat::from_rows(width, data).unwrap()
}

fn mk_vec(v: Vec<f64>) -> Vec<Fx> {
    v.into_iter().map(Fx).collect()
}

fn floats(v: &[Fx]) -> Vec<f64> {
    v.iter().map(|x| x.0).collect()
}

fn solved(
    y: Vec<f64>,
    x: Vec<Vec<f64>>,
    se_type: SEType,
) -> OLSResults<Fx> {
    let solver = OLSSolver::new(mk_vec(y), mk_mat(x), NdBackend).unwrap();
    let solver = solver.with_se_type(se_type);
    assert!(solver.can_solve());
    let solver = solver.solve().unwrap();
    solver.results()
}

#[test]
fn exact_data_recovers_the_coefficients() {
    // y = 2 + 0.5 x, no noise: the fit must be exact.
    let x = vec![
        vec![1.0, 1.0],
        vec![1.0, 2.0],
        vec![1.0, 3.0],
        vec![1.0, 4.0],
    ];
    let y = vec![2.5, 3.0, 3.5, 4.0];
    let results = solved(y, x, SEType::NonRobust);
    let coef = floats(&results.coef().unwrap());
    assert!((coef[0] - 2.0).abs() < 1e-8);
    assert!((coef[1] - 0.5).abs() < 1e-8);
    let resid = floats(&results.resid().unwrap());
    for e in resid {
        assert!(e.abs() < 1e-8);
    }
    let r_sq = results.r_sq().unwrap().0;
    assert!(r_sq > 0.999999);
    let r_sq_adj = results.r_sq_adj().unwrap().0;
    assert!(r_sq_adj > 0.999999);
    let y_pred = floats(&results.y_pred().unwrap());
    assert!((y_pred[0] - 2.5).abs() < 1e-8);
    assert!((y_pred[3] - 4.0).abs() < 1e-8);
}

#[test]
fn qr_route_matches_the_normal_equations() {
    let x_rows = vec![
        vec![1.0, 3.1],
        vec![1.0, -2.2],
        vec![1.0, 5.7],
        vec![1.0, 0.4],
        vec![1.0, -1.9],
        vec![1.0, 2.8],
    ];
    let y_vals = vec![4.1, -0.7, 9.3, 1.2, -0.5, 3.9];
    let results = solved(y_vals.clone(), x_rows.clone(), SEType::NonRobust);
    let coef = floats(&results.coef().unwrap());

    // The normal-equation solution (XᵗX)⁻¹Xᵗy, computed independently.
    let n = x_rows.len();
    let x = Array2::from_shape_fn((n, 2), |(i, j)| x_rows[i][j]);
    let y = Array1::from_vec(y_vals);
    let xtx = x.t().dot(&x);
    let xty = x.t().dot(&y);
    let xtx_inv = xtx.qr().unwrap().inverse().unwrap();
    let beta = xtx_inv.dot(&xty);
    assert!((coef[0] - beta[0]).abs() < 1e-8);
    assert!((coef[1] - beta[1]).abs() < 1e-8);
}

#[test]
fn homoscedastic_se_matches_the_closed_form() {
    // X = [1 0; 1 1; 1 2; 1 3], y = [0, 1, 2, 4]:
    // (XᵗX)⁻¹ = [[0.7, -0.3], [-0.3, 0.2]], β = [-0.2, 1.3],
    // e = [0.2, -0.1, -0.4, 0.3], σ² = 0.3/2 = 0.15,
    // SE = [sqrt(0.105), sqrt(0.03)].
    let x = vec![
        vec![1.0, 0.0],
        vec![1.0, 1.0],
        vec![1.0, 2.0],
        vec![1.0, 3.0],
    ];
    let y = vec![0.0, 1.0, 2.0, 4.0];
    let results = solved(y, x, SEType::NonRobust);
    let coef = floats(&results.coef().unwrap());
    assert!((coef[0] - (-0.2)).abs() < 1e-9);
    assert!((coef[1] - 1.3).abs() < 1e-9);
    let se = floats(&results.se().unwrap());
    assert!((se[0] - 0.105f64.sqrt()).abs() < 1e-9);
    assert!((se[1] - 0.03f64.sqrt()).abs() < 1e-9);

    // t = β/SE, and the two-sided p-value through Student's t with one
    // degree of freedom, which is the Cauchy distribution:
    // p = 2·(1/2 − atan(|t|)/π).
    let t = floats(&results.t().unwrap());
    let expected_t0 = -0.2 / 0.105f64.sqrt();
    let expected_t1 = 1.3 / 0.03f64.sqrt();
    assert!((t[0] - expected_t0).abs() < 1e-9);
    assert!((t[1] - expected_t1).abs() < 1e-9);
    let p = floats(&results.p_vals().unwrap());
    let pi = std::f64::consts::PI;
    let expected_p0 = 2.0 * (0.5 - expected_t0.abs().atan() / pi);
    let expected_p1 = 2.0 * (0.5 - expected_t1.abs().atan() / pi);
    assert!((p[0] - expected_p0).abs() < 1e-6);
    assert!((p[1] - expected_p1).abs() < 1e-6);
}

#[test]
fn hc1_se_matches_the_sandwich_formula() {
    let x_rows = vec![
        vec![1.0, 0.0],
        vec![1.0, 1.0],
        vec![1.0, 2.0],
        vec![1.0, 3.0],
    ];
    let y_vals = vec![0.0, 1.0, 2.0, 4.0];
    let results = solved(y_vals, x_rows.clone(), SEType::HC1);
    let se = floats(&results.se().unwrap());

    // Independent sandwich: (XᵗX)⁻¹ = [[0.7,-0.3],[-0.3,0.2]],
    // e = [0.2, -0.1, -0.4, 0.3], B = Σ eᵢ² xᵢ xᵢᵗ, scale n/(n-p) = 2.
    let a = [[0.7, -0.3], [-0.3, 0.2]];
    let e = [0.2, -0.1, -0.4, 0.3];
    let mut b = [[0.0, 0.0], [0.0, 0.0]];
    for i in 0..4 {
        let xi = &x_rows[i];
        for r in 0..2 {
            for c in 0..2 {
                b[r][c] += e[i] * e[i] * xi[r] * xi[c];
            }
        }
    }
    let mut ab = [[0.0, 0.0], [0.0, 0.0]];
    for r in 0..2 {
        for c in 0..2 {
            for k in 0..2 {
                ab[r][c] += a[r][k] * b[k][c];
            }
        }
    }
    let mut v = [[0.0, 0.0], [0.0, 0.0]];
    for r in 0..2 {
        for c in 0..2 {
            for k in 0..2 {
                v[r][c] += ab[r][k] * a[k][c];
            }
        }
    }
    let scale = 4.0 / 2.0;
    assert!((se[0] - (scale * v[0][0]).sqrt()).abs() < 1e-8);
    assert!((se[1] - (scale * v[1][1]).sqrt()).abs() < 1e-8);
}

#[test]
fn leverage_corrected_variants_differ() {
    let x = vec![
        vec![1.0, 0.0],
        vec![1.0, 1.0],
        vec![1.0, 2.0],
        vec![1.0, 7.0],
    ];
    let y = vec![0.3, 1.2, 2.1, 4.4];
    let se1 = floats(&solved(y.clone(), x.clone(), SEType::HC1).se().unwrap());
    let se2 = floats(&solved(y.clone(), x.clone(), SEType::HC2).se().unwrap());
    let se3 = floats(&solved(y.clone(), x.clone(), SEType::HC3).se().unwrap());
    let se_robust = floats(&solved(y, x, SEType::Robust).se().unwrap());
    // The Robust alias is HC3; the leverage corrections inflate the
    // standard errors strictly, so the three variants differ.
    assert_eq!(se3, se_robust);
    assert!(se2[1] > 0.0 && se3[1] > se2[1]);
    assert!(se1 != se2 && se2 != se3);
}

#[test]
fn clustered_se_solves_with_dense_tags() {
    let x = vec![
        vec![1.0, 0.5],
        vec![1.0, 1.5],
        vec![1.0, 2.5],
        vec![1.0, 3.0],
        vec![1.0, 4.2],
        vec![1.0, 5.1],
    ];
    let y = vec![0.4, 1.6, 2.4, 3.1, 4.0, 5.3];
    let tags = vec![0, 0, 1, 1, 2, 2];
    let results = solved(y, x, SEType::Clustered { by: tags });
    let se = floats(&results.se().unwrap());
    assert!(se[0].is_finite() && se[0] > 0.0);
    assert!(se[1].is_finite() && se[1] > 0.0);
}

#[test]
fn mismatched_observation_counts_are_rejected() {
    let x = mk_mat(vec![vec![1.0, 0.0], vec![1.0, 1.0], vec![1.0, 2.0], vec![1.0, 3.0]]);
    let y = mk_vec(vec![1.0, 2.0, 3.0]);
    let err = OLSSolver::new(y, x, NdBackend).unwrap_err();
    assert_eq!(err, AmitaError::NotSameObservations);
}

#[test]
fn accessors_fail_before_solving() {
    let x = mk_mat(vec![vec![1.0, 0.0], vec![1.0, 1.0], vec![1.0, 2.0], vec![1.0, 3.0]]);
    let y = mk_vec(vec![1.0, 2.0, 3.0, 4.0]);
    let solver = OLSSolver::new(y, x, NdBackend).unwrap();
    let results = solver.results();
    assert_eq!(results.coef().unwrap_err(), AmitaError::NotSolved);
    assert_eq!(results.se().unwrap_err(), AmitaError::NotSolved);
    assert_eq!(results.t().unwrap_err(), AmitaError::NotSolved);
    assert_eq!(results.p_vals().unwrap_err(), AmitaError::NotSolved);
    assert_eq!(results.summary().unwrap_err(), AmitaError::NotSolved);
    assert_eq!(results.r_sq().unwrap_err(), AmitaError::NotSolved);
}

#[test]
fn too_few_observations_cannot_be_solved() {
    let x = mk_mat(vec![vec![1.0, 0.0], vec![1.0, 1.0], vec![1.0, 2.0]]);
    let y = mk_vec(vec![1.0, 2.0, 3.0]);
    let solver = OLSSolver::new(y, x, NdBackend).unwrap();
    // Three observations of two regressors leave no residual degree of
    // freedom for the inference stage.
    assert!(!solver.can_solve());
}

#[test]
fn summary_is_available_once_solved() {
    let x = vec![
        vec![1.0, 0.0],
        vec![1.0, 1.0],
        vec![1.0, 2.0],
        vec![1.0, 3.0],
    ];
    let y = vec![0.0, 1.0, 2.0, 4.0];
    let results = solved(y, x, SEType::NonRobust);
    let text = results.summary().unwrap();
    assert!(text.contains("coefficients"));
    assert!(text.contains("standard errors"));
}

#[test]
fn clustered_tags_must_align_with_the_observations() {
    let x = mk_mat(vec![vec![1.0, 0.0], vec![1.0, 1.0], vec![1.0, 2.0], vec![1.0, 3.0]]);
    let y = mk_vec(vec![1.0, 2.0, 3.0, 4.0]);
    let solver = OLSSolver::new(y, x, NdBackend).unwrap();
    let short = solver.with_se_type(SEType::Clustered { by: vec![0, 0, 1] });
    assert!(!short.can_solve());
    let negative = short.with_se_type(SEType::Clustered { by: vec![0, 0, -1, 1] });
    assert!(!negative.can_solve());
    let dense = negative.with_se_type(SEType::Clustered { by: vec![0, 0, 1, 1] });
    assert!(dense.can_solve());
}
