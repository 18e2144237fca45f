//! The logit engine over a concrete float scalar, with `argmin`'s
//! quasi-Newton search and `linfa_linalg` behind the backend.

use amita::backend::{Backend, InversionError};
use amita::errors::AmitaError;
use amita::logit::{logit_cost, logit_gradient, LogitSolver};
use amita::math::sigmoid;
use amita::matrix::Mat;
use amita::scalar::Scalar;
use amita::traits::{Solver, SolverResults};

use argmin::solver::linesearch::MoreThuenteLineSearch;
use argmin::solver::quasinewton::LBFGS;
use linfa_linalg::qr::QR;
use ndarray::Array2;
use statrs::distribution::{ContinuousCDF, StudentsT};

#[derive(Clone, Copy, Debug, PartialEq)]
struct Fx(f64);

impl Scalar for Fx {
    fn zero() -> Self {
        Fx(0.0)
    }
    fn one() -> Self {
        Fx(1.0)
    }
    fn from_count(n: usize) -> Self {
        Fx(n as f64)
    }
    fn plus(self, other: Self) -> Self {
        Fx(self.0 + other.0)
    }
    fn minus(self, other: Self) -> Self {
        Fx(self.0 - other.0)
    }
    fn times(self, other: Self) -> Self {
        Fx(self.0 * other.0)
    }
    fn divided_by(self, other: Self) -> Self {
        Fx(self.0 / other.0)
    }
    fn neg(self) -> Self {
        Fx(-self.0)
    }
    fn sqrt(self) -> Self {
        Fx(self.0.sqrt())
    }
    fn exp(self) -> Self {
        Fx(self.0.exp())
    }
    fn ln(self) -> Self {
        Fx(self.0.ln())
    }
    fn abs(self) -> Self {
        Fx(self.0.abs())
    }
    fn le(self, other: Self) -> bool {
        self.0 <= other.0
    }
    fn render(self) -> String {
        format!("{}", self.0)
    }
}

fn clone_mat(m: &Mat<Fx>) -> Mat<Fx> {
    let mut rows: Vec<Vec<Fx>> = Vec::new();
    for i in 0..m.rows() {
        let mut row: Vec<Fx> = Vec::new();
        for j in 0..m.cols() {
            row.push(m.get(i, j));
        }
        rows.push(row);
    }
    Mat::from_rows(m.cols(), rows).unwrap()
}

struct NllProblem {
    x: Mat<Fx>,
    y: Vec<Fx>,
}

impl argmin::core::CostFunction for NllProblem {
    type Param = Vec<f64>;
    type Output = f64;

    fn cost(&self, param: &Vec<f64>) -> Result<f64, argmin::core::Error> {
        let p: Vec<Fx> = param.iter().map(|v| Fx(*v)).collect();
        Ok(logit_cost(&self.x, &self.y, &p).0)
    }
}

impl argmin::core::Gradient for NllProblem {
    type Param = Vec<f64>;
    type Gradient = Vec<f64>;

    fn gradient(&self, param: &Vec<f64>) -> Result<Vec<f64>, argmin::core::Error> {
        let p: Vec<Fx> = param.iter().map(|v| Fx(*v)).collect();
        Ok(logit_gradient(&self.x, &self.y, &p).iter().map(|v| v.0).collect())
    }
}

#[derive(Debug)]
struct ArgminBackend;

fn mat_to_nd(m: &Mat<Fx>) -> Array2<f64> {
    Array2::from_shape_fn((m.rows(), m.cols()), |(i, j)| m.get(i, j).0)
}

fn nd_to_mat(a: &Array2<f64>) -> Mat<Fx> {
    let mut rows: Vec<Vec<Fx>> = Vec::new();
    for i in 0..a.nrows() {
        let mut row: Vec<Fx> = Vec::new();
        for j in 0..a.ncols() {
            row.push(Fx(a[(i, j)]));
        }
        rows.push(row);
    }
    Mat::from_rows(a.ncols(), rows).unwrap()
}

impl Backend<Fx> for ArgminBackend {
    fn qr(&self, m: &Mat<Fx>) -> Option<(Mat<Fx>, Mat<Fx>)> {
        let a = mat_to_nd(m);
        let decomp = a.qr().ok()?;
        let q = decomp.generate_q();
        let r = decomp.into_r();
        Some((nd_to_mat(&q), nd_to_mat(&r)))
    }

    fn invert(&self, m: &Mat<Fx>) -> Result<Mat<Fx>, InversionError> {
        let a = mat_to_nd(m);
        let decomp = a.qr().map_err(|_| InversionError::NotDecomposable)?;
        let inv = decomp.inverse().map_err(|_| InversionError::Singular)?;
        Ok(nd_to_mat(&inv))
    }

    fn students_t_cdf(&self, x: Fx, df: Fx) -> Fx {
        let dist = StudentsT::new(0.0, 1.0, df.0).unwrap();
        Fx(dist.cdf(x.0))
    }

    fn minimize_logit(
        &self,
        x: &Mat<Fx>,
        y: &Vec<Fx>,
        init: Vec<Fx>,
        max_iter: u64,
        tol: Fx,
    ) -> Option<Vec<Fx>> {
        let problem = NllProblem { x: clone_mat(x), y: y.clone() };
        let linesearch = MoreThuenteLineSearch::new();
        let solver = LBFGS::new(linesearch, 10).with_tolerance_grad(tol.0).ok()?;
        let init_f: Vec<f64> = init.iter().map(|v| v.0).collect();
        let res = argmin::core::Executor::new(problem, solver)
            .configure(|state| state.param(init_f).max_iters(max_iter).target_cost(0.0))
            .run()
            .ok()?;
        let best = argmin::core::State::get_best_param(res.state())?.clone();
        Some(best.into_iter().map(Fx).collect())
    }
}

/// The fixed two-regressor dataset: an intercept column and one
/// continuous regressor.
fn example_x() -> Mat<Fx> {
    let cont = [3.1, 13.2, -23.5, -4.4, 9.4];
    let mut rows: Vec<Vec<Fx>> = Vec::new();
    for v in cont {
        rows.push(vec![Fx(1.0), Fx(v)]);
    }
    Mat::from_rows(2, rows).unwrap()
}

fn example_y() -> Vec<i32> {
    vec![0, 1, 1, 0, 1]
}

#[test]
fn sigmoid_midpoint_and_tails() {
    assert_eq!(sigmoid(Fx(0.0)).0, 0.5);
    assert!(sigmoid(Fx(50.0)).0 > 1.0 - 1e-12);
    assert!(sigmoid(Fx(-50.0)).0 < 1e-12);
}

#[test]
fn non_binary_response_is_rejected() {
    let x = example_x();
    let err = LogitSolver::new(&vec![0, 1, 2, 0, 1], x, ArgminBackend).unwrap_err();
    assert!(matches!(err, AmitaError::NonBinary { .. }));
}

#[test]
fn single_class_response_is_rejected() {
    let x = example_x();
    let err = LogitSolver::new(&vec![1, 1, 1, 1, 1], x, ArgminBackend).unwrap_err();
    assert!(matches!(err, AmitaError::NonBinary { .. }));
}

#[test]
fn logit_mismatched_observation_counts_are_rejected() {
    let x = example_x();
    let err = LogitSolver::new(&vec![0, 1, 1], x, ArgminBackend).unwrap_err();
    assert_eq!(err, AmitaError::NotSameObservations);
}

#[test]
fn test_logit_solver() -> Result<(), AmitaError> {
    let x = example_x();
    let y = example_y();

    let logit_solver = LogitSolver::new(&y, x, ArgminBackend)?;
    // Before the optimization stage ran, there is no parameter to adopt.
    let err = logit_solver.solve_coef().unwrap_err();
    assert_eq!(err, AmitaError::NotSolved);

    let logit_solver = LogitSolver::new(&y, example_x(), ArgminBackend)?;
    let curvature = logit_solver.second_order_derivative(&vec![Fx(1.0), Fx(2.0)], 1, 1)?;
    println!("{:#?}", curvature.0);
    assert!(curvature.0.is_finite());

    Ok(())
}

#[test]
fn test_hessian() -> Result<(), AmitaError> {
    let x = example_x();
    let y = example_y();

    let logit_solver = LogitSolver::new(&y, x, ArgminBackend).unwrap();
    let logit_solver = logit_solver.solve().unwrap();
    let results = logit_solver.results();
    println!("{:#?}", results.coef().unwrap().iter().map(|v| v.0).collect::<Vec<f64>>());

    assert!(results.coef().is_ok());
    assert!(results.se().is_ok());
    assert!(results.t().is_ok());

    Ok(())
}

#[test]
fn converged_solution_meets_the_tolerance() {
    let x = example_x();
    let y = example_y();
    let solver = LogitSolver::new(&y, x, ArgminBackend).unwrap();
    let solver = solver.solve().unwrap();
    let results = solver.results();
    let coef = results.coef().unwrap();

    // First-order optimality at the solution: the gradient norm is
    // below the default tolerance.
    let g = logit_gradient(&example_x(), &to_float_y(&example_y()), &coef);
    let norm = g.iter().map(|v| v.0 * v.0).sum::<f64>().sqrt();
    assert!(norm <= 1e-4);

    // The optimum improves on the zero starting point.
    let yt = to_float_y(&example_y());
    let at_solution = logit_cost(&example_x(), &yt, &coef).0;
    let at_zero = logit_cost(&example_x(), &yt, &vec![Fx(0.0), Fx(0.0)]).0;
    assert!(at_solution <= at_zero);
}

fn to_float_y(y: &[i32]) -> Vec<Fx> {
    y.iter().map(|v| if *v == 1 { Fx(1.0) } else { Fx(0.0) }).collect()
}

#[test]
fn exhausted_iteration_budget_is_surfaced() {
    let x = example_x();
    let y = example_y();
    let solver = LogitSolver::new(&y, x, ArgminBackend).unwrap();
    let solver = solver.with_max_iter(1).with_max_tolerance(Fx(1e-12));
    match solver.solve() {
        Err(AmitaError::NotConverged) => {},
        Err(e) => panic!("unexpected failure: {:?}", e),
        Ok(_) => panic!("one iteration cannot reach the tolerance"),
    }
}

#[test]
fn p_values_stay_unpopulated() {
    let x = example_x();
    let y = example_y();
    let solver = LogitSolver::new(&y, x, ArgminBackend).unwrap();
    let solver = solver.solve().unwrap();
    let results = solver.results();
    assert_eq!(results.p_vals().unwrap_err(), AmitaError::NotSolved);
    assert!(results.summary().unwrap().contains("t-statistics"));
}
