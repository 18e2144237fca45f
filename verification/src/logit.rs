//! The binary discrete-choice (logit) engine.
//!
//! The model is `P(y = 1 | x) = sigmoid(x·β)`, fitted by maximizing the
//! mean log-likelihood with a quasi-Newton search the backend supplies.
//! Construction validates that the response holds exactly the two values
//! {0, 1}; `solve` runs the optimizer, adopts its final parameter, forms
//! the averaged observed-information matrix, and inverts it for the
//! variance.

use vstd::prelude::*;

verus! {

use vstd::string::StringExecFns;

use crate::backend::{Backend, InversionError};
use crate::errors::AmitaError;
use crate::linalg::{clone_scalars, diag, dot, transpose_times_vec, vec_minus};
use crate::math::sigmoid;
use crate::matrix::Mat;
use crate::scalar::Scalar;
use crate::traits::{ResultsState, Solver, SolverResults};

/// A response is binary when every entry is 0 or 1 and both values are
/// present.
pub open spec fn is_binary_response(s: Seq<i32>) -> bool {
    &&& forall|k: int| 0 <= k < s.len() ==> (#[trigger] s[k] == 0 || s[k] == 1)
    &&& exists|k: int| 0 <= k < s.len() && #[trigger] s[k] == 0
    &&& exists|k: int| 0 <= k < s.len() && #[trigger] s[k] == 1
}

/// The write-once results snapshot of the logit engine. The pipeline
/// populates coefficients, standard errors and t-statistics; it has no
/// p-value stage, so `p_vals` fails with [`AmitaError::NotSolved`].
#[derive(Debug)]
pub struct LogitResults<T> {
    n_obs: usize,
    n_regressors: usize,
    coef: Option<Vec<T>>,
    se: Option<Vec<T>>,
    t: Option<Vec<T>>,
}

impl<T> LogitResults<T> {
    pub closed spec fn spec_n_obs(self) -> nat {
        self.n_obs as nat
    }

    pub closed spec fn spec_n_regressors(self) -> nat {
        self.n_regressors as nat
    }

    pub closed spec fn spec_state(self) -> ResultsState<T> {
        ResultsState {
            coef: crate::ols::view_opt(self.coef),
            se: crate::ols::view_opt(self.se),
            t: crate::ols::view_opt(self.t),
            p_vals: None,
        }
    }

    pub closed spec fn wf(self) -> bool {
        &&& match self.coef {
            Some(v) => v@.len() == self.n_regressors,
            None => true,
        }
        &&& match self.se {
            Some(v) => v@.len() == self.n_regressors,
            None => true,
        }
        &&& match self.t {
            Some(v) => v@.len() == self.n_regressors,
            None => true,
        }
    }

    /// An empty snapshot for `n_obs` observations of `n_regressors`
    /// regressors.
    pub fn empty(n_obs: usize, n_regressors: usize) -> (r: LogitResults<T>)
        ensures
            r.spec_n_obs() == n_obs,
            r.spec_n_regressors() == n_regressors,
            r.spec_state() == (ResultsState::<T> { coef: None, se: None, t: None, p_vals: None }),
            r.wf(),
    {
        LogitResults { n_obs, n_regressors, coef: None, se: None, t: None }
    }
}

impl<T: Scalar> SolverResults<T> for LogitResults<T> {
    open spec fn state(&self) -> ResultsState<T> {
        self.spec_state()
    }

    fn coef(&self) -> (r: Result<Vec<T>, AmitaError>) {
        match &self.coef {
            Some(v) => Ok(clone_scalars(v)),
            None => Err(AmitaError::NotSolved),
        }
    }

    fn se(&self) -> (r: Result<Vec<T>, AmitaError>) {
        match &self.se {
            Some(v) => Ok(clone_scalars(v)),
            None => Err(AmitaError::NotSolved),
        }
    }

    fn t(&self) -> (r: Result<Vec<T>, AmitaError>) {
        match &self.t {
            Some(v) => Ok(clone_scalars(v)),
            None => Err(AmitaError::NotSolved),
        }
    }

    fn p_vals(&self) -> (r: Result<Vec<T>, AmitaError>) {
        Err(AmitaError::NotSolved)
    }

    fn summary(&self) -> (r: Result<String, AmitaError>) {
        match (&self.coef, &self.se, &self.t) {
            (Some(coef), Some(se), Some(t)) => {
                let mut s = "coefficients: ".to_owned();
                s.append(crate::math::render_scalars(coef).as_str());
                s.append("\nstandard errors: ");
                s.append(crate::math::render_scalars(se).as_str());
                s.append("\nt-statistics: ");
                s.append(crate::math::render_scalars(t).as_str());
                Ok(s)
            },
            _ => Err(AmitaError::NotSolved),
        }
    }
}

/// The negative mean log-likelihood
/// `−(1/n)·Σ [yᵢ·ln pᵢ + (1−yᵢ)·ln(1−pᵢ)]` of the coefficients `param`,
/// with `pᵢ = sigmoid(xᵢ·param)`.
pub fn logit_cost<T: Scalar>(x: &Mat<T>, y: &Vec<T>, param: &Vec<T>) -> T
    requires
        y@.len() == x.spec_rows(),
        param@.len() == x.spec_cols(),
{
    let n = x.rows();
    let mut acc = T::zero();
    let mut i: usize = 0;
    while i < n
        invariant
            n == x.spec_rows(),
            y@.len() == n,
            param@.len() == x.spec_cols(),
            i <= n,
        decreases n - i,
    {
        let p = sigmoid(dot(x.row_ref(i), param));
        let pos = y[i].times(p.ln());
        let neg = T::one().minus(y[i]).times(T::one().minus(p).ln());
        acc = acc.plus(pos.plus(neg));
        i = i + 1;
    }
    acc.divided_by(T::from_count(n)).neg()
}

/// The gradient `(1/n)·Xᵗ(p − y)` of the negative mean log-likelihood
/// at `param`.
pub fn logit_gradient<T: Scalar>(x: &Mat<T>, y: &Vec<T>, param: &Vec<T>) -> (r: Vec<T>)
    requires
        y@.len() == x.spec_rows(),
        param@.len() == x.spec_cols(),
    ensures
        r@.len() == x.spec_cols(),
{
    let n = x.rows();
    let mut probs: Vec<T> = Vec::new();
    let mut i: usize = 0;
    while i < n
        invariant
            n == x.spec_rows(),
            y@.len() == n,
            param@.len() == x.spec_cols(),
            i <= n,
            probs@.len() == i,
        decreases n - i,
    {
        probs.push(sigmoid(dot(x.row_ref(i), param)));
        i = i + 1;
    }
    let delta = vec_minus(&probs, y);
    let g = transpose_times_vec(x, &delta);
    let inv_n = T::one().divided_by(T::from_count(n));
    let mut out: Vec<T> = Vec::new();
    let mut k: usize = 0;
    while k < g.len()
        invariant
            k <= g@.len(),
            out@.len() == k,
        decreases g@.len() - k,
    {
        out.push(g[k].times(inv_n));
        k = k + 1;
    }
    out
}

/// The logit engine: the validated inputs, the optimizer's final
/// parameter and the averaged observed information once their stages
/// ran, the optimizer's tunables, the backend, and the growing results
/// snapshot.
#[derive(Debug)]
pub struct LogitSolver<T, B> {
    y: Vec<T>,
    x: Mat<T>,
    hessian: Option<Mat<T>>,
    opt_param: Option<Vec<T>>,
    max_iter: u64,
    max_tolerance: T,
    backend: B,
    results: LogitResults<T>,
}

impl<T, B> LogitSolver<T, B> {
    #[verifier::type_invariant]
    closed spec fn inv(self) -> bool {
        &&& self.y@.len() == self.results.spec_n_obs()
        &&& self.x.spec_rows() == self.results.spec_n_obs()
        &&& self.x.spec_cols() == self.results.spec_n_regressors()
        &&& match self.hessian {
            Some(h) => h.spec_rows() == self.results.spec_n_regressors() && h.spec_cols()
                == self.results.spec_n_regressors(),
            None => true,
        }
        &&& match self.opt_param {
            Some(v) => v@.len() == self.results.spec_n_regressors(),
            None => true,
        }
        &&& self.results.wf()
    }

    pub closed spec fn spec_y(self) -> Seq<T> {
        self.y@
    }

    pub closed spec fn spec_x(self) -> Mat<T> {
        self.x
    }

    pub closed spec fn spec_n_obs(self) -> nat {
        self.results.spec_n_obs()
    }

    pub closed spec fn spec_n_regressors(self) -> nat {
        self.results.spec_n_regressors()
    }

    pub closed spec fn spec_max_iter(self) -> u64 {
        self.max_iter
    }

    pub closed spec fn spec_max_tolerance(self) -> T {
        self.max_tolerance
    }

    pub closed spec fn spec_opt_param(self) -> Option<Seq<T>> {
        crate::ols::view_opt(self.opt_param)
    }

    pub closed spec fn spec_hessian(self) -> Option<Mat<T>> {
        self.hessian
    }

    pub closed spec fn spec_snapshot(self) -> ResultsState<T> {
        self.results.spec_state()
    }

    /// The data, the tunables, and the dimensions of one solver value
    /// agree with another's; only the stage outputs may differ.
    pub open spec fn same_problem(self, other: Self) -> bool {
        &&& self.spec_y() == other.spec_y()
        &&& self.spec_x() == other.spec_x()
        &&& self.spec_max_iter() == other.spec_max_iter()
        &&& self.spec_max_tolerance() == other.spec_max_tolerance()
        &&& self.spec_n_obs() == other.spec_n_obs()
        &&& self.spec_n_regressors() == other.spec_n_regressors()
    }

    /// What [`Solver::solve`] guarantees for this engine: on success,
    /// coefficients (the optimizer's final parameter), standard errors
    /// and t-statistics are populated with the lengths the dimensions
    /// dictate, the information matrix is held, and the data and
    /// tunables are untouched; on failure, the error is the convergence
    /// condition or one of the two numerical conditions.
    pub open spec fn spec_solve_post(self, r: Result<Self, AmitaError>) -> bool {
        match r {
            Ok(s) => {
                &&& s.same_problem(self)
                &&& s.spec_snapshot().coef matches Some(c) && c.len()
                    == self.spec_n_regressors()
                &&& s.spec_snapshot().se matches Some(v) && v.len()
                    == self.spec_n_regressors()
                &&& s.spec_snapshot().t matches Some(v) && v.len()
                    == self.spec_n_regressors()
                &&& s.spec_snapshot().p_vals is None
                &&& s.spec_opt_param() is Some
                &&& s.spec_snapshot().coef == s.spec_opt_param()
                &&& s.spec_hessian() is Some
            },
            Err(e) => {
                ||| e is NotConverged
                ||| (e matches AmitaError::NotQRDecomposable { matrix_name } && matrix_name@
                    == "Information matrix"@)
                ||| (e matches AmitaError::NotInvertible { matrix_name } && matrix_name@
                    == "Information matrix"@)
            },
        }
    }
}

impl<T: Scalar, B: Backend<T>> LogitSolver<T, B> {
    /// Validates that the response and the design matrix agree on the
    /// number of observations and that the response's distinct values
    /// are exactly {0, 1}.
    ///
    /// Fails with [`AmitaError::NotSameObservations`] exactly when the
    /// observation counts differ, and with [`AmitaError::NonBinary`]
    /// exactly when the counts agree but the response is not binary
    /// (a value outside {0, 1}, or a single-class response). Succeeds on
    /// every other input, with the default tunables: an iteration budget
    /// of 1000 and a gradient tolerance of one ten-thousandth.
    pub fn new(y: &Vec<i32>, x: Mat<T>, backend: B) -> (r: Result<LogitSolver<T, B>, AmitaError>)
        ensures
            r is Ok <==> (y@.len() == x.spec_rows() && is_binary_response(y@)),
            (r matches Err(e) && e is NotSameObservations) <==> y@.len() != x.spec_rows(),
            (r matches Err(e) && e matches AmitaError::NonBinary { .. }) <==> (y@.len()
                == x.spec_rows() && !is_binary_response(y@)),
            r matches Ok(s) ==> {
                &&& s.spec_y().len() == y@.len()
                &&& s.spec_x() == x
                &&& s.spec_n_obs() == x.spec_rows()
                &&& s.spec_n_regressors() == x.spec_cols()
                &&& s.spec_max_iter() == 1000u64
                &&& s.spec_snapshot() == (ResultsState::<T> {
                    coef: None,
                    se: None,
                    t: None,
                    p_vals: None,
                })
                &&& s.spec_opt_param() is None
                &&& s.spec_hessian() is None
            },
    {
        let res = Self::validate_data(y, &x);
        match res {
            Err(e) => Err(e),
            Ok(()) => {
                let n_obs = x.rows();
                let n_regressors = x.cols();
                let mut yt: Vec<T> = Vec::new();
                let mut i: usize = 0;
                while i < y.len()
                    invariant
                        i <= y@.len(),
                        yt@.len() == i,
                    decreases y@.len() - i,
                {
                    if y[i] == 1 {
                        yt.push(T::one());
                    } else {
                        yt.push(T::zero());
                    }
                    i = i + 1;
                }
                let results = LogitResults::empty(n_obs, n_regressors);
                Ok(LogitSolver {
                    y: yt,
                    x,
                    hessian: None,
                    opt_param: None,
                    max_iter: 1000,
                    max_tolerance: T::one().divided_by(T::from_count(10000)),
                    backend,
                    results,
                })
            },
        }
    }

    /// Checks the observation counts and the binary response, in that
    /// order.
    pub fn validate_data(y: &Vec<i32>, x: &Mat<T>) -> (r: Result<(), AmitaError>)
        ensures
            r is Ok <==> (y@.len() == x.spec_rows() && is_binary_response(y@)),
            (r matches Err(e) && e is NotSameObservations) <==> y@.len() != x.spec_rows(),
            (r matches Err(e) && e matches AmitaError::NonBinary { .. }) <==> (y@.len()
                == x.spec_rows() && !is_binary_response(y@)),
    {
        if y.len() != x.rows() {
            return Err(AmitaError::NotSameObservations);
        }
        let mut all_binary = true;
        let mut has_zero = false;
        let mut has_one = false;
        let mut i: usize = 0;
        while i < y.len()
            invariant
                i <= y@.len(),
                all_binary <==> forall|k: int| 0 <= k < i ==> (#[trigger] y@[k] == 0
                    || y@[k] == 1),
                has_zero <==> exists|k: int| 0 <= k < i && #[trigger] y@[k] == 0,
                has_one <==> exists|k: int| 0 <= k < i && #[trigger] y@[k] == 1,
            decreases y@.len() - i,
        {
            if y[i] == 0 {
                has_zero = true;
            } else if y[i] == 1 {
                has_one = true;
            } else {
                all_binary = false;
            }
            i = i + 1;
        }
        if all_binary && has_zero && has_one {
            Ok(())
        } else {
            Err(AmitaError::NonBinary { matrix_name: "y of Logit model".to_owned() })
        }
    }

    /// Reconfigures the optimizer's iteration budget.
    pub fn with_max_iter(self, max_iter: u64) -> (r: Self)
        ensures
            r.spec_y() == self.spec_y(),
            r.spec_x() == self.spec_x(),
            r.spec_n_obs() == self.spec_n_obs(),
            r.spec_n_regressors() == self.spec_n_regressors(),
            r.spec_max_iter() == max_iter,
            r.spec_max_tolerance() == self.spec_max_tolerance(),
            r.spec_snapshot() == self.spec_snapshot(),
            r.spec_opt_param() == self.spec_opt_param(),
            r.spec_hessian() == self.spec_hessian(),
    {
        proof {
            use_type_invariant(&self);
        }
        let LogitSolver { y, x, hessian, opt_param, max_iter: _, max_tolerance, backend, results } =
            self;
        LogitSolver { y, x, hessian, opt_param, max_iter, max_tolerance, backend, results }
    }

    /// Reconfigures the optimizer's gradient tolerance.
    pub fn with_max_tolerance(self, max_tolerance: T) -> (r: Self)
        ensures
            r.spec_y() == self.spec_y(),
            r.spec_x() == self.spec_x(),
            r.spec_n_obs() == self.spec_n_obs(),
            r.spec_n_regressors() == self.spec_n_regressors(),
            r.spec_max_iter() == self.spec_max_iter(),
            r.spec_max_tolerance() == max_tolerance,
            r.spec_snapshot() == self.spec_snapshot(),
            r.spec_opt_param() == self.spec_opt_param(),
            r.spec_hessian() == self.spec_hessian(),
    {
        proof {
            use_type_invariant(&self);
        }
        let LogitSolver { y, x, hessian, opt_param, max_iter, max_tolerance: _, backend, results } =
            self;
        LogitSolver { y, x, hessian, opt_param, max_iter, max_tolerance, backend, results }
    }

    /// The negative mean log-likelihood at `param`; see [`logit_cost`].
    pub fn cost(&self, param: &Vec<T>) -> (r: Result<T, AmitaError>)
        requires
            param@.len() == self.spec_n_regressors(),
        ensures
            r is Ok,
    {
        proof {
            use_type_invariant(self);
        }
        Ok(logit_cost(&self.x, &self.y, param))
    }

    /// The gradient of the negative mean log-likelihood at `param`; see
    /// [`logit_gradient`].
    pub fn gradient(&self, param: &Vec<T>) -> (r: Result<Vec<T>, AmitaError>)
        requires
            param@.len() == self.spec_n_regressors(),
        ensures
            r matches Ok(v) && v@.len() == self.spec_n_regressors(),
    {
        proof {
            use_type_invariant(self);
        }
        Ok(logit_gradient(&self.x, &self.y, param))
    }

    /// One entry of the averaged per-observation curvature at `param`:
    /// `(1/n)·Σ pₖ(1−pₖ)·x_{k,i}·x_{k,j}` with `pₖ = sigmoid(xₖ·param)`.
    pub fn second_order_derivative(&self, param: &Vec<T>, i: usize, j: usize) -> (r: Result<
        T,
        AmitaError,
    >)
        requires
            param@.len() == self.spec_n_regressors(),
            i < self.spec_n_regressors(),
            j < self.spec_n_regressors(),
        ensures
            r is Ok,
    {
        proof {
            use_type_invariant(self);
        }
        let n = self.x.rows();
        let mut acc = T::zero();
        let mut k: usize = 0;
        while k < n
            invariant
                n == self.x.spec_rows(),
                param@.len() == self.x.spec_cols(),
                i < self.x.spec_cols(),
                j < self.x.spec_cols(),
                k <= n,
            decreases n - k,
        {
            let p = sigmoid(dot(self.x.row_ref(k), param));
            let curv = p.times(T::one().minus(p));
            acc = acc.plus(curv.times(self.x.get(k, i)).times(self.x.get(k, j)));
            k = k + 1;
        }
        Ok(acc.divided_by(T::from_count(n)))
    }

    /// The averaged observed-information matrix at `param`, entry by
    /// entry from [`LogitSolver::second_order_derivative`].
    pub fn hessian(&self, param: &Vec<T>) -> (r: Result<Mat<T>, AmitaError>)
        requires
            param@.len() == self.spec_n_regressors(),
        ensures
            r matches Ok(h) && h.spec_rows() == self.spec_n_regressors() && h.spec_cols()
                == self.spec_n_regressors(),
    {
        proof {
            use_type_invariant(self);
        }
        let p = self.x.cols();
        let mut rows_out: Vec<Vec<T>> = Vec::new();
        let mut i: usize = 0;
        while i < p
            invariant
                p == self.x.spec_cols(),
                p == self.spec_n_regressors(),
                param@.len() == p,
                i <= p,
                rows_out@.len() == i,
                forall|t: int| 0 <= t < i ==> (#[trigger] rows_out@[t])@.len() == p,
            decreases p - i,
        {
            let mut row: Vec<T> = Vec::new();
            let mut j: usize = 0;
            while j < p
                invariant
                    p == self.x.spec_cols(),
                    p == self.spec_n_regressors(),
                    param@.len() == p,
                    i < p,
                    j <= p,
                    row@.len() == j,
                decreases p - j,
            {
                let e = self.second_order_derivative(param, i, j)?;
                row.push(e);
                j = j + 1;
            }
            rows_out.push(row);
            i = i + 1;
        }
        Ok(Mat::from_parts(p, rows_out))
    }

    /// The optimization stage: runs the backend's quasi-Newton search
    /// from the zero coefficient vector, then re-checks first-order
    /// optimality itself — the l2 norm of the gradient at the returned
    /// parameter must be within the configured tolerance.
    ///
    /// Fails with [`AmitaError::NotConverged`] when the optimizer fails
    /// outright, hands back a parameter of the wrong length, or stops —
    /// for instance at the iteration budget — short of the tolerance.
    pub fn run_solver(self) -> (res: Result<Self, AmitaError>)
        ensures
            res matches Ok(s) ==> {
                &&& s.same_problem(self)
                &&& s.spec_opt_param() matches Some(v) && v.len()
                    == self.spec_n_regressors()
                &&& s.spec_snapshot() == self.spec_snapshot()
                &&& s.spec_hessian() == self.spec_hessian()
            },
            res matches Err(e) ==> e is NotConverged,
    {
        proof {
            use_type_invariant(&self);
        }
        let p = self.x.cols();
        let mut init: Vec<T> = Vec::new();
        let mut k: usize = 0;
        while k < p
            invariant
                k <= p,
                init@.len() == k,
            decreases p - k,
        {
            init.push(T::zero());
            k = k + 1;
        }
        let found = self.backend.minimize_logit(
            &self.x,
            &self.y,
            init,
            self.max_iter,
            self.max_tolerance,
        );
        let param = match found {
            Some(v) => v,
            None => return Err(AmitaError::NotConverged),
        };
        if param.len() != p {
            return Err(AmitaError::NotConverged);
        }
        let g = logit_gradient(&self.x, &self.y, &param);
        let norm = dot(&g, &g).sqrt();
        if !norm.le(self.max_tolerance) {
            return Err(AmitaError::NotConverged);
        }
        let LogitSolver { y, x, hessian, opt_param: _, max_iter, max_tolerance, backend, results } =
            self;
        Ok(LogitSolver {
            y,
            x,
            hessian,
            opt_param: Some(param),
            max_iter,
            max_tolerance,
            backend,
            results,
        })
    }

    /// The coefficient stage: adopts the optimizer's final parameter as
    /// the fitted coefficients.
    ///
    /// Fails with [`AmitaError::NotSolved`] exactly when the
    /// optimization stage has not run.
    pub fn solve_coef(self) -> (res: Result<Self, AmitaError>)
        ensures
            res matches Ok(s) ==> {
                &&& s.same_problem(self)
                &&& s.spec_snapshot().coef == self.spec_opt_param()
                &&& s.spec_snapshot().coef is Some
                &&& s.spec_opt_param() == self.spec_opt_param()
                &&& s.spec_snapshot().se == self.spec_snapshot().se
                &&& s.spec_snapshot().t == self.spec_snapshot().t
                &&& s.spec_hessian() == self.spec_hessian()
            },
            res matches Err(e) ==> e is NotSolved,
            res is Err <==> self.spec_opt_param() is None,
    {
        proof {
            use_type_invariant(&self);
        }
        let LogitSolver { y, x, hessian, opt_param, max_iter, max_tolerance, backend, results } =
            self;
        let coef = match &opt_param {
            Some(v) => clone_scalars(v),
            None => return Err(AmitaError::NotSolved),
        };
        let LogitResults { n_obs, n_regressors, coef: _, se, t } = results;
        let results = LogitResults { n_obs, n_regressors, coef: Some(coef), se, t };
        Ok(LogitSolver { y, x, hessian, opt_param, max_iter, max_tolerance, backend, results })
    }

    /// The information stage: forms the averaged observed-information
    /// matrix at the fitted coefficients.
    ///
    /// Fails with [`AmitaError::NotSolved`] exactly when the coefficient
    /// stage has not run.
    pub fn solve_hessian(self) -> (res: Result<Self, AmitaError>)
        ensures
            res matches Ok(s) ==> {
                &&& s.same_problem(self)
                &&& s.spec_hessian() is Some
                &&& s.spec_snapshot() == self.spec_snapshot()
                &&& s.spec_opt_param() == self.spec_opt_param()
            },
            res matches Err(e) ==> e is NotSolved,
            res is Err <==> self.spec_snapshot().coef is None,
    {
        proof {
            use_type_invariant(&self);
        }
        if self.results.coef.is_none() {
            return Err(AmitaError::NotSolved);
        }
        let h = match &self.results.coef {
            Some(coef) => {
                match self.hessian(coef) {
                    Ok(h) => h,
                    Err(_) => return Err(AmitaError::NotSolved),
                }
            },
            None => return Err(AmitaError::NotSolved),
        };
        let LogitSolver { y, x, hessian: _, opt_param, max_iter, max_tolerance, backend, results } =
            self;
        Ok(LogitSolver {
            y,
            x,
            hessian: Some(h),
            opt_param,
            max_iter,
            max_tolerance,
            backend,
            results,
        })
    }

    /// The variance stage: inverts the information matrix `n·H` — as
    /// `H⁻¹` scaled by `1/n` — and takes the square roots of the
    /// diagonal: `seᵢ = sqrt((H⁻¹)ᵢᵢ) / sqrt(n)`.
    ///
    /// Fails with [`AmitaError::NotSolved`] exactly when the information
    /// stage has not run, and with [`AmitaError::NotQRDecomposable`] or
    /// [`AmitaError::NotInvertible`] as the backend's inversion of the
    /// information matrix does (an inverse of the wrong shape is treated
    /// as singular).
    pub fn solve_non_robust_se(self) -> (res: Result<Self, AmitaError>)
        ensures
            res matches Ok(s) ==> {
                &&& s.same_problem(self)
                &&& s.spec_snapshot().se matches Some(v) && v.len()
                    == self.spec_n_regressors()
                &&& s.spec_snapshot().coef == self.spec_snapshot().coef
                &&& s.spec_snapshot().t == self.spec_snapshot().t
                &&& s.spec_opt_param() == self.spec_opt_param()
                &&& s.spec_hessian() == self.spec_hessian()
            },
            res matches Err(e) ==> (e is NotSolved || (e matches
                AmitaError::NotQRDecomposable { matrix_name } && matrix_name@
                == "Information matrix"@) || (e matches
                AmitaError::NotInvertible { matrix_name } && matrix_name@
                == "Information matrix"@)),
            (res matches Err(e) && e is NotSolved) <==> self.spec_hessian() is None,
    {
        proof {
            use_type_invariant(&self);
        }
        let LogitSolver { y, x, hessian, opt_param, max_iter, max_tolerance, backend, results } =
            self;
        let p = x.cols();
        let var_cov = match &hessian {
            Some(information_matrix) => {
                match backend.invert(information_matrix) {
                    Ok(m) => m,
                    Err(InversionError::NotDecomposable) => {
                        return Err(AmitaError::NotQRDecomposable {
                            matrix_name: "Information matrix".to_owned(),
                        });
                    },
                    Err(InversionError::Singular) => {
                        return Err(AmitaError::NotInvertible {
                            matrix_name: "Information matrix".to_owned(),
                        });
                    },
                }
            },
            None => return Err(AmitaError::NotSolved),
        };
        if var_cov.rows() != p || var_cov.cols() != p {
            return Err(AmitaError::NotInvertible { matrix_name: "Information matrix".to_owned() });
        }
        let sqrt_n = T::from_count(results.n_obs).sqrt();
        let d = diag(&var_cov);
        let mut se: Vec<T> = Vec::new();
        let mut k: usize = 0;
        while k < d.len()
            invariant
                k <= d@.len(),
                se@.len() == k,
            decreases d@.len() - k,
        {
            se.push(d[k].sqrt().divided_by(sqrt_n));
            k = k + 1;
        }
        let LogitResults { n_obs, n_regressors, coef, se: _, t } = results;
        let results = LogitResults { n_obs, n_regressors, coef, se: Some(se), t };
        Ok(LogitSolver { y, x, hessian, opt_param, max_iter, max_tolerance, backend, results })
    }

    /// The variance stage dispatch; only the non-robust
    /// observed-information form is defined for the logit engine.
    pub fn solve_se(self) -> (res: Result<Self, AmitaError>)
        ensures
            res matches Ok(s) ==> {
                &&& s.same_problem(self)
                &&& s.spec_snapshot().se matches Some(v) && v.len()
                    == self.spec_n_regressors()
                &&& s.spec_snapshot().coef == self.spec_snapshot().coef
                &&& s.spec_snapshot().t == self.spec_snapshot().t
                &&& s.spec_opt_param() == self.spec_opt_param()
                &&& s.spec_hessian() == self.spec_hessian()
            },
            res matches Err(e) ==> (e is NotSolved || (e matches
                AmitaError::NotQRDecomposable { matrix_name } && matrix_name@
                == "Information matrix"@) || (e matches
                AmitaError::NotInvertible { matrix_name } && matrix_name@
                == "Information matrix"@)),
            (res matches Err(e) && e is NotSolved) <==> self.spec_hessian() is None,
    {
        self.solve_non_robust_se()
    }

    /// The inference stage: `tᵢ = βᵢ/seᵢ`.
    ///
    /// Fails with [`AmitaError::NotSolved`] exactly when the coefficient
    /// or variance stage has not run.
    pub fn solve_t(self) -> (res: Result<Self, AmitaError>)
        ensures
            res matches Ok(s) ==> {
                &&& s.same_problem(self)
                &&& s.spec_snapshot().t matches Some(v) && v.len()
                    == self.spec_n_regressors()
                &&& s.spec_snapshot().coef == self.spec_snapshot().coef
                &&& s.spec_snapshot().se == self.spec_snapshot().se
                &&& s.spec_opt_param() == self.spec_opt_param()
                &&& s.spec_hessian() == self.spec_hessian()
            },
            res matches Err(e) ==> e is NotSolved,
            res is Err <==> (self.spec_snapshot().coef is None || self.spec_snapshot().se
                is None),
    {
        proof {
            use_type_invariant(&self);
        }
        let LogitSolver { y, x, hessian, opt_param, max_iter, max_tolerance, backend, results } =
            self;
        if results.coef.is_none() || results.se.is_none() {
            return Err(AmitaError::NotSolved);
        }
        let p = results.n_regressors;
        let mut t_stats: Vec<T> = Vec::new();
        match (&results.coef, &results.se) {
            (Some(coef), Some(se)) => {
                let mut k: usize = 0;
                while k < p
                    invariant
                        coef@.len() == p,
                        se@.len() == p,
                        k <= p,
                        t_stats@.len() == k,
                    decreases p - k,
                {
                    t_stats.push(coef[k].divided_by(se[k]));
                    k = k + 1;
                }
            },
            _ => {},
        }
        let LogitResults { n_obs, n_regressors, coef, se, t: _ } = results;
        let results = LogitResults { n_obs, n_regressors, coef, se, t: Some(t_stats) };
        Ok(LogitSolver { y, x, hessian, opt_param, max_iter, max_tolerance, backend, results })
    }
}

impl<T: Scalar, B: Backend<T>> Solver<T, LogitResults<T>> for LogitSolver<T, B> {
    open spec fn solvable(&self) -> bool {
        true
    }

    open spec fn solve_post(&self, r: Result<Self, AmitaError>) -> bool {
        self.spec_solve_post(r)
    }

    open spec fn snapshot(&self) -> ResultsState<T> {
        self.spec_snapshot()
    }

    fn can_solve(&self) -> (b: bool) {
        true
    }

    fn results(&self) -> (r: LogitResults<T>) {
        LogitResults {
            n_obs: self.results.n_obs,
            n_regressors: self.results.n_regressors,
            coef: clone_opt_vec(&self.results.coef),
            se: clone_opt_vec(&self.results.se),
            t: clone_opt_vec(&self.results.t),
        }
    }

    fn solve(self) -> (r: Result<Self, AmitaError>) {
        let s = self.run_solver()?;
        let s = s.solve_coef()?;
        let s = s.solve_hessian()?;
        let s = s.solve_se()?;
        let s = s.solve_t()?;
        Ok(s)
    }
}

/// A copy of a populated-or-absent vector field.
fn clone_opt_vec<T: Copy>(o: &Option<Vec<T>>) -> (r: Option<Vec<T>>)
    ensures
        crate::ols::view_opt(r) == crate::ols::view_opt(*o),
{
    match o {
        Some(v) => Some(clone_scalars(v)),
        None => None,
    }
}

} // verus!
