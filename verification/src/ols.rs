//! The ordinary-least-squares engine.
//!
//! Construction validates the inputs and QR-factorizes the design matrix;
//! `solve` runs a fixed pipeline of stages — coefficients, a variance
//! stage dispatched on the configured standard-error tag, inference, and
//! goodness of fit — each populating part of an immutable results
//! snapshot.

use vstd::prelude::*;

verus! {

use vstd::string::StringExecFns;

use crate::backend::{Backend, InversionError};
use crate::errors::AmitaError;
use crate::linalg::{clone_scalars, diag, dot, gram, mat_mul, mat_vec, transpose_times_vec,
    vec_minus, vec_sum, weighted_gram};
use crate::matrix::Mat;
use crate::scalar::Scalar;
use crate::traits::{ResultsState, Solver, SolverResults};

/// The standard-error variant a solver is configured with.
///
/// `Clustered` carries a dense integer cluster tag, one per observation,
/// as produced by the cluster resolver. `NonRobust` is an alias for
/// `Homoscedastic`, and `Robust` an alias for `HC3`.
#[derive(Debug, Clone, PartialEq, Eq)]
pub enum SEType {
    Homoscedastic,
    HC1,
    HC2,
    HC3,
    Clustered { by: Vec<i32> },
    /// Alias for [`SEType::Homoscedastic`].
    NonRobust,
    /// Alias for [`SEType::HC3`].
    Robust,
}

/// The write-once results snapshot of the ordinary-least-squares engine.
/// Every field is absent until the pipeline stage that computes it has
/// run, and no field is cleared or recomputed after being set.
#[derive(Debug)]
pub struct OLSResults<T> {
    n_obs: usize,
    n_regressors: usize,
    se_type: SEType,
    coef: Option<Vec<T>>,
    se: Option<Vec<T>>,
    y_pred: Option<Vec<T>>,
    resid: Option<Vec<T>>,
    t: Option<Vec<T>>,
    p_vals: Option<Vec<T>>,
    r_sq: Option<T>,
    r_sq_adj: Option<T>,
}

/// The sequence of scalars a populated field holds, or `None`.
pub open spec fn view_opt<T>(o: Option<Vec<T>>) -> Option<Seq<T>> {
    match o {
        Some(v) => Some(v@),
        None => None,
    }
}

impl<T> OLSResults<T> {
    pub closed spec fn spec_n_obs(self) -> nat {
        self.n_obs as nat
    }

    pub closed spec fn spec_n_regressors(self) -> nat {
        self.n_regressors as nat
    }

    pub closed spec fn spec_se_type(self) -> SEType {
        self.se_type
    }

    /// The trait-level estimate fields.
    pub closed spec fn spec_state(self) -> ResultsState<T> {
        ResultsState {
            coef: view_opt(self.coef),
            se: view_opt(self.se),
            t: view_opt(self.t),
            p_vals: view_opt(self.p_vals),
        }
    }

    pub closed spec fn spec_y_pred(self) -> Option<Seq<T>> {
        view_opt(self.y_pred)
    }

    pub closed spec fn spec_resid(self) -> Option<Seq<T>> {
        view_opt(self.resid)
    }

    pub closed spec fn spec_r_sq(self) -> Option<T> {
        self.r_sq
    }

    pub closed spec fn spec_r_sq_adj(self) -> Option<T> {
        self.r_sq_adj
    }

    /// Populated fields have the lengths the dimensions dictate.
    pub closed spec fn wf(self) -> bool {
        &&& match self.coef {
            Some(v) => v@.len() == self.n_regressors,
            None => true,
        }
        &&& match self.se {
            Some(v) => v@.len() == self.n_regressors,
            None => true,
        }
        &&& match self.t {
            Some(v) => v@.len() == self.n_regressors,
            None => true,
        }
        &&& match self.p_vals {
            Some(v) => v@.len() == self.n_regressors,
            None => true,
        }
        &&& match self.y_pred {
            Some(v) => v@.len() == self.n_obs,
            None => true,
        }
        &&& match self.resid {
            Some(v) => v@.len() == self.n_obs,
            None => true,
        }
    }

    /// An empty snapshot for `n_obs` observations of `n_regressors`
    /// regressors, configured with the non-robust variance by default.
    pub fn empty(n_obs: usize, n_regressors: usize) -> (r: OLSResults<T>)
        ensures
            r.spec_n_obs() == n_obs,
            r.spec_n_regressors() == n_regressors,
            r.spec_se_type() == SEType::NonRobust,
            r.spec_state() == (ResultsState::<T> {
                coef: None,
                se: None,
                t: None,
                p_vals: None,
            }),
            r.spec_y_pred() is None,
            r.spec_resid() is None,
            r.spec_r_sq() is None,
            r.spec_r_sq_adj() is None,
            r.wf(),
    {
        OLSResults {
            n_obs,
            n_regressors,
            se_type: SEType::NonRobust,
            coef: None,
            se: None,
            y_pred: None,
            resid: None,
            t: None,
            p_vals: None,
            r_sq: None,
            r_sq_adj: None,
        }
    }
}

impl<T: Scalar> OLSResults<T> {
    /// The fitted values, or [`AmitaError::NotSolved`] before the
    /// coefficient stage ran.
    pub fn y_pred(&self) -> (r: Result<Vec<T>, AmitaError>)
        ensures
            match self.spec_y_pred() {
                Some(c) => r matches Ok(v) && v@ == c,
                None => r matches Err(e) && e is NotSolved,
            },
    {
        match &self.y_pred {
            Some(v) => Ok(clone_scalars(v)),
            None => Err(AmitaError::NotSolved),
        }
    }

    /// The residuals, or [`AmitaError::NotSolved`] before the
    /// coefficient stage ran.
    pub fn resid(&self) -> (r: Result<Vec<T>, AmitaError>)
        ensures
            match self.spec_resid() {
                Some(c) => r matches Ok(v) && v@ == c,
                None => r matches Err(e) && e is NotSolved,
            },
    {
        match &self.resid {
            Some(v) => Ok(clone_scalars(v)),
            None => Err(AmitaError::NotSolved),
        }
    }

    /// The coefficient of determination, or [`AmitaError::NotSolved`]
    /// before the goodness-of-fit stage ran.
    pub fn r_sq(&self) -> (r: Result<T, AmitaError>)
        ensures
            match self.spec_r_sq() {
                Some(c) => r matches Ok(v) && v == c,
                None => r matches Err(e) && e is NotSolved,
            },
    {
        match &self.r_sq {
            Some(v) => Ok(*v),
            None => Err(AmitaError::NotSolved),
        }
    }

    /// The degrees-of-freedom-adjusted coefficient of determination, or
    /// [`AmitaError::NotSolved`] before the goodness-of-fit stage ran.
    pub fn r_sq_adj(&self) -> (r: Result<T, AmitaError>)
        ensures
            match self.spec_r_sq_adj() {
                Some(c) => r matches Ok(v) && v == c,
                None => r matches Err(e) && e is NotSolved,
            },
    {
        match &self.r_sq_adj {
            Some(v) => Ok(*v),
            None => Err(AmitaError::NotSolved),
        }
    }
}

impl<T: Scalar> SolverResults<T> for OLSResults<T> {
    open spec fn state(&self) -> ResultsState<T> {
        self.spec_state()
    }

    fn coef(&self) -> (r: Result<Vec<T>, AmitaError>) {
        match &self.coef {
            Some(v) => Ok(clone_scalars(v)),
            None => Err(AmitaError::NotSolved),
        }
    }

    fn se(&self) -> (r: Result<Vec<T>, AmitaError>) {
        match &self.se {
            Some(v) => Ok(clone_scalars(v)),
            None => Err(AmitaError::NotSolved),
        }
    }

    fn t(&self) -> (r: Result<Vec<T>, AmitaError>) {
        match &self.t {
            Some(v) => Ok(clone_scalars(v)),
            None => Err(AmitaError::NotSolved),
        }
    }

    fn p_vals(&self) -> (r: Result<Vec<T>, AmitaError>) {
        match &self.p_vals {
            Some(v) => Ok(clone_scalars(v)),
            None => Err(AmitaError::NotSolved),
        }
    }

    fn summary(&self) -> (r: Result<String, AmitaError>) {
        match (&self.coef, &self.se, &self.t) {
            (Some(coef), Some(se), Some(t)) => {
                let mut s = "coefficients: ".to_owned();
                s.append(crate::math::render_scalars(coef).as_str());
                s.append("\nstandard errors: ");
                s.append(crate::math::render_scalars(se).as_str());
                s.append("\nt-statistics: ");
                s.append(crate::math::render_scalars(t).as_str());
                match &self.p_vals {
                    Some(p) => {
                        s.append("\np-values: ");
                        s.append(crate::math::render_scalars(p).as_str());
                    },
                    None => {},
                }
                match &self.r_sq {
                    Some(r2) => {
                        s.append("\nR-squared: ");
                        s.append(r2.render().as_str());
                    },
                    None => {},
                }
                Ok(s)
            },
            _ => Err(AmitaError::NotSolved),
        }
    }
}

/// The ordinary-least-squares engine: the validated inputs, their QR
/// factors, the backend that supplies the numerical primitives, and the
/// growing results snapshot.
#[derive(Debug)]
pub struct OLSSolver<T, B> {
    y: Vec<T>,
    x: Mat<T>,
    q: Mat<T>,
    r: Mat<T>,
    backend: B,
    results: OLSResults<T>,
}

impl<T, B> OLSSolver<T, B> {
    /// The dimensions, the factors' shapes, and the snapshot's field
    /// lengths are all consistent.
    #[verifier::type_invariant]
    closed spec fn inv(self) -> bool {
        &&& self.y@.len() == self.results.spec_n_obs()
        &&& self.x.spec_rows() == self.results.spec_n_obs()
        &&& self.x.spec_cols() == self.results.spec_n_regressors()
        &&& self.q.spec_rows() == self.results.spec_n_obs()
        &&& self.q.spec_cols() == self.results.spec_n_regressors()
        &&& self.r.spec_rows() == self.results.spec_n_regressors()
        &&& self.r.spec_cols() == self.results.spec_n_regressors()
        &&& self.results.wf()
    }

    pub closed spec fn spec_y(self) -> Seq<T> {
        self.y@
    }

    pub closed spec fn spec_x(self) -> Mat<T> {
        self.x
    }

    pub closed spec fn spec_se_type(self) -> SEType {
        self.results.spec_se_type()
    }

    pub closed spec fn spec_n_obs(self) -> nat {
        self.results.spec_n_obs()
    }

    pub closed spec fn spec_n_regressors(self) -> nat {
        self.results.spec_n_regressors()
    }

    pub closed spec fn spec_snapshot(self) -> ResultsState<T> {
        self.results.spec_state()
    }

    pub closed spec fn spec_y_pred(self) -> Option<Seq<T>> {
        self.results.spec_y_pred()
    }

    pub closed spec fn spec_resid(self) -> Option<Seq<T>> {
        self.results.spec_resid()
    }

    pub closed spec fn spec_r_sq(self) -> Option<T> {
        self.results.spec_r_sq()
    }

    pub closed spec fn spec_r_sq_adj(self) -> Option<T> {
        self.results.spec_r_sq_adj()
    }

    /// The data, the configuration, and the dimensions of one solver
    /// value agree with another's; only the snapshot may differ.
    pub open spec fn same_problem(self, other: Self) -> bool {
        &&& self.spec_y() == other.spec_y()
        &&& self.spec_x() == other.spec_x()
        &&& self.spec_se_type() == other.spec_se_type()
        &&& self.spec_n_obs() == other.spec_n_obs()
        &&& self.spec_n_regressors() == other.spec_n_regressors()
    }

    /// The inputs `solve` is defined on: enough observations for the
    /// degrees-of-freedom corrections its formulas divide by, and — for
    /// the clustered variance — a well-formed tag array.
    pub open spec fn spec_solvable(self) -> bool {
        &&& self.spec_n_obs() >= self.spec_n_regressors() + 2
        &&& match self.spec_se_type() {
            SEType::Clustered { by } => {
                &&& by@.len() == self.spec_n_obs()
                &&& forall|i: int| 0 <= i < by@.len() ==> #[trigger] by@[i] >= 0
            },
            _ => true,
        }
    }
}

impl<T: Scalar, B: Backend<T>> OLSSolver<T, B> {
    /// Validates that the response and the design matrix agree on the
    /// number of observations, then QR-factorizes the design matrix.
    ///
    /// Fails with [`AmitaError::NotSameObservations`] exactly when the
    /// observation counts differ, and with
    /// [`AmitaError::NotQRDecomposable`] when the backend yields no
    /// factorization (a backend that returns factors of the wrong shape
    /// is treated the same). The new solver is configured with
    /// [`SEType::NonRobust`] and an empty snapshot.
    pub fn new(y: Vec<T>, x: Mat<T>, backend: B) -> (r: Result<OLSSolver<T, B>, AmitaError>)
        ensures
            (r matches Err(e) && e is NotSameObservations) <==> y@.len() != x.spec_rows(),
            r matches Err(e) ==> (e is NotSameObservations || (e matches
                AmitaError::NotQRDecomposable { matrix_name } && matrix_name@
                == "Regressors x"@)),
            r matches Ok(s) ==> {
                &&& s.spec_y() == y@
                &&& s.spec_x() == x
                &&& s.spec_n_obs() == x.spec_rows()
                &&& s.spec_n_regressors() == x.spec_cols()
                &&& s.spec_se_type() == SEType::NonRobust
                &&& s.spec_snapshot() == (ResultsState::<T> {
                    coef: None,
                    se: None,
                    t: None,
                    p_vals: None,
                })
                &&& s.spec_y_pred() is None
                &&& s.spec_resid() is None
                &&& s.spec_r_sq() is None
                &&& s.spec_r_sq_adj() is None
            },
    {
        Self::validate_data(&y, &x)?;
        let n_obs = x.rows();
        let n_regressors = x.cols();
        let factors = backend.qr(&x);
        match factors {
            Some((q, r)) => {
                if q.rows() != n_obs || q.cols() != n_regressors || r.rows() != n_regressors
                    || r.cols() != n_regressors {
                    return Err(AmitaError::NotQRDecomposable {
                        matrix_name: "Regressors x".to_owned(),
                    });
                }
                let results = OLSResults::empty(n_obs, n_regressors);
                Ok(OLSSolver { y, x, q, r, backend, results })
            },
            None => Err(AmitaError::NotQRDecomposable { matrix_name: "Regressors x".to_owned() }),
        }
    }

    /// Checks that the response and the design matrix agree on the
    /// number of observations.
    pub fn validate_data(y: &Vec<T>, x: &Mat<T>) -> (r: Result<(), AmitaError>)
        ensures
            r is Ok <==> y@.len() == x.spec_rows(),
            r matches Err(e) ==> e is NotSameObservations,
    {
        if x.rows() != y.len() {
            return Err(AmitaError::NotSameObservations);
        }
        Ok(())
    }

    /// Reconfigures the solver to the robust standard-error variant.
    pub fn with_robust_se(self) -> (r: Self)
        ensures
            r.spec_y() == self.spec_y(),
            r.spec_x() == self.spec_x(),
            r.spec_n_obs() == self.spec_n_obs(),
            r.spec_n_regressors() == self.spec_n_regressors(),
            r.spec_se_type() == SEType::Robust,
            r.spec_snapshot() == self.spec_snapshot(),
            r.spec_y_pred() == self.spec_y_pred(),
            r.spec_resid() == self.spec_resid(),
            r.spec_r_sq() == self.spec_r_sq(),
            r.spec_r_sq_adj() == self.spec_r_sq_adj(),
    {
        self.with_se_type(SEType::Robust)
    }

    /// Reconfigures the solver to the non-robust (homoscedastic)
    /// standard-error variant.
    pub fn with_nonrobust_se(self) -> (r: Self)
        ensures
            r.spec_y() == self.spec_y(),
            r.spec_x() == self.spec_x(),
            r.spec_n_obs() == self.spec_n_obs(),
            r.spec_n_regressors() == self.spec_n_regressors(),
            r.spec_se_type() == SEType::NonRobust,
            r.spec_snapshot() == self.spec_snapshot(),
            r.spec_y_pred() == self.spec_y_pred(),
            r.spec_resid() == self.spec_resid(),
            r.spec_r_sq() == self.spec_r_sq(),
            r.spec_r_sq_adj() == self.spec_r_sq_adj(),
    {
        self.with_se_type(SEType::NonRobust)
    }

    /// Reconfigures the solver's standard-error variant. Permitted at
    /// any point before `solve`; the data and any populated results are
    /// untouched.
    pub fn with_se_type(self, se_type: SEType) -> (r: Self)
        ensures
            r.spec_y() == self.spec_y(),
            r.spec_x() == self.spec_x(),
            r.spec_n_obs() == self.spec_n_obs(),
            r.spec_n_regressors() == self.spec_n_regressors(),
            r.spec_se_type() == se_type,
            r.spec_snapshot() == self.spec_snapshot(),
            r.spec_y_pred() == self.spec_y_pred(),
            r.spec_resid() == self.spec_resid(),
            r.spec_r_sq() == self.spec_r_sq(),
            r.spec_r_sq_adj() == self.spec_r_sq_adj(),
    {
        proof {
            use_type_invariant(&self);
        }
        let OLSSolver { y, x, q, r, backend, results } = self;
        let OLSResults {
            n_obs,
            n_regressors,
            se_type: _,
            coef,
            se,
            y_pred,
            resid,
            t,
            p_vals,
            r_sq,
            r_sq_adj,
        } = results;
        let results = OLSResults {
            n_obs,
            n_regressors,
            se_type,
            coef,
            se,
            y_pred,
            resid,
            t,
            p_vals,
            r_sq,
            r_sq_adj,
        };
        OLSSolver { y, x, q, r, backend, results }
    }

    /// The coefficient stage: `β = R⁻¹ Qᵗ y`, solved by inverting the
    /// upper-triangular factor rather than forming `XᵗX`; fitted values
    /// `ŷ = Xβ` and residuals `e = y − ŷ`.
    ///
    /// Fails with [`AmitaError::NotQRDecomposable`] or
    /// [`AmitaError::NotInvertible`] exactly as the backend's inversion
    /// of `R` does (an inverse of the wrong shape is treated as
    /// singular).
    pub fn solve_coef(self) -> (res: Result<Self, AmitaError>)
        ensures
            res matches Ok(s) ==> {
                &&& s.same_problem(self)
                &&& s.spec_snapshot().coef matches Some(c) && c.len()
                    == self.spec_n_regressors()
                &&& s.spec_y_pred() matches Some(v) && v.len() == self.spec_n_obs()
                &&& s.spec_resid() matches Some(v) && v.len() == self.spec_n_obs()
                &&& s.spec_snapshot().se == self.spec_snapshot().se
                &&& s.spec_snapshot().t == self.spec_snapshot().t
                &&& s.spec_snapshot().p_vals == self.spec_snapshot().p_vals
                &&& s.spec_r_sq() == self.spec_r_sq()
                &&& s.spec_r_sq_adj() == self.spec_r_sq_adj()
            },
            res matches Err(e) ==> ((e matches AmitaError::NotQRDecomposable { matrix_name }
                && matrix_name@ == "R matrix from QR-decomposed X"@) || (e matches
                AmitaError::NotInvertible { matrix_name } && matrix_name@
                == "R matrix from QR-decomposed X"@)),
    {
        proof {
            use_type_invariant(&self);
        }
        let OLSSolver { y, x, q, r, backend, results } = self;
        let p = r.cols();
        let r_inverse = match backend.invert(&r) {
            Ok(m) => m,
            Err(InversionError::NotDecomposable) => {
                return Err(AmitaError::NotQRDecomposable {
                    matrix_name: "R matrix from QR-decomposed X".to_owned(),
                });
            },
            Err(InversionError::Singular) => {
                return Err(AmitaError::NotInvertible {
                    matrix_name: "R matrix from QR-decomposed X".to_owned(),
                });
            },
        };
        if r_inverse.rows() != p || r_inverse.cols() != p {
            return Err(AmitaError::NotInvertible {
                matrix_name: "R matrix from QR-decomposed X".to_owned(),
            });
        }
        let qty = transpose_times_vec(&q, &y);
        let coef = mat_vec(&r_inverse, &qty);
        let y_pred = mat_vec(&x, &coef);
        let resid = vec_minus(&y, &y_pred);
        let OLSResults {
            n_obs,
            n_regressors,
            se_type,
            coef: _,
            se,
            y_pred: _,
            resid: _,
            t,
            p_vals,
            r_sq,
            r_sq_adj,
        } = results;
        let results = OLSResults {
            n_obs,
            n_regressors,
            se_type,
            coef: Some(coef),
            se,
            y_pred: Some(y_pred),
            resid: Some(resid),
            t,
            p_vals,
            r_sq,
            r_sq_adj,
        };
        Ok(OLSSolver { y, x, q, r, backend, results })
    }

    /// The homoscedastic variance stage: `σ² = eᵗe / (n − p)` and
    /// `Var(β) = σ² (RᵗR)⁻¹`, computed from the triangular factor to
    /// avoid reforming the Gram matrix of `X`; standard errors are the
    /// square roots of the diagonal.
    ///
    /// Fails with [`AmitaError::NotSolved`] exactly when the residuals
    /// are not yet populated, and otherwise with
    /// [`AmitaError::NotQRDecomposable`] or [`AmitaError::NotInvertible`]
    /// as the backend's inversion of `RᵗR` does.
    pub fn solve_non_robust_se(self) -> (res: Result<Self, AmitaError>)
        requires
            self.spec_n_obs() > self.spec_n_regressors(),
        ensures
            res matches Ok(s) ==> {
                &&& s.same_problem(self)
                &&& s.spec_snapshot().se matches Some(v) && v.len()
                    == self.spec_n_regressors()
                &&& s.spec_snapshot().coef == self.spec_snapshot().coef
                &&& s.spec_snapshot().t == self.spec_snapshot().t
                &&& s.spec_snapshot().p_vals == self.spec_snapshot().p_vals
                &&& s.spec_y_pred() == self.spec_y_pred()
                &&& s.spec_resid() == self.spec_resid()
                &&& s.spec_r_sq() == self.spec_r_sq()
                &&& s.spec_r_sq_adj() == self.spec_r_sq_adj()
            },
            res matches Err(e) ==> (e is NotSolved || (e matches
                AmitaError::NotQRDecomposable { matrix_name } && matrix_name@
                == "RtR matrix from QR-decomposed X"@) || (e matches
                AmitaError::NotInvertible { matrix_name } && matrix_name@
                == "RtR matrix from QR-decomposed X"@)),
            (res matches Err(e) && e is NotSolved) <==> self.spec_resid() is None,
    {
        proof {
            use_type_invariant(&self);
        }
        let OLSSolver { y, x, q, r, backend, results } = self;
        if results.resid.is_none() {
            return Err(AmitaError::NotSolved);
        }
        let sigma = match &results.resid {
            Some(resid) => {
                dot(resid, resid).divided_by(
                    T::from_count(results.n_obs - results.n_regressors),
                )
            },
            None => T::zero(),
        };
        let rtr = gram(&r);
        let p = r.cols();
        let variance = match backend.invert(&rtr) {
            Ok(m) => m,
            Err(InversionError::NotDecomposable) => {
                return Err(AmitaError::NotQRDecomposable {
                    matrix_name: "RtR matrix from QR-decomposed X".to_owned(),
                });
            },
            Err(InversionError::Singular) => {
                return Err(AmitaError::NotInvertible {
                    matrix_name: "RtR matrix from QR-decomposed X".to_owned(),
                });
            },
        };
        if variance.rows() != p || variance.cols() != p {
            return Err(AmitaError::NotInvertible {
                matrix_name: "RtR matrix from QR-decomposed X".to_owned(),
            });
        }
        let d = diag(&variance);
        let mut se: Vec<T> = Vec::new();
        let mut k: usize = 0;
        while k < d.len()
            invariant
                k <= d@.len(),
                se@.len() == k,
            decreases d@.len() - k,
        {
            se.push(d[k].times(sigma).sqrt());
            k = k + 1;
        }
        let OLSResults {
            n_obs,
            n_regressors,
            se_type,
            coef,
            se: _,
            y_pred,
            resid,
            t,
            p_vals,
            r_sq,
            r_sq_adj,
        } = results;
        let results = OLSResults {
            n_obs,
            n_regressors,
            se_type,
            coef,
            se: Some(se),
            y_pred,
            resid,
            t,
            p_vals,
            r_sq,
            r_sq_adj,
        };
        Ok(OLSSolver { y, x, q, r, backend, results })
    }

    /// The heteroscedasticity-consistent variance stage, shared by the
    /// three leverage-corrected variants:
    /// `Var(β) = s · (XᵗX)⁻¹ Xᵗ diag(wᵢ) X (XᵗX)⁻¹`, with `(XᵗX)⁻¹`
    /// computed as `(RᵗR)⁻¹` and, writing `hᵢ` for the leverage
    /// `xᵢᵗ(XᵗX)⁻¹xᵢ`:
    /// - `kind` 1 (HC1): `wᵢ = eᵢ²`, `s = n/(n−p)`;
    /// - `kind` 2 (HC2): `wᵢ = eᵢ²/(1−hᵢ)`, `s = 1`;
    /// - `kind` 3 (HC3): `wᵢ = eᵢ²/(1−hᵢ)²`, `s = 1`.
    fn solve_sandwich_se(self, kind: u8) -> (res: Result<Self, AmitaError>)
        requires
            1 <= kind <= 3,
            self.spec_n_obs() > self.spec_n_regressors(),
        ensures
            res matches Ok(s) ==> {
                &&& s.same_problem(self)
                &&& s.spec_snapshot().se matches Some(v) && v.len()
                    == self.spec_n_regressors()
                &&& s.spec_snapshot().coef == self.spec_snapshot().coef
                &&& s.spec_snapshot().t == self.spec_snapshot().t
                &&& s.spec_snapshot().p_vals == self.spec_snapshot().p_vals
                &&& s.spec_y_pred() == self.spec_y_pred()
                &&& s.spec_resid() == self.spec_resid()
                &&& s.spec_r_sq() == self.spec_r_sq()
                &&& s.spec_r_sq_adj() == self.spec_r_sq_adj()
            },
            res matches Err(e) ==> (e is NotSolved || (e matches
                AmitaError::NotQRDecomposable { matrix_name } && matrix_name@
                == "RtR matrix from QR-decomposed X"@) || (e matches
                AmitaError::NotInvertible { matrix_name } && matrix_name@
                == "RtR matrix from QR-decomposed X"@)),
            (res matches Err(e) && e is NotSolved) <==> self.spec_resid() is None,
    {
        proof {
            use_type_invariant(&self);
        }
        let OLSSolver { y, x, q, r, backend, results } = self;
        if results.resid.is_none() {
            return Err(AmitaError::NotSolved);
        }
        let p = r.cols();
        let rtr = gram(&r);
        let a_inv = match backend.invert(&rtr) {
            Ok(m) => m,
            Err(InversionError::NotDecomposable) => {
                return Err(AmitaError::NotQRDecomposable {
                    matrix_name: "RtR matrix from QR-decomposed X".to_owned(),
                });
            },
            Err(InversionError::Singular) => {
                return Err(AmitaError::NotInvertible {
                    matrix_name: "RtR matrix from QR-decomposed X".to_owned(),
                });
            },
        };
        if a_inv.rows() != p || a_inv.cols() != p {
            return Err(AmitaError::NotInvertible {
                matrix_name: "RtR matrix from QR-decomposed X".to_owned(),
            });
        }
        let n = x.rows();
        let h = leverages(&x, &a_inv);
        let mut se: Vec<T> = Vec::new();
        match &results.resid {
            Some(resid) => {
                let mut w: Vec<T> = Vec::new();
                let mut i: usize = 0;
                while i < n
                    invariant
                        n == x.spec_rows(),
                        resid@.len() == n,
                        h@.len() == n,
                        i <= n,
                        w@.len() == i,
                    decreases n - i,
                {
                    let e2 = resid[i].times(resid[i]);
                    let wi = if kind == 1 {
                        e2
                    } else if kind == 2 {
                        e2.divided_by(T::one().minus(h[i]))
                    } else {
                        let d = T::one().minus(h[i]);
                        e2.divided_by(d.times(d))
                    };
                    w.push(wi);
                    i = i + 1;
                }
                let b = weighted_gram(&x, &w);
                let ab = mat_mul(&a_inv, &b);
                let v = mat_mul(&ab, &a_inv);
                let scale = if kind == 1 {
                    T::from_count(results.n_obs).divided_by(
                        T::from_count(results.n_obs - results.n_regressors),
                    )
                } else {
                    T::one()
                };
                let d = diag(&v);
                let mut k: usize = 0;
                while k < d.len()
                    invariant
                        k <= d@.len(),
                        se@.len() == k,
                    decreases d@.len() - k,
                {
                    se.push(d[k].times(scale).sqrt());
                    k = k + 1;
                }
            },
            None => {},
        }
        let OLSResults {
            n_obs,
            n_regressors,
            se_type,
            coef,
            se: _,
            y_pred,
            resid,
            t,
            p_vals,
            r_sq,
            r_sq_adj,
        } = results;
        let results = OLSResults {
            n_obs,
            n_regressors,
            se_type,
            coef,
            se: Some(se),
            y_pred,
            resid,
            t,
            p_vals,
            r_sq,
            r_sq_adj,
        };
        Ok(OLSSolver { y, x, q, r, backend, results })
    }

    /// The robust variance stage behind the [`SEType::Robust`] alias:
    /// the HC3 sandwich with the full leverage correction.
    pub fn solve_robust_se(self) -> (res: Result<Self, AmitaError>)
        requires
            self.spec_n_obs() > self.spec_n_regressors(),
        ensures
            res matches Ok(s) ==> {
                &&& s.same_problem(self)
                &&& s.spec_snapshot().se matches Some(v) && v.len()
                    == self.spec_n_regressors()
                &&& s.spec_snapshot().coef == self.spec_snapshot().coef
                &&& s.spec_snapshot().t == self.spec_snapshot().t
                &&& s.spec_snapshot().p_vals == self.spec_snapshot().p_vals
                &&& s.spec_y_pred() == self.spec_y_pred()
                &&& s.spec_resid() == self.spec_resid()
                &&& s.spec_r_sq() == self.spec_r_sq()
                &&& s.spec_r_sq_adj() == self.spec_r_sq_adj()
            },
            res matches Err(e) ==> (e is NotSolved || (e matches
                AmitaError::NotQRDecomposable { matrix_name } && matrix_name@
                == "RtR matrix from QR-decomposed X"@) || (e matches
                AmitaError::NotInvertible { matrix_name } && matrix_name@
                == "RtR matrix from QR-decomposed X"@)),
            (res matches Err(e) && e is NotSolved) <==> self.spec_resid() is None,
    {
        self.solve_sandwich_se(3)
    }

    /// The cluster-robust variance stage:
    /// `Var(β) = c · (XᵗX)⁻¹ (Σ_g s_g s_gᵗ) (XᵗX)⁻¹`, where
    /// `s_g = Σ_{i∈g} eᵢ xᵢ` sums the score over the observations of
    /// cluster `g`, and the finite-sample factor is
    /// `c = (G/(G−1)) · ((n−1)/(n−p))` for `G` clusters.
    pub fn solve_clustered_se(self) -> (res: Result<Self, AmitaError>)
        requires
            self.spec_se_type() matches SEType::Clustered { by } && by@.len()
                == self.spec_n_obs(),
            self.spec_n_obs() > self.spec_n_regressors(),
        ensures
            res matches Ok(s) ==> {
                &&& s.same_problem(self)
                &&& s.spec_snapshot().se matches Some(v) && v.len()
                    == self.spec_n_regressors()
                &&& s.spec_snapshot().coef == self.spec_snapshot().coef
                &&& s.spec_snapshot().t == self.spec_snapshot().t
                &&& s.spec_snapshot().p_vals == self.spec_snapshot().p_vals
                &&& s.spec_y_pred() == self.spec_y_pred()
                &&& s.spec_resid() == self.spec_resid()
                &&& s.spec_r_sq() == self.spec_r_sq()
                &&& s.spec_r_sq_adj() == self.spec_r_sq_adj()
            },
            res matches Err(e) ==> (e is NotSolved || (e matches
                AmitaError::NotQRDecomposable { matrix_name } && matrix_name@
                == "RtR matrix from QR-decomposed X"@) || (e matches
                AmitaError::NotInvertible { matrix_name } && matrix_name@
                == "RtR matrix from QR-decomposed X"@)),
            (res matches Err(e) && e is NotSolved) <==> self.spec_resid() is None,
    {
        proof {
            use_type_invariant(&self);
        }
        let OLSSolver { y, x, q, r, backend, results } = self;
        if results.resid.is_none() {
            return Err(AmitaError::NotSolved);
        }
        let p = r.cols();
        let rtr = gram(&r);
        let a_inv = match backend.invert(&rtr) {
            Ok(m) => m,
            Err(InversionError::NotDecomposable) => {
                return Err(AmitaError::NotQRDecomposable {
                    matrix_name: "RtR matrix from QR-decomposed X".to_owned(),
                });
            },
            Err(InversionError::Singular) => {
                return Err(AmitaError::NotInvertible {
                    matrix_name: "RtR matrix from QR-decomposed X".to_owned(),
                });
            },
        };
        if a_inv.rows() != p || a_inv.cols() != p {
            return Err(AmitaError::NotInvertible {
                matrix_name: "RtR matrix from QR-decomposed X".to_owned(),
            });
        }
        let n = x.rows();
        let mut se: Vec<T> = Vec::new();
        match (&results.resid, &results.se_type) {
            (Some(resid), SEType::Clustered { by }) => {
                // Dense tags: the number of clusters is one past the
                // largest tag.
                let mut max_tag: i32 = 0;
                let mut i: usize = 0;
                while i < n
                    invariant
                        by@.len() == n,
                        i <= n,
                        max_tag >= 0,
                    decreases n - i,
                {
                    if by[i] > max_tag {
                        max_tag = by[i];
                    }
                    i = i + 1;
                }
                let groups = (max_tag as usize) + 1;
                let mut srows: Vec<Vec<T>> = Vec::new();
                let mut g: usize = 0;
                while g < groups
                    invariant
                        n == x.spec_rows(),
                        p == x.spec_cols(),
                        by@.len() == n,
                        resid@.len() == n,
                        g <= groups,
                        srows@.len() == g,
                        forall|t: int| 0 <= t < g ==> (#[trigger] srows@[t])@.len() == p,
                    decreases groups - g,
                {
                    let mut row: Vec<T> = Vec::new();
                    let mut a: usize = 0;
                    while a < p
                        invariant
                            n == x.spec_rows(),
                            p == x.spec_cols(),
                            by@.len() == n,
                            resid@.len() == n,
                            a <= p,
                            row@.len() == a,
                        decreases p - a,
                    {
                        let mut acc = T::zero();
                        let mut i2: usize = 0;
                        while i2 < n
                            invariant
                                n == x.spec_rows(),
                                p == x.spec_cols(),
                                by@.len() == n,
                                resid@.len() == n,
                                a < p,
                                i2 <= n,
                            decreases n - i2,
                        {
                            if by[i2] >= 0 && by[i2] as usize == g {
                                acc = acc.plus(resid[i2].times(x.get(i2, a)));
                            }
                            i2 = i2 + 1;
                        }
                        row.push(acc);
                        a = a + 1;
                    }
                    srows.push(row);
                    g = g + 1;
                }
                let score_sums = Mat::from_parts(p, srows);
                let b = gram(&score_sums);
                let ab = mat_mul(&a_inv, &b);
                let v = mat_mul(&ab, &a_inv);
                let scale = T::from_count(groups).divided_by(T::from_count(groups - 1)).times(
                    T::from_count(results.n_obs - 1).divided_by(
                        T::from_count(results.n_obs - results.n_regressors),
                    ),
                );
                let d = diag(&v);
                let mut k: usize = 0;
                while k < d.len()
                    invariant
                        k <= d@.len(),
                        se@.len() == k,
                    decreases d@.len() - k,
                {
                    se.push(d[k].times(scale).sqrt());
                    k = k + 1;
                }
            },
            _ => {},
        }
        let OLSResults {
            n_obs,
            n_regressors,
            se_type,
            coef,
            se: _,
            y_pred,
            resid,
            t,
            p_vals,
            r_sq,
            r_sq_adj,
        } = results;
        let results = OLSResults {
            n_obs,
            n_regressors,
            se_type,
            coef,
            se: Some(se),
            y_pred,
            resid,
            t,
            p_vals,
            r_sq,
            r_sq_adj,
        };
        Ok(OLSSolver { y, x, q, r, backend, results })
    }

    /// The variance stage, dispatched on the configured standard-error
    /// tag: homoscedastic, one of the leverage-corrected sandwich
    /// variants, or the cluster-robust form, followed by the inference
    /// stage.
    pub fn solve_se(self) -> (res: Result<Self, AmitaError>)
        requires
            self.spec_solvable(),
        ensures
            res matches Ok(s) ==> {
                &&& s.same_problem(self)
                &&& s.spec_snapshot().se matches Some(v) && v.len()
                    == self.spec_n_regressors()
                &&& s.spec_snapshot().t matches Some(v) && v.len()
                    == self.spec_n_regressors()
                &&& s.spec_snapshot().p_vals matches Some(v) && v.len()
                    == self.spec_n_regressors()
                &&& s.spec_snapshot().coef == self.spec_snapshot().coef
                &&& s.spec_y_pred() == self.spec_y_pred()
                &&& s.spec_resid() == self.spec_resid()
                &&& s.spec_r_sq() == self.spec_r_sq()
                &&& s.spec_r_sq_adj() == self.spec_r_sq_adj()
            },
            res matches Err(e) ==> (e is NotSolved || (e matches
                AmitaError::NotQRDecomposable { matrix_name } && matrix_name@
                == "RtR matrix from QR-decomposed X"@) || (e matches
                AmitaError::NotInvertible { matrix_name } && matrix_name@
                == "RtR matrix from QR-decomposed X"@)),
            (res matches Err(e) && e is NotSolved) ==> (self.spec_resid() is None
                || self.spec_snapshot().coef is None),
            (self.spec_resid() is None || self.spec_snapshot().coef is None) ==> res is Err,
    {
        let kind: u8 = match &self.results.se_type {
            SEType::Homoscedastic => 0,
            SEType::NonRobust => 0,
            SEType::HC1 => 1,
            SEType::HC2 => 2,
            SEType::HC3 => 3,
            SEType::Robust => 3,
            SEType::Clustered { .. } => 4,
        };
        if kind == 0 {
            let s = self.solve_non_robust_se()?;
            s.solve_t_pvals()
        } else if kind == 4 {
            let s = self.solve_clustered_se()?;
            s.solve_t_pvals()
        } else {
            let s = self.solve_sandwich_se(kind)?;
            s.solve_t_pvals()
        }
    }

    /// The inference stage: `tᵢ = βᵢ/seᵢ` and the two-sided p-value
    /// `2·(1 − T_cdf(|tᵢ|; df))` with `df = n − p − 1`.
    ///
    /// Fails with [`AmitaError::NotSolved`] exactly when the
    /// coefficients or the standard errors are not yet populated.
    pub fn solve_t_pvals(self) -> (res: Result<Self, AmitaError>)
        requires
            self.spec_n_obs() >= self.spec_n_regressors() + 2,
        ensures
            res matches Ok(s) ==> {
                &&& s.same_problem(self)
                &&& s.spec_snapshot().t matches Some(v) && v.len()
                    == self.spec_n_regressors()
                &&& s.spec_snapshot().p_vals matches Some(v) && v.len()
                    == self.spec_n_regressors()
                &&& s.spec_snapshot().coef == self.spec_snapshot().coef
                &&& s.spec_snapshot().se == self.spec_snapshot().se
                &&& s.spec_y_pred() == self.spec_y_pred()
                &&& s.spec_resid() == self.spec_resid()
                &&& s.spec_r_sq() == self.spec_r_sq()
                &&& s.spec_r_sq_adj() == self.spec_r_sq_adj()
            },
            res matches Err(e) ==> e is NotSolved,
            res is Err <==> (self.spec_snapshot().coef is None || self.spec_snapshot().se
                is None),
    {
        proof {
            use_type_invariant(&self);
        }
        let OLSSolver { y, x, q, r, backend, results } = self;
        if results.coef.is_none() || results.se.is_none() {
            return Err(AmitaError::NotSolved);
        }
        let df = T::from_count(results.n_obs - results.n_regressors - 1);
        let p = results.n_regressors;
        let mut t_stats: Vec<T> = Vec::new();
        let mut p_vals: Vec<T> = Vec::new();
        match (&results.coef, &results.se) {
            (Some(coef), Some(se)) => {
                let mut k: usize = 0;
                while k < p
                    invariant
                        coef@.len() == p,
                        se@.len() == p,
                        k <= p,
                        t_stats@.len() == k,
                        p_vals@.len() == k,
                    decreases p - k,
                {
                    let tk = coef[k].divided_by(se[k]);
                    let two = T::one().plus(T::one());
                    let pk = two.times(T::one().minus(backend.students_t_cdf(tk.abs(), df)));
                    t_stats.push(tk);
                    p_vals.push(pk);
                    k = k + 1;
                }
            },
            _ => {},
        }
        let OLSResults {
            n_obs,
            n_regressors,
            se_type,
            coef,
            se,
            y_pred,
            resid,
            t: _,
            p_vals: _,
            r_sq,
            r_sq_adj,
        } = results;
        let results = OLSResults {
            n_obs,
            n_regressors,
            se_type,
            coef,
            se,
            y_pred,
            resid,
            t: Some(t_stats),
            p_vals: Some(p_vals),
            r_sq,
            r_sq_adj,
        };
        Ok(OLSSolver { y, x, q, r, backend, results })
    }

    /// The goodness-of-fit stage: `R² = 1 − RSS/TSS` and the adjusted
    /// `R²` with the degrees-of-freedom corrections `n − p − 1` and
    /// `n − 1`.
    ///
    /// Fails with [`AmitaError::NotSolved`] exactly when the residuals
    /// are not yet populated.
    pub fn solve_r_sq(self) -> (res: Result<Self, AmitaError>)
        requires
            self.spec_n_obs() >= self.spec_n_regressors() + 2,
        ensures
            res matches Ok(s) ==> {
                &&& s.same_problem(self)
                &&& s.spec_r_sq() is Some
                &&& s.spec_r_sq_adj() is Some
                &&& s.spec_snapshot() == self.spec_snapshot()
                &&& s.spec_y_pred() == self.spec_y_pred()
                &&& s.spec_resid() == self.spec_resid()
            },
            res matches Err(e) ==> e is NotSolved,
            res is Err <==> self.spec_resid() is None,
    {
        proof {
            use_type_invariant(&self);
        }
        let OLSSolver { y, x, q, r, backend, results } = self;
        if results.resid.is_none() {
            return Err(AmitaError::NotSolved);
        }
        let n = results.n_obs;
        let y_mean = vec_sum(&y).divided_by(T::from_count(n));
        let rss = match &results.resid {
            Some(resid) => dot(resid, resid),
            None => T::zero(),
        };
        let mut tss = T::zero();
        let mut i: usize = 0;
        while i < y.len()
            invariant
                i <= y@.len(),
            decreases y@.len() - i,
        {
            let d = y[i].minus(y_mean);
            tss = tss.plus(d.times(d));
            i = i + 1;
        }
        let df_rss = T::from_count(results.n_obs - results.n_regressors - 1);
        let df_tss = T::from_count(results.n_obs - 1);
        let r_sq = T::one().minus(rss.divided_by(tss));
        let r_sq_adj = T::one().minus(rss.divided_by(df_rss).divided_by(tss.divided_by(df_tss)));
        let OLSResults {
            n_obs,
            n_regressors,
            se_type,
            coef,
            se,
            y_pred,
            resid,
            t,
            p_vals,
            r_sq: _,
            r_sq_adj: _,
        } = results;
        let results = OLSResults {
            n_obs,
            n_regressors,
            se_type,
            coef,
            se,
            y_pred,
            resid,
            t,
            p_vals,
            r_sq: Some(r_sq),
            r_sq_adj: Some(r_sq_adj),
        };
        Ok(OLSSolver { y, x, q, r, backend, results })
    }

    /// What [`Solver::solve`] guarantees for this engine: on success,
    /// every estimate field and both goodness-of-fit measures are
    /// populated with the lengths the dimensions dictate and the data
    /// and configuration are untouched; on failure, the error is one of
    /// the two numerical conditions.
    pub open spec fn spec_solve_post(self, r: Result<Self, AmitaError>) -> bool {
        match r {
            Ok(s) => {
                &&& s.same_problem(self)
                &&& s.spec_snapshot().coef matches Some(c) && c.len()
                    == self.spec_n_regressors()
                &&& s.spec_snapshot().se matches Some(v) && v.len()
                    == self.spec_n_regressors()
                &&& s.spec_snapshot().t matches Some(v) && v.len()
                    == self.spec_n_regressors()
                &&& s.spec_snapshot().p_vals matches Some(v) && v.len()
                    == self.spec_n_regressors()
                &&& s.spec_y_pred() matches Some(v) && v.len() == self.spec_n_obs()
                &&& s.spec_resid() matches Some(v) && v.len() == self.spec_n_obs()
                &&& s.spec_r_sq() is Some
                &&& s.spec_r_sq_adj() is Some
            },
            Err(e) => {
                ||| (e matches AmitaError::NotQRDecomposable { matrix_name }
                    && (matrix_name@ == "R matrix from QR-decomposed X"@ || matrix_name@
                    == "RtR matrix from QR-decomposed X"@))
                ||| (e matches AmitaError::NotInvertible { matrix_name } && (matrix_name@
                    == "R matrix from QR-decomposed X"@ || matrix_name@
                    == "RtR matrix from QR-decomposed X"@))
            },
        }
    }
}

/// The leverage of each observation: `hᵢ = xᵢᵗ · a · xᵢ` for the rows
/// `xᵢ` of `x`.
fn leverages<T: Scalar>(x: &Mat<T>, a: &Mat<T>) -> (r: Vec<T>)
    requires
        a.spec_rows() == x.spec_cols(),
        a.spec_cols() == x.spec_cols(),
    ensures
        r@.len() == x.spec_rows(),
{
    let mut out: Vec<T> = Vec::new();
    let mut i: usize = 0;
    let n = x.rows();
    while i < n
        invariant
            n == x.spec_rows(),
            a.spec_rows() == x.spec_cols(),
            a.spec_cols() == x.spec_cols(),
            i <= n,
            out@.len() == i,
        decreases n - i,
    {
        let row = x.row_ref(i);
        let ar = mat_vec(a, row);
        out.push(dot(row, &ar));
        i = i + 1;
    }
    out
}

impl<T: Scalar, B: Backend<T>> Solver<T, OLSResults<T>> for OLSSolver<T, B> {
    open spec fn solvable(&self) -> bool {
        self.spec_solvable()
    }

    open spec fn solve_post(&self, r: Result<Self, AmitaError>) -> bool {
        self.spec_solve_post(r)
    }

    open spec fn snapshot(&self) -> ResultsState<T> {
        self.spec_snapshot()
    }

    fn can_solve(&self) -> (b: bool) {
        let dims_ok = self.results.n_obs >= self.results.n_regressors && self.results.n_obs
            - self.results.n_regressors >= 2;
        let tags_ok = match &self.results.se_type {
            SEType::Clustered { by } => {
                if by.len() != self.results.n_obs {
                    false
                } else {
                    let mut all_nonneg = true;
                    let mut i: usize = 0;
                    while i < by.len()
                        invariant
                            i <= by@.len(),
                            all_nonneg <==> forall|k: int| 0 <= k < i ==> #[trigger] by@[k]
                                >= 0,
                        decreases by@.len() - i,
                    {
                        if by[i] < 0 {
                            all_nonneg = false;
                        }
                        i = i + 1;
                    }
                    all_nonneg
                }
            },
            _ => true,
        };
        dims_ok && tags_ok
    }

    fn results(&self) -> (r: OLSResults<T>) {
        OLSResults {
            n_obs: self.results.n_obs,
            n_regressors: self.results.n_regressors,
            se_type: clone_se_type(&self.results.se_type),
            coef: clone_opt_vec(&self.results.coef),
            se: clone_opt_vec(&self.results.se),
            y_pred: clone_opt_vec(&self.results.y_pred),
            resid: clone_opt_vec(&self.results.resid),
            t: clone_opt_vec(&self.results.t),
            p_vals: clone_opt_vec(&self.results.p_vals),
            r_sq: self.results.r_sq,
            r_sq_adj: self.results.r_sq_adj,
        }
    }

    fn solve(self) -> (r: Result<Self, AmitaError>) {
        let s = self.solve_coef()?;
        let s = s.solve_se()?;
        let s = s.solve_r_sq()?;
        Ok(s)
    }
}

/// A copy of a populated-or-absent vector field.
fn clone_opt_vec<T: Copy>(o: &Option<Vec<T>>) -> (r: Option<Vec<T>>)
    ensures
        view_opt(r) == view_opt(*o),
{
    match o {
        Some(v) => Some(clone_scalars(v)),
        None => None,
    }
}

/// A copy of a standard-error tag.
fn clone_se_type(s: &SEType) -> SEType {
    match s {
        SEType::Homoscedastic => SEType::Homoscedastic,
        SEType::HC1 => SEType::HC1,
        SEType::HC2 => SEType::HC2,
        SEType::HC3 => SEType::HC3,
        SEType::Clustered { by } => SEType::Clustered { by: clone_scalars(by) },
        SEType::NonRobust => SEType::NonRobust,
        SEType::Robust => SEType::Robust,
    }
}

} // verus!
