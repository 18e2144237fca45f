//! The capability interfaces shared by the concrete engines: a `Results`
//! snapshot that fails with a typed "not solved" condition on premature
//! access, and a `Solver` whose `solve` consumes the solver and returns
//! either the solved value or a typed failure.

use vstd::prelude::*;

verus! {

use crate::errors::AmitaError;

/// The abstract state of a results snapshot: which estimate fields have
/// been populated, and with what. A field is `None` until the pipeline
/// stage that computes it has run.
pub struct ResultsState<T> {
    pub coef: Option<Seq<T>>,
    pub se: Option<Seq<T>>,
    pub t: Option<Seq<T>>,
    pub p_vals: Option<Seq<T>>,
}

/// An immutable snapshot of a solver's estimates. Every accessor yields
/// exactly the populated field, and fails with
/// [`AmitaError::NotSolved`] — never a placeholder — while the field is
/// absent.
pub trait SolverResults<T>: Sized {
    /// Which fields are populated, and with what.
    spec fn state(&self) -> ResultsState<T>;

    /// The fitted coefficients.
    fn coef(&self) -> (r: Result<Vec<T>, AmitaError>)
        ensures
            match self.state().coef {
                Some(c) => r matches Ok(v) && v@ == c,
                None => r matches Err(e) && e is NotSolved,
            },
    ;

    /// The standard errors of the coefficients.
    fn se(&self) -> (r: Result<Vec<T>, AmitaError>)
        ensures
            match self.state().se {
                Some(c) => r matches Ok(v) && v@ == c,
                None => r matches Err(e) && e is NotSolved,
            },
    ;

    /// The t-statistics of the coefficients.
    fn t(&self) -> (r: Result<Vec<T>, AmitaError>)
        ensures
            match self.state().t {
                Some(c) => r matches Ok(v) && v@ == c,
                None => r matches Err(e) && e is NotSolved,
            },
    ;

    /// The two-sided p-values of the coefficients.
    fn p_vals(&self) -> (r: Result<Vec<T>, AmitaError>)
        ensures
            match self.state().p_vals {
                Some(c) => r matches Ok(v) && v@ == c,
                None => r matches Err(e) && e is NotSolved,
            },
    ;

    /// A textual summary of the estimates. Available once coefficients,
    /// standard errors and t-statistics are all populated; fails with
    /// [`AmitaError::NotSolved`] before that.
    fn summary(&self) -> (r: Result<String, AmitaError>)
        ensures
            r is Ok <==> (self.state().coef is Some && self.state().se is Some
                && self.state().t is Some),
            r matches Err(e) ==> e is NotSolved,
    ;
}

/// A regression engine over response data it owns exclusively.
///
/// `solve` consumes the solver and either returns the fully solved value
/// or a typed failure; a half-solved solver is never observable.
pub trait Solver<T, R: SolverResults<T>>: Sized {
    /// The inputs on which `solve` is defined. Concrete engines use this
    /// for the degrees-of-freedom floor that their formulas divide by.
    spec fn solvable(&self) -> bool;

    /// What `solve` guarantees of its outcome; each engine states its
    /// populated fields and its exact failure set here.
    spec fn solve_post(&self, r: Result<Self, AmitaError>) -> bool;

    /// The state of the results snapshot this solver currently holds.
    spec fn snapshot(&self) -> ResultsState<T>;

    /// Whether [`Solver::solve`] may be called on this value.
    fn can_solve(&self) -> (b: bool)
        ensures
            b == self.solvable(),
    ;

    /// The current — possibly incomplete — results snapshot.
    fn results(&self) -> (r: R)
        ensures
            r.state() == self.snapshot(),
    ;

    /// Runs the full pipeline of stages to completion.
    fn solve(self) -> (r: Result<Self, AmitaError>)
        requires
            self.solvable(),
        ensures
            self.solve_post(r),
    ;
}

/// The results of a fitted composite econometric model.
///
/// Implemented by downstream model layers outside this crate; no
/// behavior is assumed of such implementations.
pub trait AmitaModelResults: Sized {
    fn summary(&self) -> String;
}

/// A composite econometric model that assembles its own design matrix
/// and delegates estimation to a [`Solver`].
///
/// Implemented by downstream model layers outside this crate; no
/// behavior is assumed of such implementations.
pub trait AmitaModel<R: AmitaModelResults>: Sized {
    fn fit(&self) -> Result<R, AmitaError>;
}

} // verus!
