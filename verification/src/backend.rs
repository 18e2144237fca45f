//! The numerical primitives the engines consume as black boxes.
//!
//! The estimation engine never reimplements QR factorization, matrix
//! inversion, the Student's-t distribution, or the quasi-Newton line
//! search; it consumes them through this trait. The embedding program
//! supplies an implementation over its concrete scalar — typically
//! `linfa_linalg` for the factorizations, `statrs` for the t CDF, and
//! `argmin` for the optimizer. The trait carries no contracts: nothing
//! is assumed of an implementation, and the engine re-checks every shape
//! it relies on at run time.

use vstd::prelude::*;

verus! {

use crate::matrix::Mat;
use crate::scalar::Scalar;

/// Why an inversion request failed: the matrix could not be factorized
/// at all, or it was factorized and found singular.
#[derive(Debug, Clone, PartialEq, Eq)]
pub enum InversionError {
    NotDecomposable,
    Singular,
}

/// The black-box numerical routines behind the engines.
pub trait Backend<T: Scalar>: Sized {
    /// The QR factorization `m = q · r` with `q` orthogonal and `r`
    /// upper-triangular, or `None` where `m` admits none.
    fn qr(&self, m: &Mat<T>) -> Option<(Mat<T>, Mat<T>)>;

    /// The inverse of a square matrix.
    fn invert(&self, m: &Mat<T>) -> Result<Mat<T>, InversionError>;

    /// The cumulative distribution function of Student's t with `df`
    /// degrees of freedom, evaluated at `x`.
    fn students_t_cdf(&self, x: T, df: T) -> T;

    /// Minimizes the negative mean log-likelihood of the binary-choice
    /// model over coefficients, starting from `init`, with an iteration
    /// budget and a gradient-norm tolerance. Returns the final
    /// parameter, or `None` where the optimizer failed outright.
    fn minimize_logit(&self, x: &Mat<T>, y: &Vec<T>, init: Vec<T>, max_iter: u64, tol: T)
        -> Option<Vec<T>>;
}

} // verus!
