//! The abstract scalar the estimation engine computes over.
//!
//! Verus has no theory of floating-point numbers, so the engine never names
//! a concrete numeric type. Instead every formula is written against this
//! trait, and the embedding program instantiates it with its own wrapper
//! around a machine float. The trait deliberately carries no contracts:
//! nothing is assumed about the arithmetic, and everything this crate
//! proves — shapes, staging, dispatch, and failure semantics — holds for
//! any implementation.

use vstd::prelude::*;

verus! {

/// Arithmetic, elementary functions, an ordering test, and rendering,
/// as the two solvers need them.
///
/// All operations are total: an implementation over IEEE floats returns
/// an infinity or a NaN where a textbook operation is undefined, and the
/// engine treats every returned value as opaque.
pub trait Scalar: Sized + Copy {
    /// The additive identity.
    fn zero() -> Self;

    /// The multiplicative identity.
    fn one() -> Self;

    /// The scalar standing for the count `n`, used for averaging and for
    /// degrees-of-freedom corrections.
    fn from_count(n: usize) -> Self;

    fn plus(self, other: Self) -> Self;

    fn minus(self, other: Self) -> Self;

    fn times(self, other: Self) -> Self;

    fn divided_by(self, other: Self) -> Self;

    fn neg(self) -> Self;

    fn sqrt(self) -> Self;

    /// The natural exponential.
    fn exp(self) -> Self;

    /// The natural logarithm.
    fn ln(self) -> Self;

    fn abs(self) -> Self;

    /// Whether `self` is at most `other`. Used only for run-time
    /// decisions (the convergence test); no ordering axioms are assumed.
    fn le(self, other: Self) -> bool;

    /// A textual rendering for summaries.
    fn render(self) -> String;
}

} // verus!
