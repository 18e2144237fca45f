//! The failure taxonomy shared by every solver and utility in this crate.
//!
//! All failures are surfaced to the caller as values of [`AmitaError`];
//! nothing in the verified library panics or aborts.

use vstd::prelude::*;

verus! {

use vstd::string::StringExecFns;

/// Every condition a solver, a results snapshot, or the cluster resolver
/// can fail with.
///
/// - Input-shape failures: [`AmitaError::NotSameObservations`],
///   [`AmitaError::NonBinary`], [`AmitaError::ColumnNotFound`],
///   [`AmitaError::ColumnDataTypeError`].
/// - Numerical failures: [`AmitaError::NotQRDecomposable`],
///   [`AmitaError::NotInvertible`].
/// - Degenerate-data failures: [`AmitaError::SingleObservationWithinCluster`].
/// - State failures: [`AmitaError::NotSolved`], [`AmitaError::NotFittedModel`].
/// - Convergence failures: [`AmitaError::NotConverged`].
#[derive(Debug, Clone, PartialEq, Eq)]
pub enum AmitaError {
    /// The response and the design matrix disagree on the number of
    /// observations.
    NotSameObservations,
    /// The named matrix admits no QR factorization.
    NotQRDecomposable { matrix_name: String },
    /// The named matrix is singular where an inverse is required.
    NotInvertible { matrix_name: String },
    /// The response of a binary-choice model holds values other than
    /// exactly {0, 1}.
    NonBinary { matrix_name: String },
    /// A cluster group holds a single observation, which makes
    /// cluster-robust variance undefined.
    SingleObservationWithinCluster { cluster: String },
    /// The iterative solver exhausted its iteration budget without
    /// meeting the gradient tolerance.
    NotConverged,
    /// A results field was queried before the stage that populates it ran.
    NotSolved,
    /// A model was inspected before being fitted.
    NotFittedModel,
    /// The named grouping column does not exist in the dataset.
    ColumnNotFound { column: String },
    /// The named grouping column holds a datatype that cannot be grouped on.
    ColumnDataTypeError { column: String, expected: String, found: String },
}

impl AmitaError {
    /// A human-readable description of the failure, in place of a
    /// `Display` implementation.
    pub fn message(&self) -> String {
        match self {
            AmitaError::NotSameObservations => {
                "Matrices consist of a different number of observations".to_owned()
            },
            AmitaError::NotQRDecomposable { matrix_name } => {
                let mut s = matrix_name.clone();
                s.append(" is not QR-decomposable");
                s
            },
            AmitaError::NotInvertible { matrix_name } => {
                let mut s = matrix_name.clone();
                s.append(" is not invertible");
                s
            },
            AmitaError::NonBinary { matrix_name } => {
                let mut s = "Elements in ".to_owned();
                s.append(matrix_name.as_str());
                s.append(" are non-binary");
                s
            },
            AmitaError::SingleObservationWithinCluster { cluster } => {
                let mut s = "Cluster ".to_owned();
                s.append(cluster.as_str());
                s.append(" contains only 1 observation");
                s
            },
            AmitaError::NotConverged => {
                "Solver stopped before meeting the gradient tolerance".to_owned()
            },
            AmitaError::NotSolved => "Solver is not solved".to_owned(),
            AmitaError::NotFittedModel => "Model is not fitted".to_owned(),
            AmitaError::ColumnNotFound { column } => {
                let mut s = "Column ".to_owned();
                s.append(column.as_str());
                s.append(" not found");
                s
            },
            AmitaError::ColumnDataTypeError { column, expected, found } => {
                let mut s = "Column ".to_owned();
                s.append(column.as_str());
                s.append(" contains unexpected datatype. Expected ");
                s.append(expected.as_str());
                s.append(", found ");
                s.append(found.as_str());
                s
            },
        }
    }
}

} // verus!
