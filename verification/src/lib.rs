//! A statistical estimation engine.
//!
//! Given a response vector and a design matrix, this crate fits linear
//! (ordinary least squares) and binary discrete-choice (logit) regression
//! models, producing coefficients, standard errors under several variance
//! assumptions, t-statistics, p-values, and goodness-of-fit measures.
//!
//! Scalars are kept abstract behind [`scalar::Scalar`], and the numerical
//! primitives the engine consumes as black boxes (QR factorization,
//! matrix inversion, the Student's-t CDF, and the quasi-Newton optimizer)
//! sit behind [`backend::Backend`], so that everything the crate itself
//! computes — validation, the staged solve pipeline, standard-error
//! dispatch, cluster tag resolution, and the estimation formulas — is
//! verified.

pub mod backend;
pub mod dataset;
pub mod errors;
pub mod inference;
pub mod linalg;
pub mod logit;
pub mod math;
pub mod ols;
pub mod matrix;
pub mod scalar;
pub mod traits;
