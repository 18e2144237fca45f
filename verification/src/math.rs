//! Shared mathematical helpers.

use vstd::prelude::*;

verus! {

use vstd::string::StringExecFns;

use crate::scalar::Scalar;

/// A bracketed, comma-separated rendering of a scalar vector, for
/// summaries.
pub fn render_scalars<T: Scalar>(v: &Vec<T>) -> String {
    let mut s = "[".to_owned();
    let mut k: usize = 0;
    while k < v.len()
        decreases v@.len() - k,
    {
        if k > 0 {
            s.append(", ");
        }
        s.append(v[k].render().as_str());
        k = k + 1;
    }
    s.append("]");
    s
}

/// The logistic function `sigmoid(z) = 1 / (1 + e^(-z))`.
///
/// Scalar values are opaque to verification, so its numerical behavior
/// (one half at zero, approaching one and zero in the tails) is pinned
/// by tests over a concrete scalar rather than by a contract.
pub fn sigmoid<T: Scalar>(z: T) -> T {
    T::one().divided_by(T::one().plus(z.neg().exp()))
}

} // verus!
