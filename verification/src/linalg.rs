//! Vector and matrix kernels over abstract scalars.
//!
//! Scalar values are opaque (see [`crate::scalar::Scalar`]), so the
//! contracts here pin down the shapes of the results; the formulas
//! themselves are the executable bodies.

use vstd::prelude::*;

verus! {

use crate::matrix::Mat;
use crate::scalar::Scalar;

/// The inner product of two equally long vectors.
pub fn dot<T: Scalar>(a: &Vec<T>, b: &Vec<T>) -> T
    requires
        a@.len() == b@.len(),
{
    let mut acc = T::zero();
    let mut k: usize = 0;
    while k < a.len()
        invariant
            a@.len() == b@.len(),
            k <= a@.len(),
        decreases a@.len() - k,
    {
        acc = acc.plus(a[k].times(b[k]));
        k = k + 1;
    }
    acc
}

/// A copy of a vector of plain values.
pub fn clone_scalars<T: Copy>(v: &Vec<T>) -> (r: Vec<T>)
    ensures
        r@ == v@,
{
    let mut out: Vec<T> = Vec::new();
    let mut k: usize = 0;
    while k < v.len()
        invariant
            k <= v@.len(),
            out@ == v@.take(k as int),
        decreases v@.len() - k,
    {
        out.push(v[k]);
        k = k + 1;
    }
    proof {
        assert(v@.take(v@.len() as int) =~= v@);
    }
    out
}

/// The sum of a vector's entries.
pub fn vec_sum<T: Scalar>(v: &Vec<T>) -> T {
    let mut acc = T::zero();
    let mut k: usize = 0;
    while k < v.len()
        invariant
            k <= v@.len(),
        decreases v@.len() - k,
    {
        acc = acc.plus(v[k]);
        k = k + 1;
    }
    acc
}

/// The elementwise difference `a - b` of two equally long vectors.
pub fn vec_minus<T: Scalar>(a: &Vec<T>, b: &Vec<T>) -> (r: Vec<T>)
    requires
        a@.len() == b@.len(),
    ensures
        r@.len() == a@.len(),
{
    let mut out: Vec<T> = Vec::new();
    let mut k: usize = 0;
    while k < a.len()
        invariant
            a@.len() == b@.len(),
            k <= a@.len(),
            out@.len() == k,
        decreases a@.len() - k,
    {
        out.push(a[k].minus(b[k]));
        k = k + 1;
    }
    out
}

/// The matrix-vector product `m · v`.
pub fn mat_vec<T: Scalar>(m: &Mat<T>, v: &Vec<T>) -> (r: Vec<T>)
    requires
        v@.len() == m.spec_cols(),
    ensures
        r@.len() == m.spec_rows(),
{
    let mut out: Vec<T> = Vec::new();
    let mut i: usize = 0;
    let n = m.rows();
    while i < n
        invariant
            n == m.spec_rows(),
            v@.len() == m.spec_cols(),
            i <= n,
            out@.len() == i,
        decreases n - i,
    {
        let row = m.row_ref(i);
        out.push(dot(row, v));
        i = i + 1;
    }
    out
}

/// The product `mᵗ · v` of a matrix transpose with a vector.
pub fn transpose_times_vec<T: Scalar>(m: &Mat<T>, v: &Vec<T>) -> (r: Vec<T>)
    requires
        v@.len() == m.spec_rows(),
    ensures
        r@.len() == m.spec_cols(),
{
    let mut out: Vec<T> = Vec::new();
    let mut j: usize = 0;
    let n = m.rows();
    let p = m.cols();
    while j < p
        invariant
            n == m.spec_rows(),
            p == m.spec_cols(),
            v@.len() == n,
            j <= p,
            out@.len() == j,
        decreases p - j,
    {
        let mut acc = T::zero();
        let mut i: usize = 0;
        while i < n
            invariant
                n == m.spec_rows(),
                p == m.spec_cols(),
                v@.len() == n,
                j < p,
                i <= n,
            decreases n - i,
        {
            acc = acc.plus(m.get(i, j).times(v[i]));
            i = i + 1;
        }
        out.push(acc);
        j = j + 1;
    }
    out
}

/// The matrix product `a · b`.
pub fn mat_mul<T: Scalar>(a: &Mat<T>, b: &Mat<T>) -> (r: Mat<T>)
    requires
        a.spec_cols() == b.spec_rows(),
    ensures
        r.spec_rows() == a.spec_rows(),
        r.spec_cols() == b.spec_cols(),
{
    let mut rows_out: Vec<Vec<T>> = Vec::new();
    let mut i: usize = 0;
    let n = a.rows();
    let p = a.cols();
    let q = b.cols();
    while i < n
        invariant
            n == a.spec_rows(),
            p == a.spec_cols(),
            q == b.spec_cols(),
            p == b.spec_rows(),
            i <= n,
            rows_out@.len() == i,
            forall|t: int| 0 <= t < i ==> (#[trigger] rows_out@[t])@.len() == q,
        decreases n - i,
    {
        let mut row_out: Vec<T> = Vec::new();
        let mut j: usize = 0;
        while j < q
            invariant
                n == a.spec_rows(),
                p == a.spec_cols(),
                q == b.spec_cols(),
                p == b.spec_rows(),
                i < n,
                j <= q,
                row_out@.len() == j,
            decreases q - j,
        {
            let mut acc = T::zero();
            let mut k: usize = 0;
            while k < p
                invariant
                    n == a.spec_rows(),
                    p == a.spec_cols(),
                    q == b.spec_cols(),
                    p == b.spec_rows(),
                    i < n,
                    j < q,
                    k <= p,
                decreases p - k,
            {
                acc = acc.plus(a.get(i, k).times(b.get(k, j)));
                k = k + 1;
            }
            row_out.push(acc);
            j = j + 1;
        }
        rows_out.push(row_out);
        i = i + 1;
    }
    Mat::from_parts(q, rows_out)
}

/// The Gram matrix `mᵗ · m`.
pub fn gram<T: Scalar>(m: &Mat<T>) -> (r: Mat<T>)
    ensures
        r.spec_rows() == m.spec_cols(),
        r.spec_cols() == m.spec_cols(),
{
    let mut rows_out: Vec<Vec<T>> = Vec::new();
    let mut a: usize = 0;
    let n = m.rows();
    let p = m.cols();
    while a < p
        invariant
            n == m.spec_rows(),
            p == m.spec_cols(),
            a <= p,
            rows_out@.len() == a,
            forall|t: int| 0 <= t < a ==> (#[trigger] rows_out@[t])@.len() == p,
        decreases p - a,
    {
        let mut row_out: Vec<T> = Vec::new();
        let mut b: usize = 0;
        while b < p
            invariant
                n == m.spec_rows(),
                p == m.spec_cols(),
                a < p,
                b <= p,
                row_out@.len() == b,
            decreases p - b,
        {
            let mut acc = T::zero();
            let mut i: usize = 0;
            while i < n
                invariant
                    n == m.spec_rows(),
                    p == m.spec_cols(),
                    a < p,
                    b < p,
                    i <= n,
                decreases n - i,
            {
                acc = acc.plus(m.get(i, a).times(m.get(i, b)));
                i = i + 1;
            }
            row_out.push(acc);
            b = b + 1;
        }
        rows_out.push(row_out);
        a = a + 1;
    }
    Mat::from_parts(p, rows_out)
}

/// The weighted Gram matrix `mᵗ · diag(w) · m`, whose `(a, b)` entry is
/// `Σᵢ wᵢ · m[i,a] · m[i,b]`.
pub fn weighted_gram<T: Scalar>(m: &Mat<T>, w: &Vec<T>) -> (r: Mat<T>)
    requires
        w@.len() == m.spec_rows(),
    ensures
        r.spec_rows() == m.spec_cols(),
        r.spec_cols() == m.spec_cols(),
{
    let mut rows_out: Vec<Vec<T>> = Vec::new();
    let mut a: usize = 0;
    let n = m.rows();
    let p = m.cols();
    while a < p
        invariant
            n == m.spec_rows(),
            p == m.spec_cols(),
            w@.len() == n,
            a <= p,
            rows_out@.len() == a,
            forall|t: int| 0 <= t < a ==> (#[trigger] rows_out@[t])@.len() == p,
        decreases p - a,
    {
        let mut row_out: Vec<T> = Vec::new();
        let mut b: usize = 0;
        while b < p
            invariant
                n == m.spec_rows(),
                p == m.spec_cols(),
                w@.len() == n,
                a < p,
                b <= p,
                row_out@.len() == b,
            decreases p - b,
        {
            let mut acc = T::zero();
            let mut i: usize = 0;
            while i < n
                invariant
                    n == m.spec_rows(),
                    p == m.spec_cols(),
                    w@.len() == n,
                    a < p,
                    b < p,
                    i <= n,
                decreases n - i,
            {
                acc = acc.plus(w[i].times(m.get(i, a)).times(m.get(i, b)));
                i = i + 1;
            }
            row_out.push(acc);
            b = b + 1;
        }
        rows_out.push(row_out);
        a = a + 1;
    }
    Mat::from_parts(p, rows_out)
}

/// The main diagonal of a square matrix.
pub fn diag<T: Scalar>(m: &Mat<T>) -> (r: Vec<T>)
    requires
        m.spec_rows() == m.spec_cols(),
    ensures
        r@.len() == m.spec_rows(),
{
    let mut out: Vec<T> = Vec::new();
    let mut i: usize = 0;
    let n = m.rows();
    while i < n
        invariant
            n == m.spec_rows(),
            n == m.spec_cols(),
            i <= n,
            out@.len() == i,
        decreases n - i,
    {
        out.push(m.get(i, i));
        i = i + 1;
    }
    out
}

} // verus!
