//! A dense, immutable, row-major matrix over abstract scalars.

use vstd::prelude::*;

verus! {

/// A dense matrix stored as one `Vec` per row. Every row holds exactly
/// `width` entries; the invariant is enforced by every constructor, so a
/// `Mat` obtained from anywhere is well-formed.
#[derive(Debug)]
pub struct Mat<T> {
    width: usize,
    data: Vec<Vec<T>>,
}

impl<T> Mat<T> {
    /// Every row is exactly `width` long.
    #[verifier::type_invariant]
    pub closed spec fn wf(self) -> bool {
        forall|i: int| 0 <= i < self.data@.len() ==> (#[trigger] self.data@[i])@.len()
            == self.width
    }

    /// The number of rows (observations, for a design matrix).
    pub closed spec fn spec_rows(self) -> nat {
        self.data@.len()
    }

    /// The number of columns (regressors, for a design matrix).
    pub closed spec fn spec_cols(self) -> nat {
        self.width as nat
    }

    /// Row `i` as a sequence.
    pub closed spec fn spec_row(self, i: int) -> Seq<T>
        recommends
            0 <= i < self.spec_rows(),
    {
        self.data@[i]@
    }

    /// The entry in row `i`, column `j`.
    pub open spec fn entry(self, i: int, j: int) -> T
        recommends
            0 <= i < self.spec_rows(),
            0 <= j < self.spec_cols(),
    {
        self.spec_row(i)[j]
    }

    pub fn rows(&self) -> (r: usize)
        ensures
            r == self.spec_rows(),
    {
        self.data.len()
    }

    pub fn cols(&self) -> (r: usize)
        ensures
            r == self.spec_cols(),
    {
        self.width
    }

    /// Builds a matrix from rows, checking that every row is `width` long.
    /// Returns `None` exactly when some row has the wrong length.
    pub fn from_rows(width: usize, data: Vec<Vec<T>>) -> (r: Option<Mat<T>>)
        ensures
            r matches Some(m) ==> {
                &&& m.spec_cols() == width
                &&& m.spec_rows() == data@.len()
                &&& forall|i: int| 0 <= i < data@.len() ==> m.spec_row(i)
                    == (#[trigger] data@[i])@
            },
            r is Some <==> forall|i: int| 0 <= i < data@.len() ==> (#[trigger] data@[i])@.len()
                == width,
    {
        let mut ok = true;
        let mut i: usize = 0;
        while i < data.len()
            invariant
                i <= data@.len(),
                ok <==> forall|k: int| 0 <= k < i ==> (#[trigger] data@[k])@.len() == width,
            decreases data@.len() - i,
        {
            if data[i].len() != width {
                ok = false;
            }
            i = i + 1;
        }
        if ok {
            Some(Mat { width, data })
        } else {
            None
        }
    }

    /// Builds a matrix from rows already known to be `width` long.
    pub(crate) fn from_parts(width: usize, data: Vec<Vec<T>>) -> (r: Mat<T>)
        requires
            forall|i: int| 0 <= i < data@.len() ==> (#[trigger] data@[i])@.len() == width,
        ensures
            r.spec_cols() == width,
            r.spec_rows() == data@.len(),
            forall|i: int| 0 <= i < data@.len() ==> r.spec_row(i) == (#[trigger] data@[i])@,
    {
        Mat { width, data }
    }

    /// A borrowed view of row `i`.
    pub fn row_ref(&self, i: usize) -> (r: &Vec<T>)
        requires
            i < self.spec_rows(),
        ensures
            r@ == self.spec_row(i as int),
            r@.len() == self.spec_cols(),
    {
        proof {
            use_type_invariant(self);
        }
        &self.data[i]
    }
}

impl<T: Copy> Mat<T> {
    pub fn get(&self, i: usize, j: usize) -> (r: T)
        requires
            i < self.spec_rows(),
            j < self.spec_cols(),
        ensures
            r == self.entry(i as int, j as int),
    {
        proof {
            use_type_invariant(self);
        }
        self.data[i][j]
    }
}

} // verus!
