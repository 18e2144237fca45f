//! The tabular data the standard-error dispatcher reads.
//!
//! The engine never parses files or schemas itself; the host extracts
//! each named column as plain values and hands them over in a
//! [`Dataset`]: uniquely named columns of one height. A column either
//! holds values a grouping can be formed on — booleans, integers, or
//! strings — or records, with [`ColumnValues::Other`], the name of a
//! datatype that cannot be grouped on.

use vstd::prelude::*;

verus! {

/// The values of one column, homogeneous by construction.
pub enum ColumnValues {
    Bool(Vec<bool>),
    Int(Vec<i64>),
    Str(Vec<String>),
    /// A column of some other datatype, named so that the dispatcher
    /// can report it.
    Other { dtype: String },
}

/// A named column.
pub struct Column {
    pub name: String,
    pub values: ColumnValues,
}

impl Column {
    pub open spec fn spec_name(self) -> Seq<char> {
        self.name@
    }
}

/// A groupable column holds exactly `h` values; an `Other` column is
/// only a datatype record.
pub open spec fn column_len_ok(c: Column, h: nat) -> bool {
    match c.values {
        ColumnValues::Bool(v) => v@.len() == h,
        ColumnValues::Int(v) => v@.len() == h,
        ColumnValues::Str(v) => v@.len() == h,
        ColumnValues::Other { .. } => true,
    }
}

/// A host dataset: uniquely named columns, each holding one value per
/// observation.
pub struct Dataset {
    height: usize,
    columns: Vec<Column>,
}

impl Dataset {
    /// Every groupable column is exactly `height` long, and no two
    /// columns share a name.
    #[verifier::type_invariant]
    closed spec fn inv(self) -> bool {
        &&& forall|j: int| 0 <= j < self.columns@.len() ==> column_len_ok(
            #[trigger] self.columns@[j],
            self.height as nat,
        )
        &&& forall|a: int, b: int| 0 <= a < b < self.columns@.len()
            ==> self.columns@[a].spec_name() != self.columns@[b].spec_name()
    }

    pub closed spec fn spec_height(self) -> nat {
        self.height as nat
    }

    pub closed spec fn spec_columns(self) -> Seq<Column> {
        self.columns@
    }

    /// Whether some column carries this name.
    pub open spec fn spec_has_column(self, name: Seq<char>) -> bool {
        exists|j: int| 0 <= j < self.spec_columns().len() && (#[trigger] self.spec_columns()[j])
            .spec_name() == name
    }

    /// Builds a dataset of `height` observations. Returns `None` exactly
    /// when some groupable column is not `height` long or two columns
    /// share a name.
    pub fn new(height: usize, columns: Vec<Column>) -> (r: Option<Dataset>)
        ensures
            r matches Some(d) ==> {
                &&& d.spec_height() == height
                &&& d.spec_columns() == columns@
            },
            r is Some <==> ((forall|j: int| 0 <= j < columns@.len() ==> column_len_ok(
                #[trigger] columns@[j],
                height as nat,
            )) && (forall|a: int, b: int| 0 <= a < b < columns@.len() ==> columns@[a].spec_name()
                != columns@[b].spec_name())),
    {
        let mut lens_ok = true;
        let mut i: usize = 0;
        while i < columns.len()
            invariant
                i <= columns@.len(),
                lens_ok <==> forall|j: int| 0 <= j < i ==> column_len_ok(
                    #[trigger] columns@[j],
                    height as nat,
                ),
            decreases columns@.len() - i,
        {
            let ok = match &columns[i].values {
                ColumnValues::Bool(v) => v.len() == height,
                ColumnValues::Int(v) => v.len() == height,
                ColumnValues::Str(v) => v.len() == height,
                ColumnValues::Other { .. } => true,
            };
            if !ok {
                lens_ok = false;
            }
            i = i + 1;
        }
        let mut names_ok = true;
        let mut a: usize = 0;
        while a < columns.len()
            invariant
                a <= columns@.len(),
                names_ok <==> forall|s: int, t: int| 0 <= s < t < columns@.len() && s < a
                    ==> columns@[s].spec_name() != columns@[t].spec_name(),
            decreases columns@.len() - a,
        {
            let mut b: usize = a + 1;
            while b < columns.len()
                invariant
                    a < b || b == a + 1,
                    a < columns@.len(),
                    a + 1 <= b <= columns@.len(),
                    names_ok <==> ((forall|s: int, t: int| 0 <= s < t < columns@.len() && s < a
                        ==> columns@[s].spec_name() != columns@[t].spec_name()) && (forall|t: int|
                        a < t < b ==> columns@[a as int].spec_name() != (#[trigger] columns@[t])
                        .spec_name())),
                decreases columns@.len() - b,
            {
                if columns[a].name == columns[b].name {
                    names_ok = false;
                }
                b = b + 1;
            }
            a = a + 1;
        }
        if lens_ok && names_ok {
            Some(Dataset { height, columns })
        } else {
            None
        }
    }

    pub fn height(&self) -> (r: usize)
        ensures
            r == self.spec_height(),
    {
        self.height
    }

    /// The column carrying `name`, or `None` where there is none. With
    /// unique names, the returned column is the one column of that name.
    pub fn find_column(&self, name: &String) -> (r: Option<&Column>)
        ensures
            match r {
                Some(c) => {
                    &&& exists|j: int| 0 <= j < self.spec_columns().len()
                        && (#[trigger] self.spec_columns()[j]) == *c
                    &&& c.spec_name() == name@
                    &&& column_len_ok(*c, self.spec_height())
                    &&& forall|j: int| 0 <= j < self.spec_columns().len()
                        && (#[trigger] self.spec_columns()[j]).spec_name() == name@
                        ==> self.spec_columns()[j] == *c
                },
                None => !self.spec_has_column(name@),
            },
    {
        proof {
            use_type_invariant(self);
        }
        let mut i: usize = 0;
        while i < self.columns.len()
            invariant
                self.inv(),
                i <= self.columns@.len(),
                forall|j: int| 0 <= j < i ==> (#[trigger] self.columns@[j]).spec_name()
                    != name@,
            decreases self.columns@.len() - i,
        {
            if self.columns[i].name == *name {
                proof {
                    assert(self.spec_columns()[i as int] == self.columns@[i as int]);
                    assert(column_len_ok(self.columns@[i as int], self.spec_height()));
                    // Names are unique, so any column carrying this name
                    // is the one found here.
                    assert forall|j: int| 0 <= j < self.columns@.len()
                        && (#[trigger] self.columns@[j]).spec_name() == name@
                        implies self.columns@[j] == self.columns@[i as int] by {
                        if j < i {
                            assert(self.columns@[j].spec_name() != self.columns@[i as int]
                                .spec_name());
                        } else if i < j {
                            assert(self.columns@[i as int].spec_name() != self.columns@[j]
                                .spec_name());
                        }
                    }
                }
                return Some(&self.columns[i]);
            }
            i = i + 1;
        }
        None
    }
}

} // verus!
