//! The standard-error strategy layer: resolving a model-level
//! standard-error request into the solver-level tag, including turning a
//! named categorical column into a dense per-observation cluster tag
//! array.
//!
//! Tag assignment is pinned to first-occurrence order: the value seen
//! first in the column gets tag 0, the next distinct value tag 1, and so
//! on.

use vstd::prelude::*;

verus! {

use crate::dataset::{Column, ColumnValues, Dataset};
use crate::errors::AmitaError;
use crate::ols::SEType;

/// One grouping value of a categorical column.
pub enum Key {
    B(bool),
    I(i64),
    S(String),
}

/// Equality of grouping values: same kind and same content.
pub open spec fn keq(a: Key, b: Key) -> bool {
    match (a, b) {
        (Key::B(x), Key::B(y)) => x == y,
        (Key::I(x), Key::I(y)) => x == y,
        (Key::S(x), Key::S(y)) => x@ == y@,
        _ => false,
    }
}

/// Executable equality of grouping values, deciding [`keq`].
pub fn key_eq(a: &Key, b: &Key) -> (r: bool)
    ensures
        r == keq(*a, *b),
{
    match (a, b) {
        (Key::B(x), Key::B(y)) => *x == *y,
        (Key::I(x), Key::I(y)) => *x == *y,
        (Key::S(x), Key::S(y)) => *x == *y,
        _ => false,
    }
}

/// An exact copy of a grouping value.
fn clone_key(a: &Key) -> (r: Key)
    ensures
        r == *a,
{
    match a {
        Key::B(x) => Key::B(*x),
        Key::I(x) => Key::I(*x),
        Key::S(x) => Key::S(x.clone()),
    }
}

/// How many entries of `s` equal `v`.
pub open spec fn key_count(s: Seq<Key>, v: Key) -> nat
    decreases s.len(),
{
    if s.len() == 0 {
        0
    } else {
        key_count(s.drop_last(), v) + if keq(s.last(), v) {
            1nat
        } else {
            0nat
        }
    }
}

/// Some value of `s` occurs exactly once: a singleton group.
pub open spec fn has_singleton(s: Seq<Key>) -> bool {
    exists|i: int| 0 <= i < s.len() && key_count(s, #[trigger] s[i]) == 1
}

/// The value at position `i` already occurs somewhere before it.
pub open spec fn appears_before(s: Seq<Key>, i: int) -> bool {
    exists|j: int| 0 <= j < i && keq(#[trigger] s[j], s[i])
}

/// How many distinct values occur among the first `i` entries of `s`.
pub open spec fn distinct_count(s: Seq<Key>, i: int) -> nat
    decreases i,
{
    if i <= 0 {
        0
    } else {
        distinct_count(s, i - 1) + if appears_before(s, i - 1) {
            0nat
        } else {
            1nat
        }
    }
}

/// Some entry of `tags` is exactly `t`.
pub open spec fn tag_taken(tags: Seq<i32>, t: int) -> bool {
    exists|i: int| 0 <= i < tags.len() && #[trigger] tags[i] == t
}

/// `tags` is a dense first-occurrence cluster tagging of `keys`:
/// aligned one to one, equal tags exactly for equal values, every tag
/// in `0 .. k` for `k` distinct values, every such tag taken, and the
/// first occurrence of the `m`-th distinct value tagged `m`.
pub open spec fn dense_first_occurrence_tags(keys: Seq<Key>, tags: Seq<i32>) -> bool {
    &&& tags.len() == keys.len()
    &&& forall|i: int, j: int| 0 <= i < keys.len() && 0 <= j < keys.len() ==> ((#[trigger] tags[i]
        == #[trigger] tags[j]) <==> keq(keys[i], keys[j]))
    &&& forall|i: int| 0 <= i < keys.len() ==> 0 <= #[trigger] tags[i] < distinct_count(
        keys,
        keys.len() as int,
    )
    &&& forall|t: int| 0 <= t < distinct_count(keys, keys.len() as int) ==> #[trigger] tag_taken(
        tags,
        t,
    )
    &&& forall|i: int| 0 <= i < keys.len() && !appears_before(keys, i) ==> #[trigger] tags[i]
        == distinct_count(keys, i)
}

/// How many entries of `vals` equal `v`.
fn count_eq(vals: &Vec<Key>, v: &Key) -> (c: usize)
    ensures
        c == key_count(vals@, *v),
{
    let mut c: usize = 0;
    let mut i: usize = 0;
    while i < vals.len()
        invariant
            i <= vals@.len(),
            c == key_count(vals@.take(i as int), *v),
            c <= i,
        decreases vals@.len() - i,
    {
        proof {
            assert(vals@.take(i + 1).drop_last() =~= vals@.take(i as int));
            assert(vals@.take(i + 1).last() == vals@[i as int]);
        }
        if key_eq(&vals[i], v) {
            c = c + 1;
        }
        i = i + 1;
    }
    proof {
        assert(vals@.take(vals@.len() as int) =~= vals@);
    }
    c
}

/// Resolves a column of grouping values into a dense first-occurrence
/// cluster tag array.
///
/// Fails with [`AmitaError::SingleObservationWithinCluster`] — naming
/// the column — exactly when some group holds a single observation;
/// otherwise the tags satisfy [`dense_first_occurrence_tags`].
pub fn resolve_tags(vals: &Vec<Key>, column: &String) -> (r: Result<Vec<i32>, AmitaError>)
    requires
        vals@.len() <= i32::MAX,
    ensures
        r is Ok <==> !has_singleton(vals@),
        r matches Ok(tags) ==> dense_first_occurrence_tags(vals@, tags@),
        r matches Err(e) ==> e matches AmitaError::SingleObservationWithinCluster { cluster }
            && cluster@ == column@,
{
    // Degenerate-cluster check: a value that occurs exactly once makes
    // cluster-robust variance undefined.
    let mut i: usize = 0;
    while i < vals.len()
        invariant
            i <= vals@.len(),
            forall|j: int| 0 <= j < i ==> key_count(vals@, #[trigger] vals@[j]) != 1,
        decreases vals@.len() - i,
    {
        if count_eq(vals, &vals[i]) == 1 {
            return Err(AmitaError::SingleObservationWithinCluster { cluster: column.clone() });
        }
        i = i + 1;
    }
    // First-occurrence tagging: walk the column, keeping the distinct
    // values seen so far in order of first occurrence; each value's tag
    // is the position of its representative.
    let n = vals.len();
    let mut reps: Vec<Key> = Vec::new();
    let mut tags: Vec<i32> = Vec::new();
    let mut idx: usize = 0;
    while idx < n
        invariant
            n == vals@.len(),
            n <= i32::MAX,
            idx <= n,
            tags@.len() == idx,
            reps@.len() == distinct_count(vals@, idx as int),
            reps@.len() <= idx,
            forall|a: int, b: int| 0 <= a < b < reps@.len() ==> !keq(
                #[trigger] reps@[a],
                #[trigger] reps@[b],
            ),
            forall|j: int| 0 <= j < idx ==> 0 <= #[trigger] tags@[j] < reps@.len(),
            forall|j: int| 0 <= j < idx ==> keq(vals@[j], reps@[#[trigger] tags@[j] as int]),
            forall|a: int| 0 <= a < reps@.len() ==> #[trigger] tag_taken(tags@, a),
            forall|j: int| 0 <= j < idx && !appears_before(vals@, j) ==> #[trigger] tags@[j]
                == distinct_count(vals@, j),
        decreases n - idx,
    {
        // Look for this value among the representatives; since they are
        // pairwise distinct there is at most one match.
        let mut found: usize = reps.len();
        let mut m: usize = 0;
        while m < reps.len()
            invariant
                m <= reps@.len(),
                found == reps@.len() || (found < m && keq(
                    vals@[idx as int],
                    reps@[found as int],
                )),
                found == reps@.len() ==> forall|t: int| 0 <= t < m ==> !keq(
                    vals@[idx as int],
                    #[trigger] reps@[t],
                ),
                idx < vals@.len(),
            decreases reps@.len() - m,
        {
            if found == reps.len() && key_eq(&vals[idx], &reps[m]) {
                found = m;
            }
            m = m + 1;
        }
        proof {
            assert(distinct_count(vals@, idx + 1) == distinct_count(vals@, idx as int)
                + if appears_before(vals@, idx as int) {
                0nat
            } else {
                1nat
            });
        }
        if found < reps.len() {
            // Seen before: reuse its representative's position.
            proof {
                // Some earlier entry carries this tag, so the value
                // appears before `idx`.
                assert(tag_taken(tags@, found as int));
                let j = choose|j: int| 0 <= j < tags@.len() && #[trigger] tags@[j]
                    == found as int;
                assert(keq(vals@[j], reps@[found as int]));
                assert(keq(vals@[j], vals@[idx as int]));
                assert(appears_before(vals@, idx as int));
            }
            let ghost tags_before = tags@;
            tags.push(found as i32);
            proof {
                assert forall|a: int| 0 <= a < reps@.len() implies tag_taken(tags@, a) by {
                    assert(tag_taken(tags_before, a));
                    let i0 = choose|i0: int| 0 <= i0 < tags_before.len()
                        && #[trigger] tags_before[i0] == a;
                    assert(tags@[i0] == a);
                }
            }
        } else {
            // A new distinct value: it gets the next fresh tag.
            proof {
                // No representative matches, and every earlier entry
                // matches its representative, so no earlier entry
                // matches this value.
                assert(!appears_before(vals@, idx as int)) by {
                    if appears_before(vals@, idx as int) {
                        let j = choose|j: int| 0 <= j < idx && keq(
                            #[trigger] vals@[j],
                            vals@[idx as int],
                        );
                        assert(keq(vals@[j], reps@[tags@[j] as int]));
                    }
                }
            }
            let ghost tags_before = tags@;
            let rep = clone_key(&vals[idx]);
            reps.push(rep);
            tags.push(found as i32);
            proof {
                assert(forall|j: int| 0 <= j < idx ==> keq(
                    vals@[j],
                    reps@[#[trigger] tags@[j] as int],
                ));
                assert forall|a: int| 0 <= a < reps@.len() implies tag_taken(tags@, a) by {
                    if a < reps@.len() - 1 {
                        assert(tag_taken(tags_before, a));
                        let i0 = choose|i0: int| 0 <= i0 < tags_before.len()
                            && #[trigger] tags_before[i0] == a;
                        assert(tags@[i0] == a);
                    } else {
                        assert(tags@[tags@.len() - 1] == a);
                    }
                }
            }
        }
        idx = idx + 1;
    }
    proof {
        // Equal tags exactly for equal values, from the representative
        // bookkeeping.
        assert forall|i1: int, j1: int| 0 <= i1 < vals@.len() && 0 <= j1 < vals@.len() implies ((
        #[trigger] tags@[i1] == #[trigger] tags@[j1]) <==> keq(vals@[i1], vals@[j1])) by {
            assert(keq(vals@[i1], reps@[tags@[i1] as int]));
            assert(keq(vals@[j1], reps@[tags@[j1] as int]));
            if tags@[i1] == tags@[j1] {
                assert(keq(vals@[i1], vals@[j1]));
            } else {
                if keq(vals@[i1], vals@[j1]) {
                    let a = tags@[i1] as int;
                    let b = tags@[j1] as int;
                    assert(keq(reps@[a], reps@[b]));
                    assert(false);
                }
            }
        }
    }
    Ok(tags)
}

/// The grouping values of a column, uniformly as [`Key`]s. A column
/// that cannot be grouped on has none.
pub open spec fn column_keys(v: ColumnValues) -> Seq<Key> {
    match v {
        ColumnValues::Bool(b) => b@.map_values(|x: bool| Key::B(x)),
        ColumnValues::Int(n) => n@.map_values(|x: i64| Key::I(x)),
        ColumnValues::Str(s) => s@.map_values(|x: String| Key::S(x)),
        ColumnValues::Other { .. } => Seq::empty(),
    }
}

/// The grouping values of a column, or `None` for a column that cannot
/// be grouped on.
fn keys_of_values(v: &ColumnValues) -> (r: Option<Vec<Key>>)
    ensures
        r matches Some(keys) ==> keys@ == column_keys(*v),
        r is Some <==> !(v is Other),
{
    match v {
        ColumnValues::Bool(b) => {
            let mut keys: Vec<Key> = Vec::new();
            let mut i: usize = 0;
            while i < b.len()
                invariant
                    i <= b@.len(),
                    keys@ =~= b@.take(i as int).map_values(|x: bool| Key::B(x)),
                decreases b@.len() - i,
            {
                keys.push(Key::B(b[i]));
                proof {
                    assert(keys@ =~= b@.take(i + 1).map_values(|x: bool| Key::B(x)));
                }
                i = i + 1;
            }
            proof {
                assert(b@.take(b@.len() as int) =~= b@);
            }
            Some(keys)
        },
        ColumnValues::Int(n) => {
            let mut keys: Vec<Key> = Vec::new();
            let mut i: usize = 0;
            while i < n.len()
                invariant
                    i <= n@.len(),
                    keys@ =~= n@.take(i as int).map_values(|x: i64| Key::I(x)),
                decreases n@.len() - i,
            {
                keys.push(Key::I(n[i]));
                proof {
                    assert(keys@ =~= n@.take(i + 1).map_values(|x: i64| Key::I(x)));
                }
                i = i + 1;
            }
            proof {
                assert(n@.take(n@.len() as int) =~= n@);
            }
            Some(keys)
        },
        ColumnValues::Str(s) => {
            let mut keys: Vec<Key> = Vec::new();
            let mut i: usize = 0;
            while i < s.len()
                invariant
                    i <= s@.len(),
                    keys@ =~= s@.take(i as int).map_values(|x: String| Key::S(x)),
                decreases s@.len() - i,
            {
                keys.push(Key::S(s[i].clone()));
                proof {
                    assert(keys@ =~= s@.take(i + 1).map_values(|x: String| Key::S(x)));
                }
                i = i + 1;
            }
            proof {
                assert(s@.take(s@.len() as int) =~= s@);
            }
            Some(keys)
        },
        ColumnValues::Other { .. } => None,
    }
}

/// The dataset carries a column of this name whose datatype can be
/// grouped on.
pub open spec fn has_groupable_column(data: Dataset, name: Seq<char>) -> bool {
    exists|j: int| 0 <= j < data.spec_columns().len()
        && (#[trigger] data.spec_columns()[j]).spec_name() == name
        && !(data.spec_columns()[j].values is Other)
}

/// The dataset carries a column of this name whose datatype cannot be
/// grouped on.
pub open spec fn has_ungroupable_column(data: Dataset, name: Seq<char>) -> bool {
    exists|j: int| 0 <= j < data.spec_columns().len()
        && (#[trigger] data.spec_columns()[j]).spec_name() == name
        && data.spec_columns()[j].values is Other
}

/// The dataset carries a groupable column of this name in which some
/// value occurs exactly once.
pub open spec fn has_singleton_group(data: Dataset, name: Seq<char>) -> bool {
    exists|j: int| 0 <= j < data.spec_columns().len()
        && (#[trigger] data.spec_columns()[j]).spec_name() == name
        && !(data.spec_columns()[j].values is Other) && has_singleton(
        column_keys(data.spec_columns()[j].values),
    )
}

/// A model-level standard-error request. `Clustered` names the
/// grouping column; the aliases mirror the solver-level tag.
#[derive(Debug, Clone, PartialEq, Eq)]
pub enum ModelSEType {
    Homoscedastic,
    HC1,
    HC2,
    HC3,
    Clustered { by: String },
    /// Alias for [`ModelSEType::Homoscedastic`].
    NonRobust,
    /// Alias for [`ModelSEType::HC3`].
    Robust,
}

impl ModelSEType {
    /// Validates that the named grouping column exists and that its
    /// declared datatype can be grouped on (boolean, integer, or
    /// string).
    ///
    /// Fails with [`AmitaError::ColumnNotFound`] exactly when no column
    /// carries the name, and with [`AmitaError::ColumnDataTypeError`]
    /// exactly when the column holds another datatype.
    pub fn validate_cluster_col_type(column: &String, data: &Dataset) -> (r: Result<
        (),
        AmitaError,
    >)
        ensures
            r is Ok <==> has_groupable_column(*data, column@),
            (r matches Err(e) && e matches AmitaError::ColumnNotFound { .. })
                <==> !data.spec_has_column(column@),
            (r matches Err(e) && e matches AmitaError::ColumnDataTypeError { .. })
                <==> has_ungroupable_column(*data, column@),
            r matches Err(AmitaError::ColumnNotFound { column: c }) ==> c@ == column@,
            r matches Err(AmitaError::ColumnDataTypeError { column: c, expected, found }) ==> {
                &&& c@ == column@
                &&& expected@ == "bool, int, or string"@
                &&& exists|j: int| 0 <= j < data.spec_columns().len()
                    && (#[trigger] data.spec_columns()[j]).spec_name() == column@
                    && (data.spec_columns()[j].values matches ColumnValues::Other { dtype }
                    && dtype@ == found@)
            },
            r matches Err(e) ==> (e matches AmitaError::ColumnNotFound { .. } || e matches
                AmitaError::ColumnDataTypeError { .. }),
            !(has_groupable_column(*data, column@) && has_ungroupable_column(*data, column@)),
    {
        let col = match data.find_column(column) {
            Some(c) => c,
            None => {
                return Err(AmitaError::ColumnNotFound { column: column.clone() });
            },
        };
        match &col.values {
            ColumnValues::Bool(_) => Ok(()),
            ColumnValues::Int(_) => Ok(()),
            ColumnValues::Str(_) => Ok(()),
            ColumnValues::Other { dtype } => Err(AmitaError::ColumnDataTypeError {
                column: column.clone(),
                expected: "bool, int, or string".to_owned(),
                found: dtype.clone(),
            }),
        }
    }

    /// Resolves the named categorical column of `data` into a dense
    /// per-observation cluster tag array in first-occurrence order.
    ///
    /// Fails with [`AmitaError::ColumnNotFound`] or
    /// [`AmitaError::ColumnDataTypeError`] as
    /// [`ModelSEType::validate_cluster_col_type`] does, and with
    /// [`AmitaError::SingleObservationWithinCluster`] exactly when some
    /// group of the column holds a single observation; otherwise the
    /// tags satisfy [`dense_first_occurrence_tags`] over the column's
    /// values.
    pub fn cluster_col_name_into_array(column: &String, data: &Dataset) -> (r: Result<
        Vec<i32>,
        AmitaError,
    >)
        requires
            data.spec_height() <= i32::MAX,
        ensures
            r is Ok <==> (has_groupable_column(*data, column@) && !has_singleton_group(
                *data,
                column@,
            )),
            r matches Ok(tags) ==> {
                &&& tags@.len() == data.spec_height()
                &&& exists|j: int| 0 <= j < data.spec_columns().len()
                    && (#[trigger] data.spec_columns()[j]).spec_name() == column@
                    && dense_first_occurrence_tags(
                    column_keys(data.spec_columns()[j].values),
                    tags@,
                )
            },
            r matches Err(e) ==> {
                ||| e matches AmitaError::ColumnNotFound { .. }
                ||| e matches AmitaError::ColumnDataTypeError { .. }
                ||| e matches AmitaError::SingleObservationWithinCluster { .. }
            },
            (r matches Err(e) && e matches AmitaError::ColumnNotFound { .. })
                <==> !data.spec_has_column(column@),
            (r matches Err(e) && e matches AmitaError::ColumnDataTypeError { .. })
                <==> has_ungroupable_column(*data, column@),
            (r matches Err(e) && e matches AmitaError::SingleObservationWithinCluster { .. })
                <==> has_singleton_group(*data, column@),
            r matches Err(AmitaError::ColumnNotFound { column: c }) ==> c@ == column@,
            r matches Err(AmitaError::ColumnDataTypeError { column: c, .. }) ==> c@ == column@,
            r matches Err(AmitaError::SingleObservationWithinCluster { cluster }) ==> cluster@
                == column@,
    {
        match Self::validate_cluster_col_type(column, data) {
            Ok(()) => {},
            Err(e) => {
                return Err(e);
            },
        }
        let col = match data.find_column(column) {
            Some(c) => c,
            None => {
                return Err(AmitaError::ColumnNotFound { column: column.clone() });
            },
        };
        let keys = match keys_of_values(&col.values) {
            Some(k) => k,
            None => {
                return Err(AmitaError::ColumnNotFound { column: column.clone() });
            },
        };
        proof {
            let cv = col.values;
            match cv {
                ColumnValues::Bool(v) => assert(column_keys(cv).len() == v@.len()),
                ColumnValues::Int(v) => assert(column_keys(cv).len() == v@.len()),
                ColumnValues::Str(v) => assert(column_keys(cv).len() == v@.len()),
                ColumnValues::Other { .. } => {},
            }
        }
        let resolved = resolve_tags(&keys, column);
        proof {
            // The found column is the one column carrying the name, so
            // the dataset-level predicates reduce to facts about it.
            let j0 = choose|j: int| 0 <= j < data.spec_columns().len()
                && (#[trigger] data.spec_columns()[j]) == *col;
            assert(data.spec_columns()[j0].spec_name() == column@);
            assert(!(data.spec_columns()[j0].values is Other));
            assert(has_groupable_column(*data, column@));
            assert(!has_ungroupable_column(*data, column@)) by {
                if has_ungroupable_column(*data, column@) {
                    let j1 = choose|j: int| 0 <= j < data.spec_columns().len()
                        && (#[trigger] data.spec_columns()[j]).spec_name() == column@
                        && data.spec_columns()[j].values is Other;
                    assert(data.spec_columns()[j1] == *col);
                }
            }
            assert(has_singleton_group(*data, column@) <==> has_singleton(keys@)) by {
                if has_singleton_group(*data, column@) {
                    let j2 = choose|j: int| 0 <= j < data.spec_columns().len()
                        && (#[trigger] data.spec_columns()[j]).spec_name() == column@
                        && !(data.spec_columns()[j].values is Other) && has_singleton(
                        column_keys(data.spec_columns()[j].values),
                    );
                    assert(data.spec_columns()[j2] == *col);
                }
                if has_singleton(keys@) {
                    assert(has_singleton(column_keys(data.spec_columns()[j0].values)));
                }
            }
        }
        resolved
    }

    /// Translates this model-level request into the solver-level tag,
    /// resolving a named cluster column into its tag array through
    /// [`ModelSEType::cluster_col_name_into_array`].
    pub fn to_solver_se_type(self, data: &Dataset) -> (r: Result<SEType, AmitaError>)
        requires
            data.spec_height() <= i32::MAX,
        ensures
            match self {
                ModelSEType::Homoscedastic => r matches Ok(t) && t == SEType::Homoscedastic,
                ModelSEType::HC1 => r matches Ok(t) && t == SEType::HC1,
                ModelSEType::HC2 => r matches Ok(t) && t == SEType::HC2,
                ModelSEType::HC3 => r matches Ok(t) && t == SEType::HC3,
                ModelSEType::NonRobust => r matches Ok(t) && t == SEType::NonRobust,
                ModelSEType::Robust => r matches Ok(t) && t == SEType::Robust,
                ModelSEType::Clustered { by } => {
                    &&& r is Ok <==> (has_groupable_column(*data, by@) && !has_singleton_group(
                        *data,
                        by@,
                    ))
                    &&& r matches Ok(t) ==> (t matches SEType::Clustered { by: tags } && tags@
                        .len() == data.spec_height() && exists|j: int| 0 <= j
                        < data.spec_columns().len() && (#[trigger] data.spec_columns()[j])
                        .spec_name() == by@ && dense_first_occurrence_tags(
                        column_keys(data.spec_columns()[j].values),
                        tags@,
                    ))
                    &&& (r matches Err(e) && e matches AmitaError::ColumnNotFound { .. })
                        <==> !data.spec_has_column(by@)
                    &&& (r matches Err(e) && e matches AmitaError::ColumnDataTypeError { .. })
                        <==> has_ungroupable_column(*data, by@)
                    &&& (r matches Err(e) && e matches
                        AmitaError::SingleObservationWithinCluster { .. })
                        <==> has_singleton_group(*data, by@)
                    &&& r matches Err(AmitaError::ColumnNotFound { column: c }) ==> c@ == by@
                    &&& r matches Err(AmitaError::ColumnDataTypeError { column: c, .. }) ==> c@
                        == by@
                    &&& r matches Err(AmitaError::SingleObservationWithinCluster { cluster })
                        ==> cluster@ == by@
                },
            },
    {
        match self {
            ModelSEType::Homoscedastic => Ok(SEType::Homoscedastic),
            ModelSEType::HC1 => Ok(SEType::HC1),
            ModelSEType::HC2 => Ok(SEType::HC2),
            ModelSEType::HC3 => Ok(SEType::HC3),
            ModelSEType::NonRobust => Ok(SEType::NonRobust),
            ModelSEType::Robust => Ok(SEType::Robust),
            ModelSEType::Clustered { by } => {
                let arr = match Self::cluster_col_name_into_array(&by, data) {
                    Ok(a) => a,
                    Err(e) => {
                        return Err(e);
                    },
                };
                Ok(SEType::Clustered { by: arr })
            },
        }
    }
}

} // verus!
