//! The standard-error dispatcher and the cluster resolver on concrete
//! datasets.

use amita::dataset::{Column, ColumnValues, Dataset};
use amita::errors::AmitaError;
use amita::inference::ModelSEType;
use amita::ols::SEType;

fn int_col(name: &str, vals: Vec<i64>) -> Column {
    Column { name: name.to_string(), values: ColumnValues::Int(vals) }
}

fn str_col(name: &str, vals: Vec<&str>) -> Column {
    Column {
        name: name.to_string(),
        values: ColumnValues::Str(vals.into_iter().map(|s| s.to_string()).collect()),
    }
}

fn bool_col(name: &str, vals: Vec<bool>) -> Column {
    Column { name: name.to_string(), values: ColumnValues::Bool(vals) }
}

fn resolve(se: ModelSEType, data: &Dataset) -> Result<Vec<i32>, AmitaError> {
    match se.to_solver_se_type(data) {
        Ok(SEType::Clustered { by }) => Ok(by),
        Ok(_) => panic!("expected a clustered tag"),
        Err(e) => Err(e),
    }
}

#[test]
fn int_column_gets_dense_tags() {
    let data = Dataset::new(5, vec![int_col("g", vec![7, 7, 9, 9, 9])]).unwrap();
    let tags = resolve(ModelSEType::Clustered { by: "g".to_string() }, &data).unwrap();
    assert_eq!(tags, vec![0, 0, 1, 1, 1]);
}

#[test]
fn string_column_tags_follow_first_occurrence() {
    let data = Dataset::new(4, vec![str_col("v", vec!["b", "a", "b", "a"])]).unwrap();
    let tags = resolve(ModelSEType::Clustered { by: "v".to_string() }, &data).unwrap();
    assert_eq!(tags, vec![0, 1, 0, 1]);
}

#[test]
fn bool_column_resolves() {
    let data = Dataset::new(4, vec![bool_col("b", vec![true, false, true, false])]).unwrap();
    let tags = resolve(ModelSEType::Clustered { by: "b".to_string() }, &data).unwrap();
    assert_eq!(tags, vec![0, 1, 0, 1]);
}

#[test]
fn tags_span_exactly_zero_to_k_minus_one() {
    let data = Dataset::new(
        6,
        vec![int_col("g", vec![30, 10, 30, 20, 10, 20])],
    )
    .unwrap();
    let tags = resolve(ModelSEType::Clustered { by: "g".to_string() }, &data).unwrap();
    assert_eq!(tags.len(), 6);
    let k = 3;
    for t in 0..k {
        assert!(tags.iter().any(|x| *x == t));
    }
    for t in &tags {
        assert!(*t >= 0 && *t < k);
    }
    assert_eq!(tags, vec![0, 1, 0, 2, 1, 2]);
}

#[test]
fn singleton_cluster_is_rejected() {
    let data = Dataset::new(3, vec![int_col("g", vec![1, 1, 2])]).unwrap();
    let err = resolve(ModelSEType::Clustered { by: "g".to_string() }, &data).unwrap_err();
    assert_eq!(
        err,
        AmitaError::SingleObservationWithinCluster { cluster: "g".to_string() }
    );
}

#[test]
fn missing_column_is_reported() {
    let data = Dataset::new(2, vec![int_col("g", vec![1, 1])]).unwrap();
    let err = resolve(ModelSEType::Clustered { by: "h".to_string() }, &data).unwrap_err();
    assert_eq!(err, AmitaError::ColumnNotFound { column: "h".to_string() });
}

#[test]
fn wrong_datatype_is_reported() {
    let data = Dataset::new(
        2,
        vec![Column {
            name: "g".to_string(),
            values: ColumnValues::Other { dtype: "f64".to_string() },
        }],
    )
    .unwrap();
    let err = resolve(ModelSEType::Clustered { by: "g".to_string() }, &data).unwrap_err();
    assert_eq!(
        err,
        AmitaError::ColumnDataTypeError {
            column: "g".to_string(),
            expected: "bool, int, or string".to_string(),
            found: "f64".to_string(),
        }
    );
}

#[test]
fn plain_variants_pass_through() {
    let data = Dataset::new(0, vec![]).unwrap();
    assert_eq!(
        ModelSEType::Homoscedastic.to_solver_se_type(&data).unwrap(),
        SEType::Homoscedastic
    );
    assert_eq!(ModelSEType::HC1.to_solver_se_type(&data).unwrap(), SEType::HC1);
    assert_eq!(ModelSEType::HC2.to_solver_se_type(&data).unwrap(), SEType::HC2);
    assert_eq!(ModelSEType::HC3.to_solver_se_type(&data).unwrap(), SEType::HC3);
    assert_eq!(
        ModelSEType::NonRobust.to_solver_se_type(&data).unwrap(),
        SEType::NonRobust
    );
    assert_eq!(ModelSEType::Robust.to_solver_se_type(&data).unwrap(), SEType::Robust);
}

#[test]
fn ragged_dataset_is_refused() {
    assert!(Dataset::new(3, vec![int_col("g", vec![1, 2])]).is_none());
}

#[test]
fn duplicate_column_names_are_refused() {
    assert!(
        Dataset::new(2, vec![int_col("g", vec![1, 1]), int_col("g", vec![2, 2])]).is_none()
    );
}

#[test]
fn error_messages_name_the_condition() {
    assert_eq!(AmitaError::NotSolved.message(), "Solver is not solved");
    assert_eq!(
        AmitaError::NotSameObservations.message(),
        "Matrices consist of a different number of observations"
    );
    assert_eq!(
        AmitaError::ColumnNotFound { column: "h".to_string() }.message(),
        "Column h not found"
    );
}
