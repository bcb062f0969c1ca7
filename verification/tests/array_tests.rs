use embed_pipeline::array::{to_feature_matrix, validate_pair, FeatureMatrix, LabelVector,
    RawArray};
use embed_pipeline::error::PipelineError;

#[test]
fn reshape_preserves_order() {
    let data: Vec<i32> = (0..24).collect();
    let raw = RawArray { shape: vec![2, 3, 4], data: data.clone() };
    let m = to_feature_matrix(raw).unwrap();
    assert_eq!(m.n_samples, 2);
    assert_eq!(m.n_features, 12);
    assert_eq!(m.data, data);
}

#[test]
fn reshape_keeps_flat_sequence_for_deep_shapes() {
    let data: Vec<i32> = (0..30).collect();
    let raw = RawArray { shape: vec![5, 3, 2, 1], data: data.clone() };
    let m = to_feature_matrix(raw).unwrap();
    assert_eq!(m.n_samples, 5);
    assert_eq!(m.n_features, 6);
    assert_eq!(m.data, data);
}

#[test]
fn reshape_rejects_rank_one() {
    let raw = RawArray { shape: vec![5], data: vec![1i32, 2, 3, 4, 5] };
    let r = to_feature_matrix(raw);
    assert!(matches!(r, Err(PipelineError::ShapeMismatchError { .. })));
}

#[test]
fn reshape_rejects_element_count_mismatch() {
    let raw = RawArray { shape: vec![2, 3], data: vec![1i32, 2, 3, 4, 5] };
    let r = to_feature_matrix(raw);
    assert!(matches!(r, Err(PipelineError::ShapeMismatchError { .. })));
}

#[test]
fn reshape_rejects_zero_dimension() {
    let raw = RawArray { shape: vec![2, 0], data: Vec::<i32>::new() };
    let r = to_feature_matrix(raw);
    assert!(matches!(r, Err(PipelineError::ShapeMismatchError { .. })));
}

#[test]
fn pair_validation_accepts_matching_counts() {
    let m = FeatureMatrix { n_samples: 3, n_features: 2, data: vec![0i32; 6] };
    let l = LabelVector { values: vec![1, 2, 3] };
    assert_eq!(l.len(), 3);
    assert!(validate_pair(&m, &l).is_ok());
}

#[test]
fn pair_validation_rejects_mismatched_counts() {
    let m = FeatureMatrix { n_samples: 3, n_features: 2, data: vec![0i32; 6] };
    let l = LabelVector { values: vec![1, 2] };
    let r = validate_pair(&m, &l);
    match r {
        Err(PipelineError::ShapeMismatchError { expected, found }) => {
            assert_eq!(expected, 3);
            assert_eq!(found, 2);
        }
        _ => panic!("expected a shape mismatch"),
    }
}
