use embed_pipeline::array::{LabelVector, RawArray};
use embed_pipeline::embed::{complete_reduction, default_reduction_config, prepare_for_reduction};
use embed_pipeline::error::PipelineError;
use embed_pipeline::scatter::{build_scatter, default_plot_style};

#[test]
fn fixed_configuration_values() {
    let c = default_reduction_config();
    assert_eq!(c.embedding_dimensions, 2);
    assert_eq!(c.override_neighbors, 10);
    assert_eq!(c.mid_near_ratio.numerator, 1);
    assert_eq!(c.mid_near_ratio.denominator, 2);
    assert_eq!(c.far_pair_ratio.numerator, 2);
    assert_eq!(c.far_pair_ratio.denominator, 1);
}

#[test]
fn reduction_outcome_accepted_when_rectangular() {
    let e = complete_reduction(2, 2, Ok(vec![1.0f64, 2.0, 3.0, 4.0])).unwrap();
    assert_eq!(e.n_samples, 2);
    assert_eq!(e.dimensions, 2);
    assert_eq!(e.coordinates, vec![1.0, 2.0, 3.0, 4.0]);
}

#[test]
fn reduction_outcome_rejected_when_short() {
    let r = complete_reduction(2, 2, Ok(vec![1.0f64, 2.0, 3.0]));
    assert!(matches!(r, Err(PipelineError::ShapeMismatchError { .. })));
}

#[test]
fn reduction_failure_becomes_embedding_error() {
    let r = complete_reduction::<f64>(2, 2, Err("did not converge".to_string()));
    match r {
        Err(PipelineError::EmbeddingError { message }) => {
            assert_eq!(message, "did not converge");
        }
        _ => panic!("expected an embedding error"),
    }
}

#[test]
fn pipeline_accepts_iris_sized_source() {
    let raw = RawArray { shape: vec![150, 4, 1], data: vec![0.5f32; 600] };
    let labels = LabelVector { values: (0..150).map(|i| i % 3).collect() };
    let (matrix, labels, config) = prepare_for_reduction(raw, labels).unwrap();
    assert_eq!(matrix.n_samples, 150);
    assert_eq!(matrix.n_features, 4);
    assert_eq!(labels.values.len(), 150);
    assert_eq!(config.embedding_dimensions, 2);

    // A stub reduction collaborator returning a fixed (150, 2) array.
    let embedding =
        complete_reduction(matrix.n_samples, config.embedding_dimensions, Ok(vec![0.25f32; 300]))
            .unwrap();
    let series = build_scatter(&embedding, &labels, default_plot_style()).unwrap();
    assert_eq!(series.x.len(), 150);
    assert_eq!(series.y.len(), 150);
    assert_eq!(series.labels.len(), 150);
}

#[test]
fn pipeline_aborts_on_label_count_mismatch_before_reduction() {
    let raw = RawArray { shape: vec![150, 4], data: vec![0.5f32; 600] };
    let labels = LabelVector { values: (0..149).map(|i| i % 3).collect() };
    let r = prepare_for_reduction(raw, labels);
    assert!(matches!(r, Err(PipelineError::ShapeMismatchError { .. })));
}
