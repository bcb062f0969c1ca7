use embed_pipeline::array::LabelVector;
use embed_pipeline::embed::EmbeddingResult;
use embed_pipeline::error::PipelineError;
use embed_pipeline::scatter::{build_scatter, default_plot_style, PlotStyle};

fn style() -> PlotStyle {
    PlotStyle { marker_size: 2, show_color_scale: true, palette: Some("Portland".to_string()) }
}

#[test]
fn scatter_extracts_columns_in_sample_order() {
    let embedding = EmbeddingResult {
        n_samples: 3,
        dimensions: 2,
        coordinates: vec![1.0f64, -1.0, 2.5, -2.5, 3.0, -3.0],
    };
    let labels = LabelVector { values: vec![7, 8, 9] };
    let s = build_scatter(&embedding, &labels, style()).unwrap();
    assert_eq!(s.x, vec![1.0, 2.5, 3.0]);
    assert_eq!(s.y, vec![-1.0, -2.5, -3.0]);
    assert_eq!(s.labels, vec![7, 8, 9]);
    assert_eq!(s.marker_size, 2);
    assert!(s.show_color_scale);
    assert_eq!(s.palette.as_deref(), Some("Portland"));
}

#[test]
fn scatter_rejects_three_dimensional_embeddings() {
    let embedding =
        EmbeddingResult { n_samples: 2, dimensions: 3, coordinates: vec![0.0f64; 6] };
    let labels = LabelVector { values: vec![0, 1] };
    let r = build_scatter(&embedding, &labels, style());
    match r {
        Err(PipelineError::DimensionMismatchError { expected, found }) => {
            assert_eq!(expected, 2);
            assert_eq!(found, 3);
        }
        _ => panic!("expected a dimension mismatch"),
    }
}

#[test]
fn scatter_rejects_one_dimensional_embeddings() {
    let embedding =
        EmbeddingResult { n_samples: 2, dimensions: 1, coordinates: vec![0.0f64; 2] };
    let labels = LabelVector { values: vec![0, 1] };
    let r = build_scatter(&embedding, &labels, style());
    assert!(matches!(r, Err(PipelineError::DimensionMismatchError { .. })));
}

#[test]
fn scatter_rejects_label_count_mismatch() {
    let embedding =
        EmbeddingResult { n_samples: 3, dimensions: 2, coordinates: vec![0.0f64; 6] };
    let labels = LabelVector { values: vec![0, 1] };
    let r = build_scatter(&embedding, &labels, style());
    assert!(matches!(r, Err(PipelineError::ShapeMismatchError { .. })));
}

#[test]
fn default_style_matches_the_pipeline_rendering() {
    let s = default_plot_style();
    assert_eq!(s.marker_size, 2);
    assert!(s.show_color_scale);
    assert_eq!(s.palette.as_deref(), Some("Portland"));
}
