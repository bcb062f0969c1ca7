//! The visualization bridge: a two-dimensional embedding plus per-sample
//! labels become a scatter-series payload for an external renderer. No
//! rendering happens here; this module only owns the payload's invariants.

use vstd::prelude::*;

use crate::array::LabelVector;
use crate::embed::EmbeddingResult;
use crate::error::PipelineError;

verus! {

/// Presentation choices for a scatter series.
pub struct PlotStyle {
    /// Marker size in pixels.
    pub marker_size: usize,
    /// Whether the renderer should show a color legend.
    pub show_color_scale: bool,
    /// Name of a discrete color palette, if one is requested.
    pub palette: Option<String>,
}

/// The rendering payload: one `(x, y)` pair and one color label per sample,
/// plus the presentation choices, ready for an external renderer.
pub struct ScatterSeries<T> {
    pub x: Vec<T>,
    pub y: Vec<T>,
    pub labels: Vec<i32>,
    pub marker_size: usize,
    pub show_color_scale: bool,
    pub palette: Option<String>,
}

impl<T> ScatterSeries<T> {
    /// The two coordinate sequences and the label sequence run in parallel.
    pub open spec fn wf(&self) -> bool {
        &&& self.x@.len() == self.y@.len()
        &&& self.x@.len() == self.labels@.len()
    }
}

/// The style the pipeline renders with: two-pixel markers, a visible color
/// scale, and the `Portland` discrete palette.
pub fn default_plot_style() -> (s: PlotStyle)
    ensures
        s.marker_size == 2,
        s.show_color_scale == true,
        s.palette matches Some(p) && p@ == "Portland"@,
{
    PlotStyle { marker_size: 2, show_color_scale: true, palette: Some("Portland".to_string()) }
}

/// Extracts column zero of the embedding as the x sequence and column one as
/// the y sequence, one pair per sample in sample order, and copies the labels
/// unchanged as the per-point color key.
///
/// Succeeds exactly when the embedding is two-dimensional, its coordinate
/// buffer is full, and the label count equals the sample count. An embedding
/// of any other dimensionality signals a dimension mismatch and produces no
/// output; a label-count disagreement signals a shape mismatch.
pub fn build_scatter<T: Copy>(
    embedding: &EmbeddingResult<T>,
    labels: &LabelVector,
    style: PlotStyle,
) -> (r: Result<ScatterSeries<T>, PipelineError>)
    ensures
        match r {
            Ok(s) => {
                &&& embedding.dimensions == 2
                &&& embedding.wf()
                &&& labels.values@.len() == embedding.n_samples
                &&& s.wf()
                &&& s.x@.len() == embedding.n_samples
                &&& forall|i: int|
                    0 <= i < embedding.n_samples ==> #[trigger] s.x@[i] == embedding.entry(i, 0)
                &&& forall|i: int|
                    0 <= i < embedding.n_samples ==> #[trigger] s.y@[i] == embedding.entry(i, 1)
                &&& s.labels@ == labels.values@
                &&& s.marker_size == style.marker_size
                &&& s.show_color_scale == style.show_color_scale
                &&& s.palette == style.palette
            },
            Err(e) => {
                &&& !(embedding.dimensions == 2 && embedding.wf() && labels.values@.len()
                    == embedding.n_samples)
                &&& if embedding.dimensions != 2 {
                    e == (PipelineError::DimensionMismatchError {
                        expected: 2,
                        found: embedding.dimensions,
                    })
                } else {
                    e matches PipelineError::ShapeMismatchError { .. }
                }
            },
        },
{
    if embedding.dimensions != 2 {
        return Err(PipelineError::DimensionMismatchError {
            expected: 2,
            found: embedding.dimensions,
        });
    }
    if labels.values.len() != embedding.n_samples {
        return Err(PipelineError::ShapeMismatchError {
            expected: embedding.n_samples,
            found: labels.values.len(),
        });
    }
    match embedding.n_samples.checked_mul(2) {
        Some(want) => {
            if embedding.coordinates.len() != want {
                return Err(PipelineError::ShapeMismatchError {
                    expected: want,
                    found: embedding.coordinates.len(),
                });
            }
        },
        None => {
            return Err(PipelineError::ShapeMismatchError {
                expected: embedding.n_samples,
                found: embedding.coordinates.len(),
            });
        },
    }
    let n = embedding.n_samples;
    let mut x: Vec<T> = Vec::new();
    let mut y: Vec<T> = Vec::new();
    let mut color: Vec<i32> = Vec::new();
    let mut i: usize = 0;
    while i < n
        invariant
            embedding.dimensions == 2,
            embedding.coordinates@.len() == n * 2,
            n * 2 <= usize::MAX,
            n == embedding.n_samples,
            labels.values@.len() == n,
            0 <= i <= n,
            x@.len() == i,
            y@.len() == i,
            color@.len() == i,
            forall|k: int| 0 <= k < i ==> #[trigger] x@[k] == embedding.entry(k, 0),
            forall|k: int| 0 <= k < i ==> #[trigger] y@[k] == embedding.entry(k, 1),
            forall|k: int| 0 <= k < i ==> #[trigger] color@[k] == labels.values@[k],
        decreases n - i,
    {
        x.push(embedding.coordinates[2 * i]);
        y.push(embedding.coordinates[2 * i + 1]);
        color.push(labels.values[i]);
        i += 1;
    }
    Ok(ScatterSeries {
        x,
        y,
        labels: color,
        marker_size: style.marker_size,
        show_color_scale: style.show_color_scale,
        palette: style.palette,
    })
}

} // verus!
