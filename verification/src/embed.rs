//! The bridge to the external dimensionality-reduction collaborator: the
//! fixed tuning configuration handed to it, the validation owed before the
//! call, and the classification of whatever the collaborator hands back.

use vstd::prelude::*;

use crate::array::{shape_product, to_feature_matrix, validate_pair, FeatureMatrix, LabelVector,
    RawArray};
use crate::error::PipelineError;

verus! {

/// An exact ratio, kept as integers so that no tuning constant depends on a
/// floating-point representation. The collaborator receives it as the
/// quotient `numerator / denominator`.
#[derive(Debug, Clone, Copy, PartialEq, Eq, Structural)]
pub struct Ratio {
    pub numerator: u32,
    pub denominator: u32,
}

/// The configuration record assembled for the reduction collaborator.
#[derive(Debug, Clone, Copy, PartialEq, Eq, Structural)]
pub struct ReductionConfig {
    /// Target dimensionality of the embedding.
    pub embedding_dimensions: usize,
    /// Nearest-neighbor count per point, overriding any data-driven heuristic.
    pub override_neighbors: usize,
    /// Mid-near pairs sampled per point, as a ratio to nearest-neighbor pairs.
    pub mid_near_ratio: Ratio,
    /// Far (random) pairs sampled per point, as a ratio to nearest-neighbor pairs.
    pub far_pair_ratio: Ratio,
}

/// The fixed tuning parameters this pipeline always uses: a two-dimensional
/// embedding, ten neighbors per point, a mid-near ratio of one half and a
/// far-pair ratio of two.
pub open spec fn spec_default_config() -> ReductionConfig {
    ReductionConfig {
        embedding_dimensions: 2,
        override_neighbors: 10,
        mid_near_ratio: Ratio { numerator: 1, denominator: 2 },
        far_pair_ratio: Ratio { numerator: 2, denominator: 1 },
    }
}

/// Builds the one configuration the pipeline ever submits for reduction.
pub fn default_reduction_config() -> (c: ReductionConfig)
    ensures
        c == spec_default_config(),
{
    ReductionConfig {
        embedding_dimensions: 2,
        override_neighbors: 10,
        mid_near_ratio: Ratio { numerator: 1, denominator: 2 },
        far_pair_ratio: Ratio { numerator: 2, denominator: 1 },
    }
}

/// The low-dimensional coordinates returned by the reduction collaborator,
/// one row of `dimensions` coordinates per sample, row-major.
pub struct EmbeddingResult<T> {
    pub n_samples: usize,
    pub dimensions: usize,
    pub coordinates: Vec<T>,
}

impl<T> EmbeddingResult<T> {
    /// A full rectangular coordinate buffer.
    pub open spec fn wf(&self) -> bool {
        self.coordinates@.len() == self.n_samples * self.dimensions
    }

    /// Coordinate `j` of sample `i`.
    pub open spec fn entry(&self, i: int, j: int) -> T {
        self.coordinates@[i * self.dimensions + j]
    }
}

/// Validates a raw array against its label vector and assembles everything the
/// reduction call needs: the reshaped feature matrix, the untouched labels and
/// the fixed configuration. Succeeds exactly when the array is well formed, of
/// rank at least two, and its first dimension matches the label count; on any
/// other input it signals the shape mismatch before any reduction could run.
pub fn prepare_for_reduction<T>(raw: RawArray<T>, labels: LabelVector) -> (r: Result<
    (FeatureMatrix<T>, LabelVector, ReductionConfig),
    PipelineError,
>)
    ensures
        match r {
            Ok((m, l, c)) => {
                &&& raw.wf()
                &&& raw.rank() >= 2
                &&& m.wf()
                &&& m.n_samples == raw.shape@[0]
                &&& m.n_features == shape_product(raw.shape@.subrange(1, raw.shape@.len() as int))
                &&& m.data@ == raw.data@
                &&& m.n_samples == labels.values@.len()
                &&& l == labels
                &&& c == spec_default_config()
            },
            Err(e) => {
                &&& !(raw.wf() && raw.rank() >= 2 && raw.shape@[0] == labels.values@.len())
                &&& e matches PipelineError::ShapeMismatchError { .. }
            },
        },
{
    let matrix = match to_feature_matrix(raw) {
        Ok(m) => m,
        Err(e) => {
            return Err(e);
        },
    };
    match validate_pair(&matrix, &labels) {
        Ok(_) => Ok((matrix, labels, default_reduction_config())),
        Err(e) => Err(e),
    }
}

/// Classifies the outcome of the external reduction call. A reported failure
/// becomes an embedding error carrying the collaborator's message; a returned
/// coordinate buffer is accepted exactly when it holds `dimensions`
/// coordinates for each of the `expected_samples` samples.
pub fn complete_reduction<T>(
    expected_samples: usize,
    dimensions: usize,
    outcome: Result<Vec<T>, String>,
) -> (r: Result<EmbeddingResult<T>, PipelineError>)
    ensures
        match r {
            Ok(e) => {
                &&& outcome matches Ok(flat) && e.coordinates@ == flat@
                &&& e.n_samples == expected_samples
                &&& e.dimensions == dimensions
                &&& e.wf()
            },
            Err(err) => match outcome {
                Ok(flat) => {
                    &&& flat@.len() != expected_samples * dimensions
                    &&& err matches PipelineError::ShapeMismatchError { .. }
                },
                Err(message) => err == (PipelineError::EmbeddingError { message }),
            },
        },
{
    match outcome {
        Ok(flat) => match expected_samples.checked_mul(dimensions) {
            Some(want) => {
                if flat.len() == want {
                    Ok(EmbeddingResult {
                        n_samples: expected_samples,
                        dimensions,
                        coordinates: flat,
                    })
                } else {
                    Err(PipelineError::ShapeMismatchError { expected: want, found: flat.len() })
                }
            },
            None => Err(PipelineError::ShapeMismatchError {
                expected: expected_samples,
                found: flat.len(),
            }),
        },
        Err(message) => Err(PipelineError::EmbeddingError { message }),
    }
}

} // verus!
