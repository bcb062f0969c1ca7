//! The numeric-array model: raw n-dimensional arrays, the canonical
//! `(n_samples, n_features)` feature matrix, and the per-sample label vector.
//!
//! Elements are carried as an opaque type parameter: the pipeline reorders and
//! regroups them but never computes with them, so every shape invariant here
//! holds for any element type.

use vstd::prelude::*;

use crate::error::PipelineError;

verus! {

/// Product of the dimension sizes of a shape, in row-major convention.
pub open spec fn shape_product(s: Seq<usize>) -> int
    decreases s.len(),
{
    if s.len() == 0 {
        1
    } else {
        s[0] * shape_product(s.subrange(1, s.len() as int))
    }
}

/// Appending a dimension multiplies the product by it.
pub proof fn lemma_shape_product_push(s: Seq<usize>, d: usize)
    ensures
        shape_product(s.push(d)) == shape_product(s) * d,
    decreases s.len(),
{
    if s.len() == 0 {
        assert(s.push(d).subrange(1, 1) =~= Seq::<usize>::empty());
        assert(s.push(d)[0] == d);
        assert(shape_product(s.push(d)) == d * shape_product(Seq::<usize>::empty()));
    } else {
        assert(s.push(d).subrange(1, s.len() as int + 1) =~= s.subrange(1, s.len() as int).push(
            d,
        ));
        lemma_shape_product_push(s.subrange(1, s.len() as int), d);
        assert(s[0] * (shape_product(s.subrange(1, s.len() as int)) * d) == (s[0] * shape_product(
            s.subrange(1, s.len() as int),
        )) * d) by (nonlinear_arith);
    }
}

/// A shape all of whose dimensions are positive has a positive product.
pub proof fn lemma_shape_product_pos(s: Seq<usize>)
    requires
        forall|i: int| 0 <= i < s.len() ==> s[i] >= 1,
    ensures
        shape_product(s) >= 1,
    decreases s.len(),
{
    if s.len() > 0 {
        lemma_shape_product_pos(s.subrange(1, s.len() as int));
        assert(s[0] * shape_product(s.subrange(1, s.len() as int)) >= 1) by (nonlinear_arith)
            requires
                s[0] >= 1,
                shape_product(s.subrange(1, s.len() as int)) >= 1,
        ;
    }
}

/// With positive dimensions, the product of a prefix never exceeds the whole.
pub proof fn lemma_shape_product_prefix(s: Seq<usize>, j: int)
    requires
        0 <= j <= s.len(),
        forall|i: int| 0 <= i < s.len() ==> s[i] >= 1,
    ensures
        1 <= shape_product(s.subrange(0, j)) <= shape_product(s),
    decreases s.len() - j,
{
    lemma_shape_product_pos(s.subrange(0, j));
    if j == s.len() {
        assert(s.subrange(0, j) =~= s);
    } else {
        assert(s.subrange(0, j + 1) =~= s.subrange(0, j).push(s[j]));
        lemma_shape_product_push(s.subrange(0, j), s[j]);
        assert(shape_product(s.subrange(0, j)) <= shape_product(s.subrange(0, j)) * s[j])
            by (nonlinear_arith)
            requires
                s[j] >= 1,
                shape_product(s.subrange(0, j)) >= 1,
        ;
        lemma_shape_product_prefix(s, j + 1);
    }
}

/// An n-dimensional numeric array as parsed from a source: an ordered shape
/// and the elements in row-major order.
pub struct RawArray<T> {
    pub shape: Vec<usize>,
    pub data: Vec<T>,
}

impl<T> RawArray<T> {
    /// Every dimension is positive and the element count equals the product
    /// of the dimension sizes.
    pub open spec fn wf(&self) -> bool {
        &&& forall|i: int| 0 <= i < self.shape@.len() ==> self.shape@[i] >= 1
        &&& self.data@.len() == shape_product(self.shape@)
    }

    /// Number of dimensions.
    pub open spec fn rank(&self) -> nat {
        self.shape@.len()
    }
}

/// The canonical two-dimensional matrix handed to the reduction step: one row
/// of `n_features` values per sample, stored row-major.
pub struct FeatureMatrix<T> {
    pub n_samples: usize,
    pub n_features: usize,
    pub data: Vec<T>,
}

impl<T> FeatureMatrix<T> {
    /// At least one feature per sample, and a full rectangular buffer.
    pub open spec fn wf(&self) -> bool {
        &&& self.n_features >= 1
        &&& self.data@.len() == self.n_samples * self.n_features
    }
}

/// One integer label per sample, used only to color points.
pub struct LabelVector {
    pub values: Vec<i32>,
}

impl LabelVector {
    /// Number of labeled samples.
    pub fn len(&self) -> (n: usize)
        ensures
            n == self.values@.len(),
    {
        self.values.len()
    }
}

/// Reinterprets a raw array of rank at least two as a `(n_samples, n_features)`
/// matrix: the first dimension counts samples, the product of the remaining
/// dimensions counts features, and the row-major element buffer is kept as it
/// is (a pure reshape, never a transpose).
///
/// Succeeds exactly on well-formed inputs of rank at least two; any other
/// input signals a shape mismatch.
pub fn to_feature_matrix<T>(raw: RawArray<T>) -> (r: Result<FeatureMatrix<T>, PipelineError>)
    ensures
        match r {
            Ok(m) => {
                &&& raw.wf()
                &&& raw.rank() >= 2
                &&& m.wf()
                &&& m.n_samples == raw.shape@[0]
                &&& m.n_features == shape_product(raw.shape@.subrange(1, raw.shape@.len() as int))
                &&& m.data@ == raw.data@
            },
            Err(e) => {
                &&& !(raw.wf() && raw.rank() >= 2)
                &&& e matches PipelineError::ShapeMismatchError { .. }
            },
        },
{
    let rank = raw.shape.len();
    if rank < 2 {
        return Err(PipelineError::ShapeMismatchError { expected: 2, found: rank });
    }
    let mut i: usize = 0;
    while i < rank
        invariant
            rank == raw.shape@.len(),
            0 <= i <= rank,
            forall|k: int| 0 <= k < i ==> raw.shape@[k] >= 1,
        decreases rank - i,
    {
        if raw.shape[i] == 0 {
            return Err(PipelineError::ShapeMismatchError { expected: 1, found: 0 });
        }
        i += 1;
    }
    let ghost tail = raw.shape@.subrange(1, raw.shape@.len() as int);
    let n_samples = raw.shape[0];
    let mut n_features: usize = 1;
    let mut j: usize = 1;
    proof {
        assert(tail.subrange(0, 0) =~= Seq::<usize>::empty());
    }
    while j < rank
        invariant
            rank == raw.shape@.len(),
            rank >= 2,
            1 <= j <= rank,
            tail == raw.shape@.subrange(1, raw.shape@.len() as int),
            forall|k: int| 0 <= k < rank ==> raw.shape@[k] >= 1,
            n_features == shape_product(tail.subrange(0, j - 1)),
            n_features >= 1,
        decreases rank - j,
    {
        proof {
            assert(tail.subrange(0, j as int) =~= tail.subrange(0, j - 1).push(tail[j - 1]));
            lemma_shape_product_push(tail.subrange(0, j - 1), raw.shape@[j as int]);
        }
        match n_features.checked_mul(raw.shape[j]) {
            Some(p) => {
                proof {
                    assert(n_features * raw.shape@[j as int] >= 1) by (nonlinear_arith)
                        requires
                            n_features >= 1,
                            raw.shape@[j as int] >= 1,
                    ;
                }
                n_features = p;
            },
            None => {
                proof {
                    lemma_shape_product_prefix(tail, j as int);
                    lemma_shape_product_pos(tail);
                    assert(raw.shape@[0] * shape_product(tail) >= shape_product(tail))
                        by (nonlinear_arith)
                        requires
                            raw.shape@[0] >= 1,
                            shape_product(tail) >= 1,
                    ;
                }
                return Err(PipelineError::ShapeMismatchError {
                    expected: 0,
                    found: raw.data.len(),
                });
            },
        }
        j += 1;
    }
    proof {
        assert(tail.subrange(0, tail.len() as int) =~= tail);
        lemma_shape_product_pos(tail);
    }
    match n_samples.checked_mul(n_features) {
        Some(total) => {
            if total != raw.data.len() {
                return Err(PipelineError::ShapeMismatchError {
                    expected: total,
                    found: raw.data.len(),
                });
            }
            Ok(FeatureMatrix { n_samples, n_features, data: raw.data })
        },
        None => Err(PipelineError::ShapeMismatchError { expected: 0, found: raw.data.len() }),
    }
}

/// Checks that a feature matrix and a label vector describe the same number of
/// samples; the reduction step must never be reached with a mismatched pair.
pub fn validate_pair<T>(features: &FeatureMatrix<T>, labels: &LabelVector) -> (r: Result<
    (),
    PipelineError,
>)
    ensures
        match r {
            Ok(_) => features.n_samples == labels.values@.len(),
            Err(e) => {
                &&& features.n_samples != labels.values@.len()
                &&& e == (PipelineError::ShapeMismatchError {
                    expected: features.n_samples,
                    found: labels.values@.len() as usize,
                })
            },
        },
{
    if features.n_samples != labels.values.len() {
        return Err(PipelineError::ShapeMismatchError {
            expected: features.n_samples,
            found: labels.values.len(),
        });
    }
    Ok(())
}

} // verus!
