//! Failure modes of the pipeline. Every stage fails fast: no partial result
//! is produced and no mismatched shape is silently coerced.

use vstd::prelude::*;

verus! {

/// Why a byte buffer could not be parsed as a numeric array.
#[derive(Debug, Clone, Copy, PartialEq, Eq, Structural)]
pub enum ParseFault {
    /// The buffer ends before the header (or its dimension list) is complete.
    TruncatedHeader,
    /// The element-type code, element size or byte-order mark is not supported.
    UnsupportedElement,
    /// The header declares a rank other than the one the caller expects.
    RankMismatch { expected: u8, found: u8 },
    /// The header declares a dimension of size zero.
    EmptyDimension,
    /// The payload length is not the declared element count times the element size.
    LengthMismatch,
}

/// An error surfaced by a pipeline stage. The pipeline never recovers locally:
/// each of these aborts the run that raised it.
#[derive(Debug)]
pub enum PipelineError {
    /// A remote resource could not be retrieved.
    TransferError { resource: String },
    /// A byte buffer is not a well-formed array encoding.
    ParseError { fault: ParseFault },
    /// Two paired counts that must agree do not.
    ShapeMismatchError { expected: usize, found: usize },
    /// The embedding does not have the dimensionality the scatter plot needs.
    DimensionMismatchError { expected: usize, found: usize },
    /// The external reduction collaborator reported a failure.
    EmbeddingError { message: String },
}

} // verus!
