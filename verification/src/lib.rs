//! A verified data-ingestion and visualization pipeline.
//!
//! Raw byte sources (a self-describing binary array encoding, or a packaged
//! image/label distribution split into training and test sets) are turned into
//! a validated feature matrix and label vector; a two-dimensional embedding of
//! those features is turned into a well-formed scatter-plot payload. The
//! dimensionality reduction itself, the byte retrieval and the plot rendering
//! are external collaborators: this crate owns the data-shape invariants that
//! sit between them.

pub mod array;
pub mod embed;
pub mod error;
pub mod images;
pub mod scatter;
pub mod source;
