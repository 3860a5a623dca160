//! Benchmarks alternative boolean full-text queries against a corpus: a
//! term-presence evaluator built on iterative string rewriting, and a
//! confusion-matrix scorer over the per-document outcomes.
pub mod experiment;
pub mod filter;
pub mod normalize;
pub mod reducer;
pub mod scoring;
pub mod text;
