//! Typed operator lowering over a shader data-flow graph.
//!
//! The library decides, for a binary operator and a pair of typed operands,
//! whether the operation folds to an immediate result, becomes a new node of
//! the graph, or has no lowering at all.

pub mod errors;
pub mod graph;
pub mod mul;
pub mod types;
pub mod value;
