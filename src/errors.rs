//! Structured compilation failures.

use vstd::prelude::*;
use crate::types::TypeDescriptor;

verus! {

/// A failure raised while building, validating or lowering the graph.
#[derive(Debug, PartialEq, Eq)]
pub enum CompileError {
    /// The data-flow graph holds a cycle.
    CyclicGraph,
    /// A node receives `actual` inputs where its kind takes `expected`.
    WrongArgumentsCount { actual: usize, expected: usize },
    /// A component access past the end of a composite value.
    IndexOutOfBound { index: u32, len: u32 },
    /// An operator received a combination of types it cannot lower; the
    /// types of all its arguments, in order.
    BadArguments(Vec<TypeDescriptor>),
    /// A constant of a type that has no immediate representation.
    UnsupportedConstant(TypeDescriptor),
    /// Another error, attributed to the node (kind name and id) where it arose.
    BuildError { node: &'static str, id: usize, inner: Box<CompileError> },
}

impl CompileError {
    /// Wraps `self` with the kind name and id of the node that raised it.
    pub fn at_node(self, node: &'static str, id: usize) -> (r: CompileError)
        ensures
            r == (CompileError::BuildError { node, id, inner: Box::new(self) }),
    {
        CompileError::BuildError { node, id, inner: Box::new(self) }
    }
}

} // verus!
