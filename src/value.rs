//! Values handed between operator applications: immediate or graph-backed.

use vstd::prelude::*;
use crate::types::{Category, ElemType, TypeDescriptor};

verus! {

/// The components of a value as mathematical integers.
pub open spec fn ints(s: Seq<i64>) -> Seq<int> {
    s.map_values(|x: i64| x as int)
}

/// A fully known value: its type and its components as 64-bit integers,
/// matrices flattened row-major.
#[derive(Debug, PartialEq, Eq)]
pub struct Immediate {
    pub ty: TypeDescriptor,
    pub data: Vec<i64>,
}

impl Immediate {
    /// The type is well formed and the components match its shape.
    pub open spec fn wf(self) -> bool {
        self.ty.wf() && self.data@.len() == self.ty.component_count()
    }

    pub fn scalar(elem: ElemType, x: i64) -> (r: Immediate)
        ensures
            r.ty == (TypeDescriptor { category: Category::Scalar, elem, size: None }),
            r.data@ == (seq![x]),
            r.wf(),
    {
        let data = vec![x];
        Immediate { ty: TypeDescriptor::scalar(elem), data }
    }

    pub fn vector(elem: ElemType, data: Vec<i64>) -> (r: Immediate)
        requires
            data@.len() <= u32::MAX,
        ensures
            r.ty == (TypeDescriptor { category: Category::Vector, elem, size: Some(data@.len() as u32) }),
            r.data@ == data@,
            r.wf(),
    {
        let n = data.len() as u32;
        Immediate { ty: TypeDescriptor::vector(elem, n), data }
    }

    /// A square matrix of dimension `size`, components in row-major order.
    pub fn matrix(elem: ElemType, size: u32, data: Vec<i64>) -> (r: Immediate)
        requires
            data@.len() == (size as nat) * (size as nat),
        ensures
            r.ty == (TypeDescriptor { category: Category::Matrix, elem, size: Some(size) }),
            r.data@ == data@,
            r.wf(),
    {
        Immediate { ty: TypeDescriptor::matrix(elem, size), data }
    }
}

/// A typed quantity, either known now or the output of a graph node.
#[derive(Debug, PartialEq, Eq)]
pub enum Value {
    Concrete(Immediate),
    Abstract { index: usize, ty: TypeDescriptor },
}

impl Value {
    pub open spec fn type_of(self) -> TypeDescriptor {
        match self {
            Value::Concrete(imm) => imm.ty,
            Value::Abstract { ty, .. } => ty,
        }
    }

    /// An abstract value names one of the first `len` nodes.
    pub open spec fn within(self, len: nat) -> bool {
        match self {
            Value::Concrete(_) => true,
            Value::Abstract { index, .. } => index < len,
        }
    }

    pub fn ty(&self) -> (r: TypeDescriptor)
        ensures
            r == self.type_of(),
    {
        match self {
            Value::Concrete(imm) => imm.ty,
            Value::Abstract { ty, .. } => *ty,
        }
    }

    pub fn is_concrete(&self) -> (r: bool)
        ensures
            r == (self is Concrete),
    {
        match self {
            Value::Concrete(_) => true,
            Value::Abstract { .. } => false,
        }
    }
}

} // verus!
