//! Shapes of values: category, element type and size.

use vstd::prelude::*;

verus! {

/// The broad shape of a value.
#[derive(Clone, Copy, Debug, PartialEq, Eq, Structural)]
pub enum Category {
    Scalar,
    Vector,
    Matrix,
}

/// The base scalar type of a value's components.
#[derive(Clone, Copy, Debug, PartialEq, Eq, Structural)]
pub enum ElemType {
    Bool,
    Int,
    UInt,
    Float,
    Double,
}

/// Describes the shape of a value. `size` is the length of a vector or the
/// dimension of a (square) matrix, and is absent for a scalar.
#[derive(Clone, Copy, Debug, PartialEq, Eq, Structural)]
pub struct TypeDescriptor {
    pub category: Category,
    pub elem: ElemType,
    pub size: Option<u32>,
}

impl TypeDescriptor {
    /// A size is present exactly for vectors and matrices.
    pub open spec fn wf(self) -> bool {
        (self.category == Category::Scalar) == (self.size is None)
    }

    /// Number of components an immediate of this type holds.
    pub open spec fn component_count(self) -> nat {
        match self.category {
            Category::Scalar => 1,
            Category::Vector => self.size.unwrap() as nat,
            Category::Matrix => (self.size.unwrap() as nat) * (self.size.unwrap() as nat),
        }
    }

    /// Sizes are compatible when equal, or when either side has none.
    pub open spec fn spec_size_compatible(self, other: TypeDescriptor) -> bool {
        self.size is None || other.size is None || self.size == other.size
    }

    pub fn scalar(elem: ElemType) -> (r: TypeDescriptor)
        ensures
            r.category == Category::Scalar,
            r.elem == elem,
            r.size == None::<u32>,
            r.wf(),
    {
        TypeDescriptor { category: Category::Scalar, elem, size: None }
    }

    pub fn vector(elem: ElemType, size: u32) -> (r: TypeDescriptor)
        ensures
            r.category == Category::Vector,
            r.elem == elem,
            r.size == Some(size),
            r.wf(),
    {
        TypeDescriptor { category: Category::Vector, elem, size: Some(size) }
    }

    pub fn matrix(elem: ElemType, size: u32) -> (r: TypeDescriptor)
        ensures
            r.category == Category::Matrix,
            r.elem == elem,
            r.size == Some(size),
            r.wf(),
    {
        TypeDescriptor { category: Category::Matrix, elem, size: Some(size) }
    }

    /// Whether the two sizes may meet in one operation; a scalar has no size
    /// and is compatible with every size.
    pub fn size_compatible(&self, other: &TypeDescriptor) -> (r: bool)
        ensures
            r == self.spec_size_compatible(*other),
    {
        match (self.size, other.size) {
            (Some(a), Some(b)) => a == b,
            _ => true,
        }
    }

    /// Whether an immediate with `len` components has this type's shape.
    pub fn fits_components(&self, len: usize) -> (r: bool)
        ensures
            r == (self.wf() && len as nat == self.component_count()),
    {
        match (self.category, self.size) {
            (Category::Scalar, None) => len == 1,
            (Category::Vector, Some(n)) => len as u64 == n as u64,
            (Category::Matrix, Some(n)) => {
                proof {
                    let m = n as int;
                    assert(0 <= m * m <= 0xffff_fffe_0000_0001) by (nonlinear_arith)
                        requires
                            0 <= m <= 0xffff_ffff,
                    ;
                }
                let nn: u64 = n as u64 * n as u64;
                len as u64 == nn
            },
            _ => false,
        }
    }
}

} // verus!
