//! Lowering of multiplication: the type-directed dispatch table, constant
//! folding of immediates, and node emission into the graph.

use vstd::prelude::*;
use crate::errors::CompileError;
use crate::graph::{BinaryOp, Edge, Graph, Node};
use crate::types::{Category, ElemType, TypeDescriptor};
use crate::value::{ints, Immediate, Value};

verus! {

/// Which rule of the dispatch table a pair of operand types reaches.
#[derive(Clone, Copy, Debug, PartialEq, Eq, Structural)]
pub enum MulOutcome {
    /// An operand has boolean elements: no multiplication exists.
    BooleanRejected,
    /// Both operands have one type: componentwise product.
    SameShape,
    /// Vector times scalar: the scalar scales every component.
    VectorTimesScalar,
    /// Scalar times vector: the scalar scales every component.
    ScalarTimesVector,
    /// Row vector times row-major matrix.
    VectorTimesMatrix,
    /// Matrix times vector, lowered as the vector times the matrix.
    MatrixTimesVector,
    /// No rule applies.
    Unsupported,
}

pub open spec fn rejects_bool(l: TypeDescriptor, r: TypeDescriptor) -> bool {
    l.elem == ElemType::Bool || r.elem == ElemType::Bool
}

pub open spec fn same_shape(l: TypeDescriptor, r: TypeDescriptor) -> bool {
    l.category == r.category && l.elem == r.elem && l.size == r.size
}

pub open spec fn vector_scalar(l: TypeDescriptor, r: TypeDescriptor) -> bool {
    l.category == Category::Vector && r.category == Category::Scalar && l.elem == r.elem
}

pub open spec fn vector_matrix(l: TypeDescriptor, r: TypeDescriptor) -> bool {
    &&& l.category == Category::Vector
    &&& r.category == Category::Matrix
    &&& l.elem == r.elem
    &&& l.size == r.size
}

/// The conditions of the rules, each read after every earlier one failed.
pub open spec fn reaches(o: MulOutcome, l: TypeDescriptor, r: TypeDescriptor) -> bool {
    let c1 = rejects_bool(l, r);
    let c2 = same_shape(l, r);
    let c3 = vector_scalar(l, r);
    let c4 = vector_scalar(r, l);
    let c5 = vector_matrix(l, r);
    let c6 = vector_matrix(r, l);
    match o {
        MulOutcome::BooleanRejected => c1,
        MulOutcome::SameShape => !c1 && c2,
        MulOutcome::VectorTimesScalar => !c1 && !c2 && c3,
        MulOutcome::ScalarTimesVector => !c1 && !c2 && !c3 && c4,
        MulOutcome::VectorTimesMatrix => !c1 && !c2 && !c3 && !c4 && c5,
        MulOutcome::MatrixTimesVector => !c1 && !c2 && !c3 && !c4 && !c5 && c6,
        MulOutcome::Unsupported => !c1 && !c2 && !c3 && !c4 && !c5 && !c6,
    }
}

/// The rule that the dispatch table selects for `l * r`.
pub open spec fn mul_outcome(l: TypeDescriptor, r: TypeDescriptor) -> MulOutcome {
    if rejects_bool(l, r) {
        MulOutcome::BooleanRejected
    } else if same_shape(l, r) {
        MulOutcome::SameShape
    } else if vector_scalar(l, r) {
        MulOutcome::VectorTimesScalar
    } else if vector_scalar(r, l) {
        MulOutcome::ScalarTimesVector
    } else if vector_matrix(l, r) {
        MulOutcome::VectorTimesMatrix
    } else if vector_matrix(r, l) {
        MulOutcome::MatrixTimesVector
    } else {
        MulOutcome::Unsupported
    }
}

/// The rule lowers the operation, rather than rejecting it.
pub open spec fn is_lowering(o: MulOutcome) -> bool {
    !(o is BooleanRejected || o is Unsupported)
}

/// The type of the product: that of the vector operand where one operand is
/// a vector, else the common type.
pub open spec fn result_type(o: MulOutcome, l: TypeDescriptor, r: TypeDescriptor) -> TypeDescriptor {
    match o {
        MulOutcome::ScalarTimesVector | MulOutcome::MatrixTimesVector => r,
        _ => l,
    }
}

/// `sum_{j < k} v[j] * m[off + j]`.
pub open spec fn row_dot(v: Seq<i64>, m: Seq<i64>, off: int, k: int) -> int
    decreases k,
{
    if k <= 0 {
        0
    } else {
        row_dot(v, m, off, k - 1) + v[k - 1] * m[off + k - 1]
    }
}

/// The product of the flattened operands `l` and `r` under rule `o`.
pub open spec fn fold(o: MulOutcome, l: Seq<i64>, r: Seq<i64>) -> Seq<int> {
    match o {
        MulOutcome::SameShape => Seq::new(l.len(), |i: int| l[i] * r[i]),
        MulOutcome::VectorTimesScalar => Seq::new(l.len(), |i: int| l[i] * r[0]),
        MulOutcome::ScalarTimesVector => Seq::new(r.len(), |i: int| l[0] * r[i]),
        MulOutcome::VectorTimesMatrix => Seq::new(
            l.len(),
            |i: int| row_dot(l, r, i * l.len(), l.len() as int),
        ),
        MulOutcome::MatrixTimesVector => Seq::new(
            r.len(),
            |i: int| row_dot(r, l, i * r.len(), r.len() as int),
        ),
        _ => Seq::empty(),
    }
}

/// `x` is a value of `i64`.
pub open spec fn fits_i64(x: int) -> bool {
    i64::MIN <= x <= i64::MAX
}

/// Step `k` of row `i` of a vector-matrix product fits in 64 bits: both the
/// product and the running sum.
pub open spec fn dot_step_fits(v: Seq<i64>, m: Seq<i64>, i: int, k: int) -> bool {
    let n = v.len() as int;
    fits_i64(v[k] * m[i * n + k]) && fits_i64(row_dot(v, m, i * n, k + 1))
}

pub open spec fn dot_fits(v: Seq<i64>, m: Seq<i64>) -> bool {
    forall|i: int, k: int|
        0 <= i < v.len() && 0 <= k < v.len() ==> #[trigger] dot_step_fits(v, m, i, k)
}

/// Every intermediate value of folding `l * r` under rule `o` fits in 64 bits.
pub open spec fn fold_fits(o: MulOutcome, l: Seq<i64>, r: Seq<i64>) -> bool {
    match o {
        MulOutcome::SameShape => forall|i: int| 0 <= i < l.len() ==> fits_i64(#[trigger] (l[i] * r[i])),
        MulOutcome::VectorTimesScalar => forall|i: int|
            0 <= i < l.len() ==> fits_i64(#[trigger] (l[i] * r[0])),
        MulOutcome::ScalarTimesVector => forall|i: int|
            0 <= i < r.len() ==> fits_i64(#[trigger] (r[i] * l[0])),
        MulOutcome::VectorTimesMatrix => dot_fits(l, r),
        MulOutcome::MatrixTimesVector => dot_fits(r, l),
        _ => true,
    }
}

/// Selects the rule of the dispatch table for `left * right`.
pub fn impl_mul_variant(left: &TypeDescriptor, right: &TypeDescriptor) -> (r: MulOutcome)
    ensures
        r == mul_outcome(*left, *right),
        reaches(r, *left, *right),
{
    let (l, r) = (*left, *right);
    if l.elem == ElemType::Bool || r.elem == ElemType::Bool {
        MulOutcome::BooleanRejected
    } else if l.category == r.category && l.elem == r.elem && l.size == r.size {
        MulOutcome::SameShape
    } else if l.elem != r.elem {
        MulOutcome::Unsupported
    } else {
        match (l.category, r.category) {
            (Category::Vector, Category::Scalar) => MulOutcome::VectorTimesScalar,
            (Category::Scalar, Category::Vector) => MulOutcome::ScalarTimesVector,
            (Category::Vector, Category::Matrix) if l.size == r.size => MulOutcome::VectorTimesMatrix,
            (Category::Matrix, Category::Vector) if l.size == r.size => MulOutcome::MatrixTimesVector,
            _ => MulOutcome::Unsupported,
        }
    }
}

/// Rule selection is total and unambiguous: every pair of types reaches
/// exactly one rule of the table, the one that `mul_outcome` names.
pub proof fn lemma_rule_selection_total(l: TypeDescriptor, r: TypeDescriptor)
    ensures
        reaches(mul_outcome(l, r), l, r),
        forall|o: MulOutcome| #[trigger] reaches(o, l, r) ==> o == mul_outcome(l, r),
{
}

/// Componentwise product of two equally long component lists, or `None`
/// where a product leaves 64 bits.
fn componentwise(l: &Vec<i64>, r: &Vec<i64>) -> (out: Option<Vec<i64>>)
    requires
        l@.len() == r@.len(),
    ensures
        out is Some <==> fold_fits(MulOutcome::SameShape, l@, r@),
        out is Some ==> out->Some_0@.len() == l@.len(),
        out is Some ==> ints(out->Some_0@) == fold(MulOutcome::SameShape, l@, r@),
{
    let mut out: Vec<i64> = Vec::new();
    let mut i: usize = 0;
    while i < l.len()
        invariant
            i <= l@.len(),
            l@.len() == r@.len(),
            out@.len() == i,
            forall|j: int| 0 <= j < i ==> fits_i64(#[trigger] (l@[j] * r@[j])),
            forall|j: int| 0 <= j < i ==> out@[j] == l@[j] * r@[j],
        decreases l@.len() - i,
    {
        match l[i].checked_mul(r[i]) {
            Some(p) => out.push(p),
            None => return None,
        }
        i = i + 1;
    }
    assert(ints(out@) =~= fold(MulOutcome::SameShape, l@, r@));
    Some(out)
}

/// Every component of `v` times the scalar `s`, or `None` where a product
/// leaves 64 bits.
fn scaled(v: &Vec<i64>, s: i64) -> (out: Option<Vec<i64>>)
    ensures
        out is Some <==> forall|i: int| 0 <= i < v@.len() ==> fits_i64(#[trigger] (v@[i] * s)),
        out is Some ==> out->Some_0@.len() == v@.len(),
        out is Some ==> forall|i: int| 0 <= i < v@.len() ==> out->Some_0@[i] == v@[i] * s,
{
    let mut out: Vec<i64> = Vec::new();
    let mut i: usize = 0;
    while i < v.len()
        invariant
            i <= v@.len(),
            out@.len() == i,
            forall|j: int| 0 <= j < i ==> fits_i64(#[trigger] (v@[j] * s)),
            forall|j: int| 0 <= j < i ==> out@[j] == v@[j] * s,
        decreases v@.len() - i,
    {
        match v[i].checked_mul(s) {
            Some(p) => out.push(p),
            None => return None,
        }
        i = i + 1;
    }
    Some(out)
}

/// Row vector `v` times the row-major square matrix `m`,
/// `out[i] = sum_j v[j] * m[i * n + j]`, or `None` where a product or a
/// running sum leaves 64 bits.
fn vector_times_matrix(v: &Vec<i64>, m: &Vec<i64>) -> (out: Option<Vec<i64>>)
    requires
        m@.len() == v@.len() * v@.len(),
    ensures
        out is Some <==> dot_fits(v@, m@),
        out is Some ==> out->Some_0@.len() == v@.len(),
        out is Some ==> forall|i: int|
            0 <= i < v@.len() ==> out->Some_0@[i] == row_dot(v@, m@, i * v@.len(), v@.len() as int),
{
    let n = v.len();
    let total = m.len();
    let mut out: Vec<i64> = Vec::new();
    let mut i: usize = 0;
    while i < n
        invariant
            n == v@.len(),
            m@.len() == n * n,
            total == m@.len(),
            i <= n,
            out@.len() == i,
            forall|r: int, k: int|
                0 <= r < i && 0 <= k < n ==> #[trigger] dot_step_fits(v@, m@, r, k),
            forall|r: int| 0 <= r < i ==> out@[r] == row_dot(v@, m@, r * n, n as int),
        decreases n - i,
    {
        proof {
            let (a, b) = (i as int, n as int);
            assert(0 <= a * b && a * b + b <= b * b) by (nonlinear_arith)
                requires
                    0 <= a < b,
            ;
        }
        let base = i * n;
        let mut acc: i64 = 0;
        let mut j: usize = 0;
        while j < n
            invariant
                n == v@.len(),
                m@.len() == n * n,
                total == m@.len(),
                i < n,
                base == i * n,
                base + n <= m@.len(),
                j <= n,
                acc == row_dot(v@, m@, base as int, j as int),
                forall|r: int, k: int|
                    0 <= r < i && 0 <= k < n ==> #[trigger] dot_step_fits(v@, m@, r, k),
                forall|k: int| 0 <= k < j ==> #[trigger] dot_step_fits(v@, m@, i as int, k),
            decreases n - j,
        {
            let p = match v[j].checked_mul(m[base + j]) {
                Some(p) => p,
                None => {
                    assert(!dot_step_fits(v@, m@, i as int, j as int));
                    return None;
                },
            };
            acc = match acc.checked_add(p) {
                Some(a) => a,
                None => {
                    assert(!dot_step_fits(v@, m@, i as int, j as int));
                    return None;
                },
            };
            assert(dot_step_fits(v@, m@, i as int, j as int));
            j = j + 1;
        }
        out.push(acc);
        i = i + 1;
    }
    Some(out)
}

/// Folds `left * right` under rule `o` on the immediates' components, or
/// `None` where an intermediate value leaves 64 bits.
fn fold_immediates(o: MulOutcome, left: &Immediate, right: &Immediate) -> (out: Option<Immediate>)
    requires
        is_lowering(o),
        o == mul_outcome(left.ty, right.ty),
        left.wf(),
        right.wf(),
    ensures
        out is Some <==> fold_fits(o, left.data@, right.data@),
        out is Some ==> out->Some_0.ty == result_type(o, left.ty, right.ty),
        out is Some ==> out->Some_0.wf(),
        out is Some ==> ints(out->Some_0.data@) == fold(o, left.data@, right.data@),
{
    let (l, r) = (&left.data, &right.data);
    let (ty, data) = match o {
        MulOutcome::SameShape => (left.ty, componentwise(l, r)),
        MulOutcome::VectorTimesScalar => (left.ty, scaled(l, r[0])),
        MulOutcome::ScalarTimesVector => (right.ty, scaled(r, l[0])),
        MulOutcome::VectorTimesMatrix => (left.ty, vector_times_matrix(l, r)),
        _ => (right.ty, vector_times_matrix(r, l)),
    };
    match data {
        Some(data) => {
            assert(ints(data@) =~= fold(o, l@, r@));
            Some(Immediate { ty, data })
        },
        None => None,
    }
}

/// The components of a concrete value; empty for an abstract one.
pub open spec fn concrete_data(v: Value) -> Seq<i64> {
    match v {
        Value::Concrete(imm) => imm.data@,
        Value::Abstract { .. } => Seq::empty(),
    }
}

/// A concrete operand whose components do not match its type.
pub open spec fn malformed(v: Value) -> bool {
    match v {
        Value::Concrete(imm) => !imm.wf(),
        Value::Abstract { .. } => false,
    }
}

/// The rule that the operands' types select.
pub open spec fn outcome_of(left: Value, right: Value) -> MulOutcome {
    mul_outcome(left.type_of(), right.type_of())
}

/// Folding two well-formed concrete operands stays within 64 bits.
pub open spec fn operands_fit(left: Value, right: Value) -> bool {
    (left is Concrete && right is Concrete && !malformed(left) && !malformed(right)) ==> fold_fits(
        outcome_of(left, right),
        concrete_data(left),
        concrete_data(right),
    )
}

/// The nodes once operand `v` has a node: a concrete operand gets a new
/// constant node.
pub open spec fn placed(nodes: Seq<Node>, v: Value) -> Seq<Node> {
    match v {
        Value::Concrete(imm) => nodes.push(Node::Constant(imm)),
        Value::Abstract { .. } => nodes,
    }
}

/// The node that holds operand `v` once it is placed.
pub open spec fn placed_index(nodes: Seq<Node>, v: Value) -> int {
    match v {
        Value::Concrete(_) => nodes.len() as int,
        Value::Abstract { index, .. } => index as int,
    }
}

/// The nodes after `left * right` is built into a graph holding `nodes`.
pub open spec fn built_nodes(nodes: Seq<Node>, op: BinaryOp, left: Value, right: Value) -> Seq<Node> {
    placed(placed(nodes, left), right).push(Node::Operation(op))
}

/// The edges after `left * right` is built into a graph holding `nodes`
/// and `edges`: left operand into slot 0, right operand into slot 1.
pub open spec fn built_edges(nodes: Seq<Node>, edges: Seq<Edge>, left: Value, right: Value) -> Seq<Edge> {
    let n1 = placed(nodes, left);
    let n2 = placed(n1, right);
    let index = n2.len() as usize;
    edges.push(Edge { source: placed_index(nodes, left) as usize, dest: index, slot: 0 }).push(
        Edge { source: placed_index(n1, right) as usize, dest: index, slot: 1 },
    )
}

/// `e` reports the argument types `l` and `r`, in that order.
pub open spec fn is_bad_arguments(e: CompileError, l: TypeDescriptor, r: TypeDescriptor) -> bool {
    e is BadArguments && e->BadArguments_0@ == seq![l, r]
}

/// Gives operand `v` a node of `graph`: its own, or a new constant node.
fn node_of(graph: &mut Graph, v: Value) -> (index: usize)
    requires
        old(graph).wf(),
        v.within(old(graph).node_seq().len()),
        old(graph).node_seq().len() < usize::MAX,
    ensures
        final(graph).wf(),
        old(graph).forward() ==> final(graph).forward(),
        final(graph).node_seq() == placed(old(graph).node_seq(), v),
        final(graph).edge_seq() == old(graph).edge_seq(),
        index == placed_index(old(graph).node_seq(), v),
        index < final(graph).node_seq().len(),
{
    match v {
        Value::Concrete(imm) => graph.add_node(Node::Constant(imm)),
        Value::Abstract { index, .. } => index,
    }
}

/// The type of the product under rule `o`.
fn result_type_of(o: MulOutcome, l: TypeDescriptor, r: TypeDescriptor) -> (t: TypeDescriptor)
    ensures
        t == result_type(o, l, r),
{
    match o {
        MulOutcome::ScalarTimesVector | MulOutcome::MatrixTimesVector => r,
        _ => l,
    }
}

/// Whether `left * right` may be folded within 64 bits: true unless both
/// operands are well-formed immediates whose product leaves that range.
pub fn folds_in_range(left: &Value, right: &Value) -> (r: bool)
    ensures
        r == operands_fit(*left, *right),
{
    if let (Value::Concrete(l), Value::Concrete(r)) = (left, right) {
        if l.ty.fits_components(l.data.len()) && r.ty.fits_components(r.data.len()) {
            let o = impl_mul_variant(&l.ty, &r.ty);
            if let MulOutcome::BooleanRejected | MulOutcome::Unsupported = o {
                return true;
            }
            return fold_immediates(o, l, r).is_some();
        }
    }
    true
}

/// Applies `op` to `left` and `right`. Two concrete operands fold to a
/// concrete result; otherwise the operation becomes a new node of `graph`,
/// fed by the left operand at slot 0 and the right one at slot 1, with
/// concrete operands first placed as constant nodes (left, then right).
/// The graph is left untouched whenever an error is returned.
pub fn apply(graph: &mut Graph, op: BinaryOp, left: Value, right: Value) -> (res: Result<
    Value,
    CompileError,
>)
    requires
        old(graph).wf(),
        old(graph).node_seq().len() + 3 <= usize::MAX,
        left.within(old(graph).node_seq().len()),
        right.within(old(graph).node_seq().len()),
        operands_fit(left, right),
    ensures
        final(graph).wf(),
        old(graph).forward() ==> final(graph).forward(),
        left is Abstract && right is Abstract && res is Ok ==> {
            let n = old(graph).node_seq().len() as usize;
            &&& final(graph).node_seq() == old(graph).node_seq().push(Node::Operation(op))
            &&& final(graph).edge_seq() == old(graph).edge_seq().push(
                Edge { source: left->index, dest: n, slot: 0 },
            ).push(Edge { source: right->index, dest: n, slot: 1 })
        },
        ({
            let (lt, rt) = (left.type_of(), right.type_of());
            let o = mul_outcome(lt, rt);
            let unchanged = final(graph).node_seq() == old(graph).node_seq()
                && final(graph).edge_seq() == old(graph).edge_seq();
            &&& !is_lowering(o) ==> unchanged && res is Err && is_bad_arguments(res->Err_0, lt, rt)
            &&& is_lowering(o) && malformed(left) ==> unchanged && res == Err::<Value, CompileError>(
                CompileError::UnsupportedConstant(lt),
            )
            &&& is_lowering(o) && !malformed(left) && malformed(right) ==> unchanged && res == Err::<
                Value,
                CompileError,
            >(CompileError::UnsupportedConstant(rt))
            &&& is_lowering(o) && !malformed(left) && !malformed(right) && left is Concrete
                && right is Concrete ==> {
                &&& unchanged
                &&& res is Ok
                &&& res->Ok_0 is Concrete
                &&& res->Ok_0->Concrete_0.ty == result_type(o, lt, rt)
                &&& res->Ok_0->Concrete_0.wf()
                &&& ints(res->Ok_0->Concrete_0.data@) == fold(
                    o,
                    concrete_data(left),
                    concrete_data(right),
                )
            }
            &&& is_lowering(o) && !malformed(left) && !malformed(right) && !(left is Concrete
                && right is Concrete) ==> {
                let nodes = built_nodes(old(graph).node_seq(), op, left, right);
                &&& final(graph).node_seq() == nodes
                &&& final(graph).edge_seq() == built_edges(
                    old(graph).node_seq(),
                    old(graph).edge_seq(),
                    left,
                    right,
                )
                &&& res == Ok::<Value, CompileError>(
                    Value::Abstract { index: (nodes.len() - 1) as usize, ty: result_type(o, lt, rt) },
                )
            }
        }),
{
    let lt = left.ty();
    let rt = right.ty();
    let o = impl_mul_variant(&lt, &rt);
    if let MulOutcome::BooleanRejected | MulOutcome::Unsupported = o {
        return Err(CompileError::BadArguments(vec![lt, rt]));
    }
    if let Value::Concrete(imm) = &left {
        if !imm.ty.fits_components(imm.data.len()) {
            return Err(CompileError::UnsupportedConstant(lt));
        }
    }
    if let Value::Concrete(imm) = &right {
        if !imm.ty.fits_components(imm.data.len()) {
            return Err(CompileError::UnsupportedConstant(rt));
        }
    }
    let ty = result_type_of(o, lt, rt);
    if let (Value::Concrete(l), Value::Concrete(r)) = (&left, &right) {
        return match fold_immediates(o, l, r) {
            Some(imm) => Ok(Value::Concrete(imm)),
            // excluded by `operands_fit`
            None => Err(CompileError::UnsupportedConstant(ty)),
        };
    }
    let left_index = node_of(graph, left);
    let right_index = node_of(graph, right);
    let index = graph.add_node(Node::Operation(op));
    graph.add_edge(left_index, index, 0);
    graph.add_edge(right_index, index, 1);
    Ok(Value::Abstract { index, ty })
}

} // verus!
