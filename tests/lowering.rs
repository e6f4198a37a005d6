use rasen::errors::CompileError;
use rasen::graph::{BinaryOp, Edge, Graph, Node};
use rasen::mul::{apply, folds_in_range, impl_mul_variant, MulOutcome};
use rasen::types::{Category, ElemType, TypeDescriptor};
use rasen::value::{Immediate, Value};

fn concrete(v: Value) -> Immediate {
    match v {
        Value::Concrete(imm) => imm,
        other => panic!("expected a concrete value, got {:?}", other),
    }
}

fn mul(graph: &mut Graph, left: Value, right: Value) -> Result<Value, CompileError> {
    assert!(folds_in_range(&left, &right));
    apply(graph, BinaryOp::Multiply, left, right)
}

#[test]
fn scalar_times_scalar_folds() {
    let mut g = Graph::new();
    let a = Value::Concrete(Immediate::scalar(ElemType::Float, 3));
    let b = Value::Concrete(Immediate::scalar(ElemType::Float, 4));
    let r = concrete(mul(&mut g, a, b).unwrap());
    assert_eq!(r.ty, TypeDescriptor::scalar(ElemType::Float));
    assert_eq!(r.data, vec![12]);
    assert_eq!(g.node_count(), 0);
    assert_eq!(g.edge_count(), 0);
}

#[test]
fn vector_times_scalar_broadcasts() {
    let mut g = Graph::new();
    let a = Value::Concrete(Immediate::vector(ElemType::Float, vec![1, 2, 3]));
    let b = Value::Concrete(Immediate::scalar(ElemType::Float, 2));
    let r = concrete(mul(&mut g, a, b).unwrap());
    assert_eq!(r.ty, TypeDescriptor::vector(ElemType::Float, 3));
    assert_eq!(r.data, vec![2, 4, 6]);
    assert_eq!(g.node_count(), 0);
}

#[test]
fn scalar_times_vector_broadcasts() {
    let mut g = Graph::new();
    let a = Value::Concrete(Immediate::scalar(ElemType::Int, -3));
    let b = Value::Concrete(Immediate::vector(ElemType::Int, vec![1, 0, 5, 7]));
    let r = concrete(mul(&mut g, a, b).unwrap());
    assert_eq!(r.ty, TypeDescriptor::vector(ElemType::Int, 4));
    assert_eq!(r.data, vec![-3, 0, -15, -21]);
}

#[test]
fn vector_times_identity_matrix() {
    let mut g = Graph::new();
    let a = Value::Concrete(Immediate::vector(ElemType::Float, vec![1, 2]));
    let b = Value::Concrete(Immediate::matrix(ElemType::Float, 2, vec![1, 0, 0, 1]));
    let r = concrete(mul(&mut g, a, b).unwrap());
    assert_eq!(r.ty, TypeDescriptor::vector(ElemType::Float, 2));
    assert_eq!(r.data, vec![1, 2]);
}

#[test]
fn vector_times_matrix_is_row_major() {
    let mut g = Graph::new();
    let a = Value::Concrete(Immediate::vector(ElemType::Int, vec![1, 2]));
    let b = Value::Concrete(Immediate::matrix(ElemType::Int, 2, vec![3, 4, 5, 6]));
    let r = concrete(mul(&mut g, a, b).unwrap());
    // result[i] = sum_j v[j] * m[i * 2 + j]
    assert_eq!(r.data, vec![1 * 3 + 2 * 4, 1 * 5 + 2 * 6]);
}

#[test]
fn matrix_times_vector_reuses_vector_times_matrix() {
    let mut g = Graph::new();
    let a = Value::Concrete(Immediate::matrix(ElemType::Int, 2, vec![3, 4, 5, 6]));
    let b = Value::Concrete(Immediate::vector(ElemType::Int, vec![1, 2]));
    let r = concrete(mul(&mut g, a, b).unwrap());
    assert_eq!(r.ty, TypeDescriptor::vector(ElemType::Int, 2));
    assert_eq!(r.data, vec![11, 17]);
}

#[test]
fn vector_times_vector_is_componentwise() {
    let mut g = Graph::new();
    let a = Value::Concrete(Immediate::vector(ElemType::Int, vec![1, 2, 3]));
    let b = Value::Concrete(Immediate::vector(ElemType::Int, vec![4, 5, 6]));
    let r = concrete(mul(&mut g, a, b).unwrap());
    assert_eq!(r.data, vec![4, 10, 18]);
}

#[test]
fn matrix_times_matrix_is_componentwise() {
    let mut g = Graph::new();
    let a = Value::Concrete(Immediate::matrix(ElemType::Int, 2, vec![1, 2, 3, 4]));
    let b = Value::Concrete(Immediate::matrix(ElemType::Int, 2, vec![5, 6, 7, 8]));
    let r = concrete(mul(&mut g, a, b).unwrap());
    assert_eq!(r.ty, TypeDescriptor::matrix(ElemType::Int, 2));
    assert_eq!(r.data, vec![5, 12, 21, 32]);
}

#[test]
fn boolean_vector_is_rejected() {
    let mut g = Graph::new();
    let bvec = TypeDescriptor::vector(ElemType::Bool, 2);
    let float = TypeDescriptor::scalar(ElemType::Float);
    g.add_node(Node::Input { location: 0, ty: bvec });
    let r = mul(&mut g, Value::Abstract { index: 0, ty: bvec }, Value::Concrete(Immediate::scalar(ElemType::Float, 1)));
    assert_eq!(r, Err(CompileError::BadArguments(vec![bvec, float])));
    assert_eq!(g.node_count(), 1);
    assert_eq!(g.edge_count(), 0);

    let vec2 = TypeDescriptor::vector(ElemType::Float, 2);
    g.add_node(Node::Input { location: 1, ty: vec2 });
    let r = mul(&mut g, Value::Abstract { index: 1, ty: vec2 }, Value::Abstract { index: 0, ty: bvec });
    assert_eq!(r, Err(CompileError::BadArguments(vec![vec2, bvec])));
    assert_eq!(g.node_count(), 2);
    assert_eq!(g.edge_count(), 0);
}

#[test]
fn abstract_times_constant_builds_nodes() {
    let mut g = Graph::new();
    let vec3 = TypeDescriptor::vector(ElemType::Float, 3);
    for location in 0..3 {
        g.add_node(Node::Input { location, ty: vec3 });
    }
    let five = Immediate::scalar(ElemType::Float, 5);
    let r = mul(&mut g, Value::Abstract { index: 2, ty: vec3 }, Value::Concrete(five)).unwrap();
    assert_eq!(r, Value::Abstract { index: 4, ty: vec3 });
    assert_eq!(g.node_count(), 5);
    assert_eq!(*g.node(3), Node::Constant(Immediate::scalar(ElemType::Float, 5)));
    assert_eq!(*g.node(4), Node::Operation(BinaryOp::Multiply));
    assert_eq!(g.edge_count(), 2);
    assert_eq!(g.edge(0), Edge { source: 2, dest: 4, slot: 0 });
    assert_eq!(g.edge(1), Edge { source: 3, dest: 4, slot: 1 });
    assert!(g.validate_acyclic().is_ok());
}

#[test]
fn abstract_times_abstract_adds_one_node_two_edges() {
    let mut g = Graph::new();
    let mat = TypeDescriptor::matrix(ElemType::Float, 3);
    let vec3 = TypeDescriptor::vector(ElemType::Float, 3);
    g.add_node(Node::Input { location: 0, ty: mat });
    g.add_node(Node::Input { location: 1, ty: vec3 });
    let r = mul(&mut g, Value::Abstract { index: 0, ty: mat }, Value::Abstract { index: 1, ty: vec3 }).unwrap();
    // the result type comes from the vector, the slots follow call order
    assert_eq!(r, Value::Abstract { index: 2, ty: vec3 });
    assert_eq!(g.node_count(), 3);
    assert_eq!(*g.node(0), Node::Input { location: 0, ty: mat });
    assert_eq!(*g.node(2), Node::Operation(BinaryOp::Multiply));
    assert_eq!(g.edge(0), Edge { source: 0, dest: 2, slot: 0 });
    assert_eq!(g.edge(1), Edge { source: 1, dest: 2, slot: 1 });
    assert!(g.check_arguments(2).is_ok());
}

#[test]
fn constant_left_operand_is_placed_first() {
    let mut g = Graph::new();
    let float = TypeDescriptor::scalar(ElemType::Float);
    g.add_node(Node::Input { location: 0, ty: float });
    let two = Immediate::scalar(ElemType::Float, 2);
    let r = mul(&mut g, Value::Concrete(two), Value::Abstract { index: 0, ty: float }).unwrap();
    assert_eq!(r, Value::Abstract { index: 2, ty: float });
    assert_eq!(g.edge(0), Edge { source: 1, dest: 2, slot: 0 });
    assert_eq!(g.edge(1), Edge { source: 0, dest: 2, slot: 1 });
}

#[test]
fn chained_products_stay_acyclic() {
    let mut g = Graph::new();
    let float = TypeDescriptor::scalar(ElemType::Float);
    g.add_node(Node::Input { location: 0, ty: float });
    let mut v = Value::Abstract { index: 0, ty: float };
    for k in 1..5 {
        let c = Value::Concrete(Immediate::scalar(ElemType::Float, k));
        v = mul(&mut g, v, c).unwrap();
    }
    let w = Value::Abstract { index: 0, ty: float };
    let v = mul(&mut g, v, w).unwrap();
    assert_eq!(v, Value::Abstract { index: 9, ty: float });
    assert_eq!(g.edge_count(), 10);
    assert!(g.validate_acyclic().is_ok());
    for i in 0..g.node_count() {
        assert!(g.check_arguments(i).is_ok());
    }
}

#[test]
fn mismatched_sizes_are_unsupported() {
    let mut g = Graph::new();
    let a = Value::Concrete(Immediate::vector(ElemType::Int, vec![1, 2]));
    let b = Value::Concrete(Immediate::vector(ElemType::Int, vec![1, 2, 3]));
    let r = mul(&mut g, a, b);
    assert_eq!(
        r,
        Err(CompileError::BadArguments(vec![
            TypeDescriptor::vector(ElemType::Int, 2),
            TypeDescriptor::vector(ElemType::Int, 3),
        ]))
    );
}

#[test]
fn mismatched_element_types_are_unsupported() {
    let mut g = Graph::new();
    let a = Value::Concrete(Immediate::scalar(ElemType::Int, 2));
    let b = Value::Concrete(Immediate::scalar(ElemType::Float, 2));
    assert!(matches!(mul(&mut g, a, b), Err(CompileError::BadArguments(_))));
}

#[test]
fn malformed_constant_is_unsupported() {
    let mut g = Graph::new();
    let vec3 = TypeDescriptor::vector(ElemType::Int, 3);
    let bad = Immediate { ty: vec3, data: vec![1, 2] };
    let good = Immediate::vector(ElemType::Int, vec![1, 2, 3]);
    let r = mul(&mut g, Value::Concrete(good), Value::Concrete(bad));
    assert_eq!(r, Err(CompileError::UnsupportedConstant(vec3)));
    let odd = TypeDescriptor { category: Category::Scalar, elem: ElemType::Int, size: Some(2) };
    let bad = Immediate { ty: odd, data: vec![1] };
    let also_bad = Immediate { ty: odd, data: vec![2] };
    let r = mul(&mut g, Value::Concrete(bad), Value::Concrete(also_bad));
    assert_eq!(r, Err(CompileError::UnsupportedConstant(odd)));
    assert_eq!(g.node_count(), 0);
}

#[test]
fn overflowing_fold_is_detected() {
    let a = Value::Concrete(Immediate::scalar(ElemType::Int, i64::MAX));
    let b = Value::Concrete(Immediate::scalar(ElemType::Int, 2));
    assert!(!folds_in_range(&a, &b));
    let c = Value::Concrete(Immediate::vector(ElemType::Int, vec![i64::MAX, 1]));
    let m = Value::Concrete(Immediate::matrix(ElemType::Int, 2, vec![1, 1, 0, 0]));
    assert!(!folds_in_range(&c, &m));
    let m = Value::Concrete(Immediate::matrix(ElemType::Int, 2, vec![1, 0, 0, 1]));
    assert!(folds_in_range(&c, &m));
}

#[test]
fn rule_selection_covers_every_category_pair() {
    let s = TypeDescriptor::scalar(ElemType::Float);
    let v = TypeDescriptor::vector(ElemType::Float, 3);
    let v2 = TypeDescriptor::vector(ElemType::Float, 2);
    let m = TypeDescriptor::matrix(ElemType::Float, 3);
    let b = TypeDescriptor::scalar(ElemType::Bool);
    assert_eq!(impl_mul_variant(&s, &s), MulOutcome::SameShape);
    assert_eq!(impl_mul_variant(&v, &v), MulOutcome::SameShape);
    assert_eq!(impl_mul_variant(&m, &m), MulOutcome::SameShape);
    assert_eq!(impl_mul_variant(&v, &s), MulOutcome::VectorTimesScalar);
    assert_eq!(impl_mul_variant(&s, &v), MulOutcome::ScalarTimesVector);
    assert_eq!(impl_mul_variant(&v, &m), MulOutcome::VectorTimesMatrix);
    assert_eq!(impl_mul_variant(&m, &v), MulOutcome::MatrixTimesVector);
    assert_eq!(impl_mul_variant(&v2, &m), MulOutcome::Unsupported);
    assert_eq!(impl_mul_variant(&m, &s), MulOutcome::Unsupported);
    assert_eq!(impl_mul_variant(&s, &m), MulOutcome::Unsupported);
    assert_eq!(impl_mul_variant(&v, &v2), MulOutcome::Unsupported);
    assert_eq!(impl_mul_variant(&b, &b), MulOutcome::BooleanRejected);
    assert_eq!(impl_mul_variant(&v, &b), MulOutcome::BooleanRejected);
}
