use tensr::applicator::HostApplicator2;
use tensr::binding::{Argument, ArgumentType, RefType};
use tensr::error::TensorError;
use tensr::expr::{Operand, TensrFn2};
use tensr::kernel::{apply_scalar, apply_vector, BinaryOperation, SIMD_WIDTH};
use tensr::storage::HostStorage;

fn storage(v: Vec<i32>) -> HostStorage<i32> {
    HostStorage::from_vec(v)
}

fn values(s: &HostStorage<i32>) -> Vec<i32> {
    let mut out = Vec::new();
    for i in 0..s.len() {
        out.push(s.get_scalar(i).unwrap());
    }
    out
}

#[test]
fn add_two_arrays() {
    let a = storage(vec![1, 2, 3]);
    let b = storage(vec![10, 20, 30]);
    let e = TensrFn2::new(BinaryOperation::Add, Operand::OwnedLeaf(a), Operand::OwnedLeaf(b));
    let out = e.materialize().unwrap();
    assert_eq!(values(&out), vec![11, 22, 33]);
    assert!(out.frees_on_drop());
}

#[test]
fn add_three_arrays_fused() {
    let a = storage(vec![1, 1]);
    let b = storage(vec![2, 2]);
    let c = storage(vec![3, 3]);
    let ab = TensrFn2::new(BinaryOperation::Add, Operand::OwnedLeaf(a), Operand::OwnedLeaf(b));
    let e = TensrFn2::new(BinaryOperation::Add, Operand::OwnedNode(Box::new(ab)), Operand::OwnedLeaf(c));
    assert_eq!(values(&e.materialize().unwrap()), vec![6, 6]);
}

#[test]
fn uninit_storage_written_then_read() {
    let mut s = HostStorage::<i32>::new_uninit(4);
    for i in 0..4 {
        s.write_scalar(7, i).unwrap();
    }
    assert_eq!(values(&s), vec![7, 7, 7, 7]);
}

#[test]
fn mismatched_lengths_fail() {
    let a = storage(vec![1, 2, 3]);
    let b = storage(vec![1, 2, 3, 4, 5]);
    let e = TensrFn2::new(BinaryOperation::Add, Operand::BorrowedLeaf(&a), Operand::BorrowedLeaf(&b));
    let mut out = HostStorage::<i32>::new(3);
    assert_eq!(e.apply(&mut out), Err(TensorError::LengthMismatch { left: 3, right: 5 }));
    assert_eq!(values(&out), vec![0, 0, 0]);
    let owned = TensrFn2::new(
        BinaryOperation::Add,
        Operand::OwnedLeaf(storage(vec![1, 2, 3])),
        Operand::OwnedLeaf(storage(vec![1, 2, 3, 4, 5])),
    );
    assert_eq!(owned.materialize().err(), Some(TensorError::LengthMismatch { left: 3, right: 5 }));
}

#[test]
fn nested_mismatch_is_found() {
    let a = storage(vec![1, 2]);
    let b = storage(vec![1, 2, 3]);
    let c = storage(vec![1, 2]);
    let inner = TensrFn2::new(BinaryOperation::Mul, Operand::BorrowedLeaf(&a), Operand::BorrowedLeaf(&b));
    let e = TensrFn2::new(BinaryOperation::Add, Operand::BorrowedNode(&inner), Operand::BorrowedLeaf(&c));
    let mut out = HostStorage::<i32>::new(2);
    assert_eq!(e.apply(&mut out), Err(TensorError::LengthMismatch { left: 2, right: 3 }));
    assert_eq!(values(&out), vec![0, 0]);
}

#[test]
fn node_read_ignores_operand_lengths() {
    let a = storage(vec![1, 2]);
    let b = storage(vec![1, 2, 3]);
    let c = storage(vec![1, 2]);
    let inner = TensrFn2::new(BinaryOperation::Mul, Operand::BorrowedLeaf(&a), Operand::BorrowedLeaf(&b));
    let e = TensrFn2::new(BinaryOperation::Add, Operand::BorrowedNode(&inner), Operand::BorrowedLeaf(&c));
    assert_eq!(e.get_scalar(0), Ok(2));
    assert_eq!(e.get_scalar(1), Ok(6));
    assert_eq!(e.get_scalar(1), Ok(6));
    assert_eq!(e.get_scalar(2), Err(TensorError::IndexOutOfBounds { index: 2, len: 2 }));
    let longer_left = TensrFn2::new(BinaryOperation::Sub, Operand::BorrowedLeaf(&b), Operand::BorrowedLeaf(&a));
    assert_eq!(longer_left.get_scalar(1), Ok(0));
    assert_eq!(longer_left.get_scalar(2), Err(TensorError::IndexOutOfBounds { index: 2, len: 2 }));
    assert_eq!(longer_left.first_short_leaf(2), Some(2));
    assert_eq!(longer_left.first_short_leaf(1), None);
}

#[test]
fn output_length_mismatch_fails() {
    let a = storage(vec![1, 2, 3]);
    let b = storage(vec![4, 5, 6]);
    let e = TensrFn2::new(BinaryOperation::Sub, Operand::BorrowedLeaf(&a), Operand::BorrowedLeaf(&b));
    let mut out = HostStorage::<i32>::new(4);
    assert_eq!(e.apply(&mut out), Err(TensorError::LengthMismatch { left: 3, right: 4 }));
}

#[test]
fn each_operator_elementwise() {
    let a = storage(vec![20, -7, 9, 0]);
    let b = storage(vec![3, 2, -4, 5]);
    let cases = [
        (BinaryOperation::Add, vec![23, -5, 5, 5]),
        (BinaryOperation::Sub, vec![17, -9, 13, -5]),
        (BinaryOperation::Mul, vec![60, -14, -36, 0]),
        (BinaryOperation::Div, vec![6, -3, -2, 0]),
    ];
    for (op, expected) in cases {
        let e = TensrFn2::new(op, Operand::BorrowedLeaf(&a), Operand::BorrowedLeaf(&b));
        let mut out = HostStorage::<i32>::new(4);
        e.apply(&mut out).unwrap();
        assert_eq!(values(&out), expected);
        for i in 0..4 {
            let l = a.get_scalar(i).unwrap();
            let r = b.get_scalar(i).unwrap();
            assert_eq!(out.get_scalar(i).unwrap(), apply_scalar(op, l, r));
        }
    }
}

fn vector_matches_scalar(n: usize) {
    let a = storage((0..n as i32).map(|x| x * 3 - 7).collect());
    let b = storage((0..n as i32).map(|x| 5 - x).collect());
    let c = storage((0..n as i32).map(|x| x + 1).collect());
    let ab = TensrFn2::new(BinaryOperation::Mul, Operand::BorrowedLeaf(&a), Operand::BorrowedLeaf(&b));
    let e = TensrFn2::new(BinaryOperation::Sub, Operand::BorrowedNode(&ab), Operand::BorrowedLeaf(&c));
    let mut out = HostStorage::<i32>::new(n);
    e.apply(&mut out).unwrap();
    for i in 0..n {
        let x = i as i32;
        let expected = (x * 3 - 7) * (5 - x) - (x + 1);
        assert_eq!(out.get_scalar(i).unwrap(), expected);
        assert_eq!(e.get_scalar(i).unwrap(), expected);
    }
}

#[test]
fn vector_path_matches_scalar_on_whole_lanes() {
    vector_matches_scalar(4 * SIMD_WIDTH);
}

#[test]
fn vector_path_matches_scalar_with_remainder() {
    vector_matches_scalar(3 * SIMD_WIDTH + 5);
    vector_matches_scalar(SIMD_WIDTH - 1);
    vector_matches_scalar(0);
}

#[test]
fn vector_kernel_matches_scalar_kernel() {
    let l: [i64; SIMD_WIDTH] = [1, -2, 3, -4, 5, -6, 7, -8];
    let r: [i64; SIMD_WIDTH] = [9, 8, 7, 6, 5, 4, 3, 2];
    for op in [BinaryOperation::Add, BinaryOperation::Sub, BinaryOperation::Mul, BinaryOperation::Div] {
        let lanes = apply_vector(op, &l, &r);
        for k in 0..SIMD_WIDTH {
            assert_eq!(lanes[k], apply_scalar(op, l[k], r[k]));
        }
    }
}

#[test]
fn reuse_matches_fresh_buffer() {
    let n = 2 * SIMD_WIDTH + 3;
    let b = storage((0..n as i32).map(|x| 100 - x).collect());
    let fresh = {
        let a = storage((0..n as i32).collect());
        let e = TensrFn2::new(BinaryOperation::Add, Operand::BorrowedLeaf(&a), Operand::BorrowedLeaf(&b));
        let mut out = HostStorage::<i32>::new(n);
        e.apply(&mut out).unwrap();
        values(&out)
    };
    let a = storage((0..n as i32).collect());
    let e = TensrFn2::new(BinaryOperation::Add, Operand::OwnedLeaf(a), Operand::BorrowedLeaf(&b));
    let reused = e.materialize().unwrap();
    assert!(reused.frees_on_drop());
    assert_eq!(values(&reused), fresh);
    assert_eq!(values(&reused), vec![100; n]);
}

#[test]
fn donated_leaf_on_the_right_is_read_correctly() {
    let a = storage(vec![5, 6, 7]);
    let b = storage(vec![1, 2, 3]);
    let c = storage(vec![10, 10, 10]);
    let inner = TensrFn2::new(BinaryOperation::Sub, Operand::BorrowedLeaf(&a), Operand::OwnedLeaf(b));
    let e = TensrFn2::new(BinaryOperation::Mul, Operand::OwnedNode(Box::new(inner)), Operand::BorrowedLeaf(&c));
    assert_eq!(values(&e.materialize().unwrap()), vec![40, 40, 40]);
}

#[test]
fn borrowed_operands_are_left_unchanged() {
    let a = storage(vec![1, 2, 3, 4]);
    let b = storage(vec![4, 3, 2, 1]);
    let mut e = TensrFn2::new(BinaryOperation::Add, Operand::BorrowedLeaf(&a), Operand::BorrowedLeaf(&b));
    assert!(e.get_buffer_and_set_no_free(4).is_none());
    let out = e.materialize().unwrap();
    assert_eq!(values(&out), vec![5, 5, 5, 5]);
    assert!(a.frees_on_drop());
    assert!(b.frees_on_drop());
    assert_eq!(values(&a), vec![1, 2, 3, 4]);
    assert_eq!(values(&b), vec![4, 3, 2, 1]);
}

#[test]
fn donation_query_prefers_leftmost_owned_leaf() {
    let a = storage(vec![1, 2]);
    let mut e = TensrFn2::new(
        BinaryOperation::Add,
        Operand::BorrowedLeaf(&a),
        Operand::OwnedNode(Box::new(TensrFn2::new(
            BinaryOperation::Add,
            Operand::OwnedLeaf(storage(vec![3, 4])),
            Operand::OwnedLeaf(storage(vec![5, 6])),
        ))),
    );
    assert_eq!(e.get_buffer_and_set_no_free(3), None);
    assert_eq!(e.get_buffer_and_set_no_free(2), Some(vec![3, 4]));
    match &e.rhs {
        Operand::OwnedNode(n) => match &n.rhs {
            Operand::OwnedLeaf(s) => assert!(s.frees_on_drop()),
            _ => panic!("right leaf changed kind"),
        },
        _ => panic!("right operand changed kind"),
    }
    assert_eq!(e.get_buffer_and_set_no_free(2), Some(vec![5, 6]));
    assert_eq!(e.get_buffer_and_set_no_free(2), None);
}

#[test]
fn storage_donation_hands_over_the_block() {
    let mut s = storage(vec![1, 2, 3]);
    assert_eq!(s.get_buffer_and_set_no_free(4), None);
    assert!(s.frees_on_drop());
    let block = s.get_buffer_and_set_no_free(3);
    assert_eq!(block, Some(vec![1, 2, 3]));
    assert!(!s.frees_on_drop());
    assert_eq!(s.len(), 3);
    assert_eq!(s.get_buffer_and_set_no_free(1), None);
}

#[test]
fn fusion_matches_staged_evaluation() {
    let a = vec![3, -1, 4, 1, -5, 9, 2, -6, 5, 3];
    let b = vec![2, 7, -1, 8, 2, -8, 1, 8, 2, 8];
    let c = vec![1, 4, 1, 4, 2, 1, 3, 5, 6, 2];
    let fused = {
        let ab = TensrFn2::new(BinaryOperation::Add, Operand::OwnedLeaf(storage(a.clone())), Operand::OwnedLeaf(storage(b.clone())));
        TensrFn2::new(BinaryOperation::Mul, Operand::OwnedNode(Box::new(ab)), Operand::OwnedLeaf(storage(c.clone())))
            .materialize()
            .unwrap()
    };
    let temp = TensrFn2::new(BinaryOperation::Add, Operand::OwnedLeaf(storage(a)), Operand::OwnedLeaf(storage(b)))
        .materialize()
        .unwrap();
    let staged = TensrFn2::new(BinaryOperation::Mul, Operand::OwnedLeaf(temp), Operand::OwnedLeaf(storage(c)))
        .materialize()
        .unwrap();
    assert_eq!(values(&fused), values(&staged));
    assert_eq!(values(&fused), vec![5, 24, 3, 36, -6, 1, 9, 10, 42, 22]);
}

#[test]
fn lazy_node_reads_and_refuses_writes() {
    let a = storage(vec![1, 2, 3]);
    let b = storage(vec![4, 5, 6]);
    let mut e = TensrFn2::new(BinaryOperation::Mul, Operand::BorrowedLeaf(&a), Operand::BorrowedLeaf(&b));
    assert_eq!(e.len(), 3);
    assert!(!e.is_empty());
    assert_eq!(e.get_scalar(2), Ok(18));
    assert_eq!(e.get_scalar(3), Err(TensorError::IndexOutOfBounds { index: 3, len: 3 }));
    assert_eq!(e.write_scalar(1, 0), Err(TensorError::InvalidWrite));
}

#[test]
fn node_length_is_left_length() {
    let a = storage(vec![1, 2]);
    let b = storage(vec![1, 2, 3, 4]);
    let e = TensrFn2::new(BinaryOperation::Add, Operand::BorrowedLeaf(&a), Operand::BorrowedLeaf(&b));
    assert_eq!(e.len(), 2);
}

#[test]
fn representability_check() {
    let a = storage(vec![i32::MAX, 1]);
    let b = storage(vec![1, 1]);
    let e = TensrFn2::new(BinaryOperation::Add, Operand::BorrowedLeaf(&a), Operand::BorrowedLeaf(&b));
    assert!(!e.is_representable());
    let z = storage(vec![1, 0]);
    let d = TensrFn2::new(BinaryOperation::Div, Operand::BorrowedLeaf(&b), Operand::BorrowedLeaf(&z));
    assert!(!d.is_representable());
    let ok = TensrFn2::new(BinaryOperation::Sub, Operand::BorrowedLeaf(&a), Operand::BorrowedLeaf(&b));
    assert!(ok.is_representable());
    assert_eq!(ok.try_eval_at(0), Some(i32::MAX - 1));
    let m = storage(vec![i32::MIN]);
    let n1 = storage(vec![-1]);
    let q = TensrFn2::new(BinaryOperation::Div, Operand::BorrowedLeaf(&m), Operand::BorrowedLeaf(&n1));
    assert_eq!(q.try_eval_at(0), None);
}

#[test]
fn unsigned_subtraction_below_zero_is_not_representable() {
    let a = HostStorage::<u16>::from_vec(vec![1, 5]);
    let b = HostStorage::<u16>::from_vec(vec![2, 5]);
    let e = TensrFn2::new(BinaryOperation::Sub, Operand::BorrowedLeaf(&a), Operand::BorrowedLeaf(&b));
    assert!(!e.is_representable());
    assert_eq!(e.try_eval_at(1), Some(0));
}

#[test]
fn applicator_on_operands() {
    let a = storage(vec![2, 4, 6]);
    let b = storage(vec![1, 2, 3]);
    let mut out = HostStorage::<i32>::new(3);
    HostApplicator2::apply_contiguous(BinaryOperation::Div, &Operand::BorrowedLeaf(&a), &Operand::BorrowedLeaf(&b), &mut out).unwrap();
    assert_eq!(values(&out), vec![2, 2, 2]);
}

#[test]
fn operand_kinds() {
    let a = storage(vec![1]);
    let node = TensrFn2::new(BinaryOperation::Add, Operand::BorrowedLeaf(&a), Operand::BorrowedLeaf(&a));
    assert_eq!(
        Operand::BorrowedLeaf(&a).argument(),
        Argument { ref_type: RefType::Ref, arg_type: ArgumentType::ArrayBase }
    );
    assert_eq!(
        Operand::BorrowedNode(&node).argument(),
        Argument { ref_type: RefType::Ref, arg_type: ArgumentType::TensrFn2 }
    );
    assert_eq!(
        Operand::<i32>::OwnedLeaf(storage(vec![1])).argument(),
        Argument { ref_type: RefType::Own, arg_type: ArgumentType::ArrayBase }
    );
}

#[test]
fn operator_syntax_builds_lazy_nodes() {
    let a = storage(vec![1, 1]);
    let b = storage(vec![2, 2]);
    let c = storage(vec![3, 3]);
    let sum = (Operand::OwnedLeaf(a) + Operand::OwnedLeaf(b)).into_operand() + Operand::BorrowedLeaf(&c);
    assert_eq!(sum.op, BinaryOperation::Add);
    assert_eq!(values(&sum.materialize().unwrap()), vec![6, 6]);
    let x = storage(vec![12, -9]);
    let y = storage(vec![4, 3]);
    assert_eq!((Operand::BorrowedLeaf(&x) - Operand::BorrowedLeaf(&y)).get_scalar(1), Ok(-12));
    assert_eq!((Operand::BorrowedLeaf(&x) * Operand::BorrowedLeaf(&y)).get_scalar(0), Ok(48));
    let q = Operand::BorrowedLeaf(&x) / Operand::BorrowedLeaf(&y);
    assert_eq!(q.op, BinaryOperation::Div);
    let r = q.as_operand() + Operand::BorrowedLeaf(&y);
    assert_eq!(r.get_scalar(0), Ok(7));
    assert_eq!(r.get_scalar(1), Ok(0));
}
