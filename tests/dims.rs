use tensr::array::ArrayBase;
use tensr::binding::{gen_type_pairs, ArgumentType, RefType};
use tensr::dimension::{Axes, Dim, DimDyn, Dimension, DynIndex};
use tensr::expr::TensrFn2;
use tensr::kernel::BinaryOperation;
use tensr::shape::Shape;

#[test]
fn static_dim_len_and_ndim() {
    let d = Dim::new([3usize, 4]);
    assert_eq!(d.get()[0], 3);
    assert_eq!(d.ndim(), 2);
    assert_eq!(d.len(), 12);
    assert!(!d.is_empty());
    assert_eq!(d.extent(1), 4);
    assert!(Dim::new([3usize, 0, 5]).is_empty());
}

#[test]
fn dyn_dim_stack_and_heap() {
    for n in [1usize, 2, 4, 5, 8, 12] {
        let data: Vec<usize> = (1..=n).collect();
        let d = DimDyn::new_from(&data);
        assert_eq!(d.ndim() as usize, n);
        for i in 0..n {
            assert_eq!(d.extent(i as u32), i + 1);
        }
        assert_eq!(d.len(), (1..=n).product::<usize>());
        assert_eq!(matches!(d.get(), DynIndex::Stack(..)), n <= 4);
    }
}

#[test]
fn dyn_index_zero() {
    let z = DynIndex::zero();
    assert_eq!(z.len(), 0);
    assert!(z.is_empty());
    let d = DimDyn::zero();
    assert_eq!(d.ndim(), 0);
    assert_eq!(d.len(), 1);
}

#[test]
fn product_with_zero_extent_does_not_overflow() {
    let d = DimDyn::new_from(&[usize::MAX, 0, usize::MAX]);
    assert_eq!(d.len(), 0);
}

#[test]
fn default_strides_are_row_major() {
    let axes = Axes::new_with_default_stride(Dim::new([2usize, 3, 4]));
    assert_eq!(axes.stride.get(), &[12, 4, 1]);
    let dyn_axes = Axes::new_with_default_stride(DimDyn::new_from(&[5, 6]));
    assert_eq!(dyn_axes.stride.extent(0), 6);
    assert_eq!(dyn_axes.stride.extent(1), 1);
}

#[test]
fn shape_new() {
    let s = Shape::new(&[2, 3, 5]);
    assert_eq!(s.dims, 3);
    assert_eq!(s.len, 30);
    assert_eq!(s.axes, [2, 3, 5, 0, 0, 0, 0, 0]);
}

#[test]
fn array_constructors() {
    let z = ArrayBase::<i32, _>::zeros(Dim::new([2usize, 3]));
    assert_eq!(z.len(), 6);
    assert_eq!(z.get_scalar(5), Ok(0));
    let o = ArrayBase::<u32, _>::ones(DimDyn::new_from(&[4]));
    assert_eq!(o.get_scalar(3), Ok(1));
    let mut w = ArrayBase::<i64, _>::new_with(Dim::new([3usize]), 9);
    assert_eq!(w.get_scalar(2), Ok(9));
    w.fill(-2);
    assert_eq!(w.get_scalar(0), Ok(-2));
    assert_eq!(w.shape().get(), &[3]);
    assert_eq!(w.strides().get(), &[1]);
    let mut e = ArrayBase::<i16, _>::new_empty(Dim::new([2usize, 2]));
    for i in 0..4 {
        e.write_scalar(7, i).unwrap();
    }
    assert_eq!((0..4).map(|i| e.get_scalar(i).unwrap()).collect::<Vec<_>>(), vec![7, 7, 7, 7]);
}

#[test]
fn arrays_in_expressions() {
    let a = ArrayBase::<i32, _>::new_with(Dim::new([2usize, 2]), 3);
    let b = ArrayBase::<i32, _>::new_with(Dim::new([2usize, 2]), 4);
    let e = TensrFn2::new(BinaryOperation::Mul, a.into_operand(), b.as_operand());
    let out = e.materialize().unwrap();
    assert_eq!((0..4).map(|i| out.get_scalar(i).unwrap()).collect::<Vec<_>>(), vec![12; 4]);
    assert_eq!(b.get_scalar(0), Ok(4));
}

#[test]
fn type_pairs_cover_all_forms() {
    let pairs = gen_type_pairs([ArgumentType::ArrayBase, ArgumentType::TensrFn2]);
    assert_eq!(pairs.len(), 36);
    assert_eq!(pairs[0], ((RefType::Own, ArgumentType::ArrayBase), (RefType::Own, ArgumentType::ArrayBase)));
    assert_eq!(pairs[1], ((RefType::Own, ArgumentType::ArrayBase), (RefType::Ref, ArgumentType::ArrayBase)));
    assert_eq!(pairs[6], ((RefType::Ref, ArgumentType::ArrayBase), (RefType::Own, ArgumentType::ArrayBase)));
    assert_eq!(pairs[35], ((RefType::RefMut, ArgumentType::TensrFn2), (RefType::RefMut, ArgumentType::TensrFn2)));
}
