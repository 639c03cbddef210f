use tensr::error::TensorError;
use tensr::storage::{HostStorage, FILL_CHUNK};

#[test]
fn new_is_zero_filled() {
    let s = HostStorage::<u64>::new(1000);
    assert_eq!(s.len(), 1000);
    for i in 0..1000 {
        assert_eq!(s.get_scalar(i), Ok(0));
    }
}

#[test]
fn new_with_fills_past_whole_chunks() {
    let n = 2 * FILL_CHUNK + 7;
    let s = HostStorage::<i16>::new_with(n, -3);
    assert_eq!(s.len(), n);
    for i in 0..n {
        assert_eq!(s.get_scalar(i), Ok(-3));
    }
}

#[test]
fn fill_chunks_leaves_remainder() {
    let mut s = HostStorage::<u32>::from_vec(vec![1, 2, 3, 4, 5, 6, 7, 8, 9, 10]);
    s.fill_chunks(4, 0);
    let got: Vec<u32> = (0..10).map(|i| s.get_scalar(i).unwrap()).collect();
    assert_eq!(got, vec![0, 0, 0, 0, 0, 0, 0, 0, 9, 10]);
    s.fill(5);
    let got: Vec<u32> = (0..10).map(|i| s.get_scalar(i).unwrap()).collect();
    assert_eq!(got, vec![5; 10]);
}

#[test]
fn empty_storage() {
    let s = HostStorage::<i64>::new(0);
    assert!(s.is_empty());
    assert_eq!(s.get_scalar(0), Err(TensorError::IndexOutOfBounds { index: 0, len: 0 }));
}

#[test]
fn out_of_bounds_write_fails() {
    let mut s = HostStorage::<i32>::new(2);
    assert_eq!(s.write_scalar(1, 2), Err(TensorError::IndexOutOfBounds { index: 2, len: 2 }));
    assert_eq!(s.write_scalar(9, 1), Ok(()));
    assert_eq!(s.get_scalar(1), Ok(9));
    assert_eq!(s.get_scalar(5), Err(TensorError::IndexOutOfBounds { index: 5, len: 2 }));
}

#[test]
fn take_as_vec_empties_storage() {
    let mut s = HostStorage::<i32>::new_with(3, 4);
    let v = s.take_as_vec();
    assert_eq!(v, vec![4, 4, 4]);
    assert_eq!(s.len(), 0);
}
