use vstd::prelude::*;

use crate::dimension::{layout_fits, product, suffix_product, Axes, Dimension};
use crate::error::TensorError;
use crate::expr::Operand;
use crate::scalar::TensrType;
use crate::storage::HostStorage;
use crate::types::UDim;

verus! {

/// An array: its axes and the storage that holds its elements, one for each
/// combination of indices.
pub struct ArrayBase<T, D> {
    pub(crate) axes: Axes<D>,
    pub(crate) storage: HostStorage<T>,
}

/// The number of elements of an array whose axes have extents `e`.
pub proof fn lemma_layout_len(e: Seq<UDim>)
    requires
        layout_fits(e),
    ensures
        product(e) <= usize::MAX,
{
    assert(e.subrange(0, e.len() as int) =~= e);
    assert(suffix_product(e, 0) <= usize::MAX);
}

impl<T: TensrType, D: Dimension> ArrayBase<T, D> {
    pub closed spec fn wf(&self) -> bool {
        &&& self.storage.wf()
        &&& self.storage.is_owner()
        &&& self.axes.shape.well_formed()
        &&& self.axes.stride.well_formed()
        &&& product(self.axes.shape.extents()) == self.storage@.len()
    }

    /// The elements, in row-major order.
    pub closed spec fn values(&self) -> Seq<T> {
        self.storage@
    }

    /// The extent of each axis.
    pub closed spec fn extents(&self) -> Seq<UDim> {
        self.axes.shape.extents()
    }

    /// The stride of each axis.
    pub closed spec fn stride_extents(&self) -> Seq<UDim> {
        self.axes.stride.extents()
    }

    /// An array with the given axes and storage.
    pub fn new(axes: Axes<D>, storage: HostStorage<T>) -> (r: Self)
        requires
            storage.wf(),
            storage.is_owner(),
            axes.shape.well_formed(),
            axes.stride.well_formed(),
            product(axes.shape.extents()) == storage@.len(),
        ensures
            r.wf(),
            r.values() == storage@,
            r.extents() == axes.shape.extents(),
            r.stride_extents() == axes.stride.extents(),
    {
        ArrayBase { axes, storage }
    }

    /// An array of extents `shape` whose elements are unspecified: each must
    /// be written before it is read.
    pub fn new_empty(shape: D) -> (r: Self)
        requires
            shape.well_formed(),
            layout_fits(shape.extents()),
        ensures
            r.wf(),
            r.extents() == shape.extents(),
            r.values().len() == product(shape.extents()),
            forall|j: int|
                0 <= j < shape.extents().len() ==> #[trigger] r.stride_extents()[j] == suffix_product(
                    shape.extents(),
                    j + 1,
                ),
    {
        proof {
            lemma_layout_len(shape.extents());
        }
        let n = shape.len();
        let storage = HostStorage::new_uninit(n);
        Self::new(Axes::new_with_default_stride(shape), storage)
    }

    /// An array of extents `shape` with every element `value`.
    pub fn new_with(shape: D, value: T) -> (r: Self)
        requires
            shape.well_formed(),
            layout_fits(shape.extents()),
        ensures
            r.wf(),
            r.extents() == shape.extents(),
            r.values() == Seq::new(product(shape.extents()) as nat, |i: int| value),
    {
        proof {
            lemma_layout_len(shape.extents());
        }
        let n = shape.len();
        let storage = HostStorage::new_with(n, value);
        Self::new(Axes::new_with_default_stride(shape), storage)
    }

    /// An array of extents `shape` with every element zero.
    pub fn zeros(shape: D) -> (r: Self)
        requires
            shape.well_formed(),
            layout_fits(shape.extents()),
        ensures
            r.wf(),
            r.extents() == shape.extents(),
            r.values().len() == product(shape.extents()),
            forall|i: int| 0 <= i < r.values().len() ==> (#[trigger] r.values()[i]).to_int() == 0,
    {
        Self::new_with(shape, T::zero())
    }

    /// An array of extents `shape` with every element one.
    pub fn ones(shape: D) -> (r: Self)
        requires
            shape.well_formed(),
            layout_fits(shape.extents()),
        ensures
            r.wf(),
            r.extents() == shape.extents(),
            r.values().len() == product(shape.extents()),
            forall|i: int| 0 <= i < r.values().len() ==> (#[trigger] r.values()[i]).to_int() == 1,
    {
        Self::new_with(shape, T::one())
    }

    /// Sets every element to `value`.
    pub fn fill(&mut self, value: T)
        requires
            old(self).wf(),
        ensures
            final(self).wf(),
            final(self).extents() == old(self).extents(),
            final(self).stride_extents() == old(self).stride_extents(),
            final(self).values() == Seq::new(old(self).values().len(), |i: int| value),
    {
        self.storage.fill(value);
    }

    /// The extents of the array's axes.
    pub fn shape(&self) -> (r: &D)
        ensures
            r.extents() == self.extents(),
    {
        &self.axes.shape
    }

    /// The strides of the array's axes.
    pub fn strides(&self) -> (r: &D)
        ensures
            r.extents() == self.stride_extents(),
    {
        &self.axes.stride
    }

    /// The number of elements.
    pub fn len(&self) -> (r: usize)
        requires
            self.wf(),
        ensures
            r == self.values().len(),
    {
        self.storage.len()
    }

    pub fn is_empty(&self) -> (r: bool)
        requires
            self.wf(),
        ensures
            r == (self.values().len() == 0),
    {
        self.storage.is_empty()
    }

    /// The element at flat index `index`.
    pub fn get_scalar(&self, index: usize) -> (r: Result<T, TensorError>)
        requires
            self.wf(),
        ensures
            index < self.values().len() ==> r == Ok::<T, TensorError>(self.values()[index as int]),
            index >= self.values().len() ==> r == Err::<T, TensorError>(
                TensorError::IndexOutOfBounds { index, len: self.values().len() as usize },
            ),
    {
        self.storage.get_scalar(index)
    }

    /// Writes `value` at flat index `index`.
    pub fn write_scalar(&mut self, value: T, index: usize) -> (r: Result<(), TensorError>)
        requires
            old(self).wf(),
        ensures
            final(self).wf(),
            final(self).extents() == old(self).extents(),
            final(self).stride_extents() == old(self).stride_extents(),
            index < old(self).values().len() ==> r is Ok && final(self).values() == old(
                self,
            ).values().update(index as int, value),
            index >= old(self).values().len() ==> r == Err::<(), TensorError>(
                TensorError::IndexOutOfBounds { index, len: old(self).values().len() as usize },
            ) && final(self).values() == old(self).values(),
    {
        self.storage.write_scalar(value, index)
    }

    /// The storage that holds the elements.
    pub fn get_storage(&self) -> (r: &HostStorage<T>)
        requires
            self.wf(),
        ensures
            r.wf(),
            r.is_owner(),
            r@ == self.values(),
    {
        &self.storage
    }

    /// The array as an owned leaf of an expression: its storage may be
    /// donated to the expression's output.
    pub fn into_operand<'a>(self) -> (r: Operand<'a, T>)
        requires
            self.wf(),
        ensures
            r.live(),
            r.model() == crate::expr::Tree::Leaf(self.values()),
            r is OwnedLeaf,
    {
        Operand::OwnedLeaf(self.storage)
    }

    /// The array as a borrowed leaf of an expression: never donated.
    pub fn as_operand<'a>(&'a self) -> (r: Operand<'a, T>)
        requires
            self.wf(),
        ensures
            r.live(),
            r.model() == crate::expr::Tree::Leaf(self.values()),
            r is BorrowedLeaf,
    {
        Operand::BorrowedLeaf(&self.storage)
    }
}

} // verus!
