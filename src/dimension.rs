use vstd::prelude::*;

use crate::types::{DimLen, UDim};

verus! {

/// The product of the extents in `s`; 1 for no extents.
pub open spec fn product(s: Seq<UDim>) -> int
    decreases s.len(),
{
    if s.len() == 0 {
        1
    } else {
        product(s.drop_last()) * s.last()
    }
}

pub proof fn lemma_product_nonneg(s: Seq<UDim>)
    ensures
        product(s) >= 0,
    decreases s.len(),
{
    if s.len() > 0 {
        lemma_product_nonneg(s.drop_last());
        vstd::arithmetic::mul::lemma_mul_nonnegative(product(s.drop_last()), s.last() as int);
    }
}

/// An extent of zero anywhere makes the product zero.
pub proof fn lemma_product_zero(s: Seq<UDim>, k: int)
    requires
        0 <= k < s.len(),
        s[k] == 0,
    ensures
        product(s) == 0,
    decreases s.len(),
{
    let p = product(s.drop_last());
    let l = s.last() as int;
    if k < s.len() - 1 {
        lemma_product_zero(s.drop_last(), k);
        assert(p * l == 0) by (nonlinear_arith)
            requires
                p == 0,
        ;
    } else {
        assert(p * l == 0) by (nonlinear_arith)
            requires
                l == 0,
        ;
    }
}

/// Without zero extents, a prefix's product is at most the whole product.
pub proof fn lemma_product_prefix(s: Seq<UDim>, k: int)
    requires
        0 <= k <= s.len(),
        forall|j: int| 0 <= j < s.len() ==> #[trigger] s[j] >= 1,
    ensures
        product(s.take(k)) <= product(s),
    decreases s.len(),
{
    if k < s.len() {
        assert(s.drop_last().take(k) =~= s.take(k));
        lemma_product_prefix(s.drop_last(), k);
        lemma_product_nonneg(s.drop_last());
        let p = product(s.drop_last());
        let l = s.last() as int;
        assert(p <= p * l) by (nonlinear_arith)
            requires
                p >= 0,
                l >= 1,
        ;
    } else {
        assert(s.take(k) =~= s);
    }
}

/// Putting one extent in front multiplies the product by it.
pub proof fn lemma_product_cons(x: UDim, t: Seq<UDim>)
    ensures
        product(seq![x] + t) == x * product(t),
    decreases t.len(),
{
    let c = seq![x] + t;
    if t.len() == 0 {
        assert(c.drop_last() =~= Seq::<UDim>::empty());
        assert(c.last() == x);
        assert(product(Seq::<UDim>::empty()) == 1);
        assert(product(c) == product(c.drop_last()) * c.last());
    } else {
        assert(c.drop_last() =~= seq![x] + t.drop_last());
        assert(c.last() == t.last());
        lemma_product_cons(x, t.drop_last());
        vstd::arithmetic::mul::lemma_mul_is_associative(
            x as int,
            product(t.drop_last()),
            t.last() as int,
        );
    }
}

/// The product of the extents of the axes after axis `j`: the row-major
/// stride of axis `j`.
pub open spec fn suffix_product(e: Seq<UDim>, j: int) -> int {
    product(e.subrange(j, e.len() as int))
}

/// The axes can be laid out contiguously: their number fits a `DimLen`
/// and every stride, the product of all extents included, fits a `usize`.
pub open spec fn layout_fits(e: Seq<UDim>) -> bool {
    &&& e.len() <= DimLen::MAX
    &&& forall|j: int| 0 <= j <= e.len() ==> #[trigger] suffix_product(e, j) <= usize::MAX
}

/// The product of the extents in `s`.
pub fn product_of(s: &[UDim]) -> (r: usize)
    requires
        product(s@) <= usize::MAX,
    ensures
        r == product(s@),
{
    let n = s.len();
    let mut k: usize = 0;
    while k < n
        invariant
            k <= n,
            n == s@.len(),
            forall|j: int| 0 <= j < k ==> #[trigger] s@[j] >= 1,
        decreases n - k,
    {
        if s[k] == 0 {
            proof {
                lemma_product_zero(s@, k as int);
            }
            return 0;
        }
        k += 1;
    }
    let mut acc: usize = 1;
    let mut i: usize = 0;
    while i < n
        invariant
            i <= n,
            n == s@.len(),
            forall|j: int| 0 <= j < n ==> #[trigger] s@[j] >= 1,
            product(s@) <= usize::MAX,
            acc == product(s@.take(i as int)),
        decreases n - i,
    {
        assert(s@.take(i + 1).drop_last() =~= s@.take(i as int));
        proof {
            lemma_product_prefix(s@, i + 1);
        }
        acc = acc * s[i];
        i += 1;
    }
    assert(s@.take(n as int) =~= s@);
    acc
}

/// What every representation of an array's dimensions offers: its extents,
/// their number and their product.
pub trait Dimension: Sized {
    /// The extent of each axis.
    spec fn extents(&self) -> Seq<UDim>;

    spec fn well_formed(&self) -> bool;

    /// A dimension of this type whose extents are all zero.
    fn zero() -> (r: Self)
        ensures
            r.well_formed(),
            forall|i: int| 0 <= i < r.extents().len() ==> #[trigger] r.extents()[i] == 0,
    ;

    /// A dimension of this type with as many axes as `self`, all zero.
    fn zeros_like(&self) -> (r: Self)
        requires
            self.well_formed(),
        ensures
            r.well_formed(),
            r.extents() == Seq::new(self.extents().len(), |i: int| 0usize),
    ;

    /// The number of axes.
    fn ndim(&self) -> (r: DimLen)
        requires
            self.well_formed(),
            self.extents().len() <= DimLen::MAX,
        ensures
            r == self.extents().len(),
    ;

    /// The number of elements: the product of the extents.
    fn len(&self) -> (r: usize)
        requires
            self.well_formed(),
            product(self.extents()) <= usize::MAX,
        ensures
            r == product(self.extents()),
    ;

    fn is_empty(&self) -> (r: bool)
        requires
            self.well_formed(),
            product(self.extents()) <= usize::MAX,
        ensures
            r == (product(self.extents()) == 0),
    {
        self.len() == 0
    }

    /// The extent of axis `axis`.
    fn extent(&self, axis: DimLen) -> (r: UDim)
        requires
            self.well_formed(),
            axis < self.extents().len(),
        ensures
            r == self.extents()[axis as int],
    ;

    /// Sets the extent of axis `axis`.
    fn set_extent(&mut self, axis: DimLen, value: UDim)
        requires
            old(self).well_formed(),
            axis < old(self).extents().len(),
        ensures
            final(self).well_formed(),
            final(self).extents() == old(self).extents().update(axis as int, value),
    ;
}

/// The extents of an array's axes and the stride of each.
pub struct Axes<D> {
    pub shape: D,
    pub stride: D,
}

impl<D: Dimension> Axes<D> {
    /// Axes of extents `shape` laid out contiguously in row-major order:
    /// each axis's stride is the product of the extents after it.
    pub fn new_with_default_stride(shape: D) -> (r: Self)
        requires
            shape.well_formed(),
            layout_fits(shape.extents()),
        ensures
            r.shape == shape,
            r.stride.well_formed(),
            r.stride.extents().len() == shape.extents().len(),
            forall|j: int|
                0 <= j < shape.extents().len() ==> #[trigger] r.stride.extents()[j] == suffix_product(
                    shape.extents(),
                    j + 1,
                ),
    {
        let ghost e = shape.extents();
        let mut stride = shape.zeros_like();
        let l = shape.ndim();
        let mut s: usize = 1;
        let mut i: DimLen = 0;
        assert(e.subrange(l as int, l as int) =~= Seq::<UDim>::empty());
        while i < l
            invariant
                i <= l,
                l == e.len(),
                e == shape.extents(),
                shape.well_formed(),
                stride.well_formed(),
                stride.extents().len() == l,
                forall|j: int| 0 <= j <= e.len() ==> #[trigger] suffix_product(e, j) <= usize::MAX,
                s == suffix_product(e, l - i),
                forall|j: int|
                    l - i <= j < l ==> #[trigger] stride.extents()[j] == suffix_product(e, j + 1),
            decreases l - i,
        {
            let j = l - i - 1;
            stride.set_extent(j, s);
            let x = shape.extent(j);
            proof {
                assert(e.subrange(j as int, l as int) =~= seq![x] + e.subrange(j + 1, l as int));
                lemma_product_cons(x, e.subrange(j + 1, l as int));
                assert(suffix_product(e, j as int) == x * s);
            }
            s = x * s;
            i += 1;
        }
        Axes { shape, stride }
    }
}

/// The dimensions of an array, held as `Index`.
pub struct Dim<Index> {
    pub index: Index,
}

impl<Index> Dim<Index> {
    /// Creates a new [`Dim<Index>`].
    pub fn new(index: Index) -> (r: Self)
        ensures
            r.index == index,
    {
        Self { index }
    }

    /// Access to the value of type `Index` in this [`Dim<Index>`]
    pub fn get(&self) -> (r: &Index)
        ensures
            *r == self.index,
    {
        &self.index
    }
}

impl<const N: usize> Dimension for Dim<[UDim; N]> {
    open spec fn extents(&self) -> Seq<UDim> {
        self.index@
    }

    open spec fn well_formed(&self) -> bool {
        true
    }

    fn zero() -> (r: Self) {
        Self::new([0; N])
    }

    fn zeros_like(&self) -> (r: Self) {
        let r = Self::new([0; N]);
        assert(r.extents() =~= Seq::new(self.extents().len(), |i: int| 0usize));
        r
    }

    fn ndim(&self) -> (r: DimLen) {
        N as DimLen
    }

    fn len(&self) -> (r: usize) {
        product_of(self.index.as_slice())
    }

    fn extent(&self, axis: DimLen) -> (r: UDim) {
        self.index[axis as usize]
    }

    fn set_extent(&mut self, axis: DimLen, value: UDim) {
        self.index[axis as usize] = value;
    }
}

/// The number of extents that a [`DynIndex`] keeps inline.
pub const MAX_STACK_DIMS: usize = 4;

/// The extents of a dimension whose number of axes is known only at run
/// time: inline for up to `MAX_STACK_DIMS` axes, on the heap beyond.
#[derive(Debug)]
pub enum DynIndex {
    /// The first `.0` entries of the array are the extents.
    Stack(DimLen, [UDim; MAX_STACK_DIMS]),
    /// Extents of arbitrarily many axes.
    Heap(Vec<UDim>),
}

impl View for DynIndex {
    type V = Seq<UDim>;

    open spec fn view(&self) -> Seq<UDim> {
        match self {
            DynIndex::Stack(l, a) => a@.take(*l as int),
            DynIndex::Heap(h) => h@,
        }
    }
}

impl DynIndex {
    pub open spec fn wf(&self) -> bool {
        match self {
            DynIndex::Stack(l, _) => *l as int <= MAX_STACK_DIMS,
            DynIndex::Heap(h) => h@.len() <= DimLen::MAX,
        }
    }

    /// No axes at all.
    pub fn zero() -> (r: Self)
        ensures
            r.wf(),
            r@.len() == 0,
    {
        DynIndex::Stack(0, [0; MAX_STACK_DIMS])
    }

    /// The number of axes.
    pub fn len(&self) -> (r: DimLen)
        requires
            self.wf(),
        ensures
            r == self@.len(),
    {
        match self {
            DynIndex::Stack(l, _) => *l,
            DynIndex::Heap(h) => h.len() as DimLen,
        }
    }

    pub fn is_empty(&self) -> (r: bool)
        requires
            self.wf(),
        ensures
            r == (self@.len() == 0),
    {
        match self {
            DynIndex::Stack(l, _) => *l == 0,
            DynIndex::Heap(h) => h.len() == 0,
        }
    }

    /// The extents as a slice.
    pub fn as_slice(&self) -> (r: &[UDim])
        requires
            self.wf(),
        ensures
            r@ == self@,
    {
        match self {
            DynIndex::Stack(l, a) => vstd::slice::slice_subrange(a.as_slice(), 0, *l as usize),
            DynIndex::Heap(h) => h.as_slice(),
        }
    }

    /// The extent of axis `i`.
    pub fn get(&self, i: usize) -> (r: UDim)
        requires
            self.wf(),
            i < self@.len(),
        ensures
            r == self@[i as int],
    {
        match self {
            DynIndex::Stack(_, a) => a[i],
            DynIndex::Heap(h) => h[i],
        }
    }

    /// Sets the extent of axis `i`.
    pub fn set(&mut self, i: usize, value: UDim)
        requires
            old(self).wf(),
            i < old(self)@.len(),
        ensures
            final(self).wf(),
            final(self)@ == old(self)@.update(i as int, value),
    {
        match self {
            DynIndex::Stack(l, a) => {
                a[i] = value;
                assert(a@.take(*l as int) =~= old(self)@.update(i as int, value));
            },
            DynIndex::Heap(h) => {
                h.set(i, value);
            },
        }
    }
}

/// A dimension whose number of axes is known only at run time.
pub type DimDyn = Dim<DynIndex>;

impl Dim<DynIndex> {
    /// A dimension with the extents in `index`.
    pub fn new_from(index: &[UDim]) -> (r: Self)
        requires
            index@.len() <= DimLen::MAX,
        ensures
            r.well_formed(),
            r.extents() == index@,
    {
        let n = index.len();
        if n <= MAX_STACK_DIMS {
            let mut data: [UDim; MAX_STACK_DIMS] = [0; MAX_STACK_DIMS];
            let mut i: usize = 0;
            while i < n
                invariant
                    i <= n <= MAX_STACK_DIMS,
                    n == index@.len(),
                    forall|j: int| 0 <= j < i ==> #[trigger] data@[j] == index@[j],
                decreases n - i,
            {
                data[i] = index[i];
                i += 1;
            }
            let r = Self::new(DynIndex::Stack(n as DimLen, data));
            assert(r.extents() =~= index@);
            r
        } else {
            let mut data: Vec<UDim> = Vec::new();
            let mut i: usize = 0;
            while i < n
                invariant
                    i <= n,
                    n == index@.len(),
                    data@ == index@.take(i as int),
                decreases n - i,
            {
                data.push(index[i]);
                assert(data@ =~= index@.take(i + 1));
                i += 1;
            }
            assert(data@ =~= index@);
            Self::new(DynIndex::Heap(data))
        }
    }
}

impl Dimension for Dim<DynIndex> {
    open spec fn extents(&self) -> Seq<UDim> {
        self.index@
    }

    open spec fn well_formed(&self) -> bool {
        self.index.wf()
    }

    fn zero() -> (r: Self) {
        Self::new(DynIndex::zero())
    }

    fn zeros_like(&self) -> (r: Self) {
        let n = self.index.len() as usize;
        let zeros: Vec<UDim> = vec![0; n];
        let r = Self::new_from(zeros.as_slice());
        assert(r.extents() =~= Seq::new(self.extents().len(), |i: int| 0usize));
        r
    }

    fn ndim(&self) -> (r: DimLen) {
        self.index.len()
    }

    fn len(&self) -> (r: usize) {
        product_of(self.index.as_slice())
    }

    fn extent(&self, axis: DimLen) -> (r: UDim) {
        self.index.get(axis as usize)
    }

    fn set_extent(&mut self, axis: DimLen, value: UDim) {
        self.index.set(axis as usize, value);
    }
}

} // verus!
