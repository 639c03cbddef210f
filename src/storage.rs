use vstd::prelude::*;

use rayon::iter::ParallelIterator;
use rayon::slice::ParallelSliceMut;

use crate::error::TensorError;
use crate::kernel::{load_lane, SIMD_WIDTH};
use crate::scalar::TensrType;

verus! {

/// The number of elements that one worker fills in a parallel fill.
pub const FILL_CHUNK: usize = 1024;

/// How many of `len` elements whole chunks of `chunk` elements cover.
pub open spec fn chunked_prefix(len: int, chunk: int) -> int {
    (len / chunk) * chunk
}

/// Sets every element of `chunk` to `value`.
pub fn fill_slice<T: Copy>(chunk: &mut [T], value: T)
    ensures
        final(chunk)@.len() == old(chunk)@.len(),
        forall|i: int| 0 <= i < final(chunk)@.len() ==> #[trigger] final(chunk)@[i] == value,
{
    let n = chunk.len();
    let mut i: usize = 0;
    while i < n
        invariant
            i <= n,
            chunk@.len() == n,
            forall|j: int| 0 <= j < i ==> #[trigger] chunk@[j] == value,
        decreases n - i,
    {
        chunk[i] = value;
        i += 1;
    }
}

/// Relies on rayon's `par_chunks_exact_mut` and `for_each`: the first
/// `len / chunk * chunk` elements are split into disjoint chunks of `chunk`
/// elements, each chunk is filled once, and the last `len % chunk`
/// elements are left as they were.
#[verifier::external_body]
fn par_fill_chunks<T: TensrType>(data: &mut Vec<T>, chunk: usize, value: T)
    requires
        chunk > 0,
    ensures
        final(data)@.len() == old(data)@.len(),
        forall|i: int|
            0 <= i < old(data)@.len() ==> #[trigger] final(data)@[i] == if i < chunked_prefix(old(data)@.len() as int, chunk as int) {
                value
            } else {
                old(data)@[i]
            },
{
    data.as_mut_slice().par_chunks_exact_mut(chunk).for_each(|c| fill_slice(c, value));
}

/// A contiguous block of scalars on the host, owned by this value.
///
/// The block is freed by whichever value holds it: this storage while it is
/// responsible for it (`free_on_drop`), or the buffer that a donation handed
/// out. A storage that donated its block keeps its length and the values it
/// held, for the evaluation that reads through it, but no longer holds them.
pub struct HostStorage<T> {
    data: Vec<T>,
    length: usize,
    free_on_drop: bool,
    contents: Ghost<Seq<T>>,
}

impl<T> View for HostStorage<T> {
    type V = Seq<T>;

    /// The values the storage holds, or held when it donated its block.
    closed spec fn view(&self) -> Seq<T> {
        self.contents@
    }
}

impl<T: TensrType> HostStorage<T> {
    pub closed spec fn wf(&self) -> bool {
        &&& self.contents@.len() == self.length
        &&& self.free_on_drop ==> self.data@ == self.contents@
        &&& !self.free_on_drop ==> self.data@.len() == 0
    }

    /// Whether this storage still holds its block and frees it when dropped.
    pub closed spec fn is_owner(&self) -> bool {
        self.free_on_drop
    }

    /// `self` is `before` after it handed out its block: same length and
    /// values, no block, nothing to free.
    pub closed spec fn released_from(&self, before: &Self) -> bool {
        &&& !self.free_on_drop
        &&& self.data@.len() == 0
        &&& self.length == before.length
        &&& self.contents == before.contents
    }

    /// A storage that takes over a block of elements.
    pub fn from_vec(data: Vec<T>) -> (r: Self)
        ensures
            r.wf(),
            r.is_owner(),
            r@ == data@,
    {
        let length = data.len();
        HostStorage { data, length, free_on_drop: true, contents: Ghost(data@) }
    }

    /// `length` elements whose values are unspecified: each must be written
    /// before it is read.
    pub fn new_uninit(length: usize) -> (r: Self)
        ensures
            r.wf(),
            r.is_owner(),
            r@.len() == length,
    {
        let data = vec![T::zero(); length];
        Self::from_vec(data)
    }

    /// `length` elements, each `value`.
    pub fn new_with(length: usize, value: T) -> (r: Self)
        ensures
            r.wf(),
            r.is_owner(),
            r@ == Seq::new(length as nat, |i: int| value),
    {
        let mut s = Self::new_uninit(length);
        s.fill(value);
        s
    }

    /// `length` elements, each zero.
    pub fn new(length: usize) -> (r: Self)
        ensures
            r.wf(),
            r.is_owner(),
            r@.len() == length,
            forall|i: int| 0 <= i < length ==> (#[trigger] r@[i]).to_int() == 0,
    {
        Self::new_with(length, T::zero())
    }

    /// The number of elements.
    pub fn len(&self) -> (r: usize)
        requires
            self.wf(),
        ensures
            r == self@.len(),
    {
        self.length
    }

    pub fn is_empty(&self) -> (r: bool)
        requires
            self.wf(),
        ensures
            r == (self@.len() == 0),
    {
        self.length == 0
    }

    /// The parallel pass of a fill: every element that lies in a whole chunk
    /// of `slice_size` elements becomes `value`, each chunk filled on its own;
    /// the last `len % slice_size` elements are left as they were.
    pub fn fill_chunks(&mut self, slice_size: usize, value: T)
        requires
            old(self).wf(),
            old(self).is_owner(),
            slice_size > 0,
        ensures
            final(self).wf(),
            final(self).is_owner(),
            final(self)@.len() == old(self)@.len(),
            forall|i: int|
                0 <= i < old(self)@.len() ==> #[trigger] final(self)@[i] == if i < chunked_prefix(
                    old(self)@.len() as int,
                    slice_size as int,
                ) {
                    value
                } else {
                    old(self)@[i]
                },
    {
        par_fill_chunks(&mut self.data, slice_size, value);
        self.contents = Ghost(self.data@);
    }

    /// Sets every element to `value`: whole chunks in parallel, then the
    /// remainder one element at a time.
    pub fn fill(&mut self, value: T)
        requires
            old(self).wf(),
            old(self).is_owner(),
        ensures
            final(self).wf(),
            final(self).is_owner(),
            final(self)@ == Seq::new(old(self)@.len(), |i: int| value),
    {
        self.fill_chunks(FILL_CHUNK, value);
        let n = self.length;
        let mut i: usize = n / FILL_CHUNK * FILL_CHUNK;
        while i < n
            invariant
                self.wf(),
                self.is_owner(),
                self.length == n,
                n == old(self)@.len(),
                n / FILL_CHUNK * FILL_CHUNK <= i <= n,
                forall|j: int| 0 <= j < i ==> #[trigger] self@[j] == value,
            decreases n - i,
        {
            let ghost before = self@;
            self.data.set(i, value);
            self.contents = Ghost(self.data@);
            assert(self@ == before.update(i as int, value));
            i += 1;
        }
        assert(self@ =~= Seq::new(old(self)@.len(), |i: int| value));
    }

    /// The element at `index`, which the caller has checked.
    pub(crate) fn read(&self, index: usize) -> (r: T)
        requires
            self.wf(),
            self.is_owner(),
            index < self@.len(),
        ensures
            r == self@[index as int],
    {
        self.data[index]
    }

    /// The `SIMD_WIDTH` elements from `index` on, which the caller has checked.
    pub(crate) fn read_lane(&self, index: usize) -> (r: [T; SIMD_WIDTH])
        requires
            self.wf(),
            self.is_owner(),
            index + SIMD_WIDTH <= self@.len(),
        ensures
            forall|k: int| 0 <= k < SIMD_WIDTH ==> #[trigger] r[k] == self@[index + k],
    {
        load_lane(&self.data, index)
    }

    /// Whether this storage still holds its block.
    pub fn frees_on_drop(&self) -> (r: bool)
        ensures
            r == self.is_owner(),
    {
        self.free_on_drop
    }

    /// The element at `index`.
    pub fn get_scalar(&self, index: usize) -> (r: Result<T, TensorError>)
        requires
            self.wf(),
            self.is_owner(),
        ensures
            index < self@.len() ==> r == Ok::<T, TensorError>(self@[index as int]),
            index >= self@.len() ==> r == Err::<T, TensorError>(
                TensorError::IndexOutOfBounds { index, len: self@.len() as usize },
            ),
    {
        if index < self.length {
            Ok(self.data[index])
        } else {
            Err(TensorError::IndexOutOfBounds { index, len: self.length })
        }
    }

    /// Writes `value` at `index`.
    pub fn write_scalar(&mut self, value: T, index: usize) -> (r: Result<(), TensorError>)
        requires
            old(self).wf(),
            old(self).is_owner(),
        ensures
            final(self).wf(),
            final(self).is_owner(),
            index < old(self)@.len() ==> r is Ok && final(self)@ == old(self)@.update(
                index as int,
                value,
            ),
            index >= old(self)@.len() ==> r == Err::<(), TensorError>(
                TensorError::IndexOutOfBounds { index, len: old(self)@.len() as usize },
            ) && final(self)@ == old(self)@,
    {
        if index < self.length {
            self.data.set(index, value);
            self.contents = Ghost(self.data@);
            Ok(())
        } else {
            Err(TensorError::IndexOutOfBounds { index, len: self.length })
        }
    }

    /// Offers this storage's block as the output of an evaluation that
    /// needs `len` elements. Where the storage still holds its block and the
    /// block has at least `len` elements, the block is handed out, and with
    /// it the duty to free it: the storage keeps its length and values but
    /// no longer frees anything. Otherwise nothing changes.
    pub fn get_buffer_and_set_no_free(&mut self, len: usize) -> (r: Option<Vec<T>>)
        requires
            old(self).wf(),
        ensures
            final(self).wf(),
            final(self)@ == old(self)@,
            (old(self).is_owner() && old(self)@.len() >= len) <==> r is Some,
            r matches Some(v) ==> v@ == old(self)@ && !final(self).is_owner()
                && final(self).released_from(old(self)),
            r is None ==> *final(self) == *old(self),
    {
        if self.free_on_drop && self.length >= len {
            let mut block: Vec<T> = Vec::new();
            std::mem::swap(&mut block, &mut self.data);
            self.free_on_drop = false;
            Some(block)
        } else {
            None
        }
    }

    /// Takes the block out as a `Vec`, leaving an empty storage.
    pub fn take_as_vec(&mut self) -> (r: Vec<T>)
        requires
            old(self).wf(),
            old(self).is_owner(),
        ensures
            final(self).wf(),
            final(self).is_owner(),
            final(self)@.len() == 0,
            r@ == old(self)@,
    {
        self.length = 0;
        self.contents = Ghost(Seq::empty());
        let mut block: Vec<T> = Vec::new();
        std::mem::swap(&mut block, &mut self.data);
        block
    }
}

} // verus!
