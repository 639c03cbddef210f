use vstd::prelude::*;

use crate::applicator::HostApplicator2;
use crate::binding::{Argument, ArgumentType, RefType};
use crate::error::TensorError;
use crate::kernel::{apply_scalar, apply_vector, op_int, BinaryOperation, SIMD_WIDTH};
use crate::scalar::{op_fits, TensrType};
use crate::storage::HostStorage;

verus! {

/// The mathematical content of an expression: its leaves' values and the
/// operators that join them, with ownership left out.
pub enum Tree<T> {
    Leaf(Seq<T>),
    Node(BinaryOperation, Box<Tree<T>>, Box<Tree<T>>),
}

impl<T: TensrType> Tree<T> {
    /// The length of an expression is that of its leftmost leaf.
    pub open spec fn len(self) -> nat
        decreases self,
    {
        match self {
            Tree::Leaf(s) => s.len(),
            Tree::Node(_, l, _) => l.len(),
        }
    }

    /// Every node joins two operands of one length.
    pub open spec fn consistent(self) -> bool
        decreases self,
    {
        match self {
            Tree::Leaf(_) => true,
            Tree::Node(_, l, r) => l.len() == r.len() && l.consistent() && r.consistent(),
        }
    }

    /// The exact value at index `i`.
    pub open spec fn value(self, i: int) -> int
        decreases self,
    {
        match self {
            Tree::Leaf(s) => s[i].to_int(),
            Tree::Node(op, l, r) => op_int(op, l.value(i), r.value(i)),
        }
    }

    /// Every operator on the way to index `i` is defined and gives a value
    /// that the scalar type can hold.
    pub open spec fn fits(self, i: int) -> bool
        decreases self,
    {
        match self {
            Tree::Leaf(_) => true,
            Tree::Node(op, l, r) => l.fits(i) && r.fits(i) && op_fits::<T>(op, l.value(i), r.value(i)),
        }
    }

    /// The first pair of unequal operand lengths, looking at a node before
    /// its left side and its left side before its right.
    pub open spec fn length_error(self) -> Option<(nat, nat)>
        decreases self,
    {
        match self {
            Tree::Leaf(_) => None,
            Tree::Node(_, l, r) => if l.len() != r.len() {
                Some((l.len(), r.len()))
            } else if l.length_error() is Some {
                l.length_error()
            } else {
                r.length_error()
            },
        }
    }

    /// The length of the first leaf, left before right, that has no
    /// element at index `i`.
    pub open spec fn short_leaf(self, i: int) -> Option<nat>
        decreases self,
    {
        match self {
            Tree::Leaf(s) => if i < s.len() {
                None
            } else {
                Some(s.len())
            },
            Tree::Node(_, l, r) => if l.short_leaf(i) is Some {
                l.short_leaf(i)
            } else {
                r.short_leaf(i)
            },
        }
    }

    /// In a tree whose operand lengths agree, every leaf has every index
    /// below the tree's length.
    pub proof fn lemma_consistent_no_short_leaf(self, i: int)
        requires
            self.consistent(),
            0 <= i < self.len(),
        ensures
            self.short_leaf(i) is None,
        decreases self,
    {
        match self {
            Tree::Node(_, l, r) => {
                l.lemma_consistent_no_short_leaf(i);
                r.lemma_consistent_no_short_leaf(i);
            },
            _ => {},
        }
    }

    /// Whether every element of the expression can be computed.
    pub open spec fn fits_all(self) -> bool {
        forall|i: int| 0 <= i < self.len() ==> #[trigger] self.fits(i)
    }

    /// `out` is what the expression evaluates to, element by element.
    pub open spec fn evaluates_to(self, out: Seq<T>) -> bool {
        &&& out.len() == self.len()
        &&& forall|i: int| 0 <= i < self.len() ==> (#[trigger] out[i]).to_int() == self.value(i)
    }
}

/// The tree of a node that joins `lhs` and `rhs` with `op`.
pub open spec fn node_tree<'a, T: TensrType>(
    op: BinaryOperation,
    lhs: &Operand<'a, T>,
    rhs: &Operand<'a, T>,
) -> Tree<T> {
    Tree::Node(op, Box::new(lhs.model()), Box::new(rhs.model()))
}

/// One side of an expression node: a leaf or a nested node, owned or
/// borrowed.
pub enum Operand<'a, T> {
    OwnedLeaf(HostStorage<T>),
    BorrowedLeaf(&'a HostStorage<T>),
    OwnedNode(Box<TensrFn2<'a, T>>),
    BorrowedNode(&'a TensrFn2<'a, T>),
}

/// A lazy expression node: `op` applied elementwise to two operands,
/// computed only when the node is evaluated.
pub struct TensrFn2<'a, T> {
    pub op: BinaryOperation,
    pub lhs: Operand<'a, T>,
    pub rhs: Operand<'a, T>,
}

impl<'a, T: TensrType> Operand<'a, T> {
    pub open spec fn model(&self) -> Tree<T>
        decreases self,
    {
        match self {
            Operand::OwnedLeaf(s) => Tree::Leaf(s@),
            Operand::BorrowedLeaf(s) => Tree::Leaf(s@),
            Operand::OwnedNode(n) => Tree::Node(n.op, Box::new(n.lhs.model()), Box::new(n.rhs.model())),
            Operand::BorrowedNode(n) => Tree::Node(n.op, Box::new(n.lhs.model()), Box::new(n.rhs.model())),
        }
    }

    /// How this operand is held and what it is.
    pub open spec fn argument_spec(&self) -> Argument {
        match self {
            Operand::OwnedLeaf(_) => Argument { ref_type: RefType::Own, arg_type: ArgumentType::ArrayBase },
            Operand::BorrowedLeaf(_) => Argument { ref_type: RefType::Ref, arg_type: ArgumentType::ArrayBase },
            Operand::OwnedNode(_) => Argument { ref_type: RefType::Own, arg_type: ArgumentType::TensrFn2 },
            Operand::BorrowedNode(_) => Argument { ref_type: RefType::Ref, arg_type: ArgumentType::TensrFn2 },
        }
    }

    pub fn argument(&self) -> (r: Argument)
        ensures
            r == self.argument_spec(),
    {
        match self {
            Operand::OwnedLeaf(_) => Argument { ref_type: RefType::Own, arg_type: ArgumentType::ArrayBase },
            Operand::BorrowedLeaf(_) => Argument { ref_type: RefType::Ref, arg_type: ArgumentType::ArrayBase },
            Operand::OwnedNode(_) => Argument { ref_type: RefType::Own, arg_type: ArgumentType::TensrFn2 },
            Operand::BorrowedNode(_) => Argument { ref_type: RefType::Ref, arg_type: ArgumentType::TensrFn2 },
        }
    }

    /// Every leaf's storage is well formed.
    pub open spec fn wf(&self) -> bool
        decreases self,
    {
        match self {
            Operand::OwnedLeaf(s) => s.wf(),
            Operand::BorrowedLeaf(s) => s.wf(),
            Operand::OwnedNode(n) => n.lhs.wf() && n.rhs.wf(),
            Operand::BorrowedNode(n) => n.lhs.wf() && n.rhs.wf(),
        }
    }

    /// Every leaf holds its block.
    pub open spec fn live(&self) -> bool
        decreases self,
    {
        match self {
            Operand::OwnedLeaf(s) => s.wf() && s.is_owner(),
            Operand::BorrowedLeaf(s) => s.wf() && s.is_owner(),
            Operand::OwnedNode(n) => n.lhs.live() && n.rhs.live(),
            Operand::BorrowedNode(n) => n.lhs.live() && n.rhs.live(),
        }
    }

    /// Every leaf holds its block, except owned leaves that donated it to an
    /// output buffer whose values were `src`: those are read from the output.
    pub open spec fn readable_via(&self, src: Seq<T>) -> bool
        decreases self,
    {
        match self {
            Operand::OwnedLeaf(s) => s.wf() && (s.is_owner() || s@ == src),
            Operand::BorrowedLeaf(s) => s.wf() && s.is_owner(),
            Operand::OwnedNode(n) => n.lhs.readable_via(src) && n.rhs.readable_via(src),
            Operand::BorrowedNode(n) => n.lhs.live() && n.rhs.live(),
        }
    }

    /// The values of the buffer that a donation query for `len` elements
    /// hands out: the leftmost owned leaf that holds a block of at least
    /// `len` elements, found without entering borrowed operands.
    pub open spec fn donor(&self, len: nat) -> Option<Seq<T>>
        decreases self,
    {
        match self {
            Operand::OwnedLeaf(s) => if s.is_owner() && s@.len() >= len {
                Some(s@)
            } else {
                None
            },
            Operand::BorrowedLeaf(_) => None,
            Operand::OwnedNode(n) => match n.lhs.donor(len) {
                Some(v) => Some(v),
                None => n.rhs.donor(len),
            },
            Operand::BorrowedNode(_) => None,
        }
    }

    /// `after` is `self` after a donation query for `len` elements: the
    /// leaf that `donor` names has released its block and every other part
    /// is as it was; where no leaf can donate, nothing changed.
    pub open spec fn donated_to(&self, after: &Operand<'a, T>, len: nat) -> bool
        decreases self,
    {
        match (self, after) {
            (Operand::OwnedLeaf(s), Operand::OwnedLeaf(t)) => if self.donor(len) is Some {
                t.released_from(s)
            } else {
                t == s
            },
            (Operand::OwnedNode(n), Operand::OwnedNode(m)) => {
                &&& m.op == n.op
                &&& if n.lhs.donor(len) is Some {
                    n.lhs.donated_to(&m.lhs, len) && m.rhs == n.rhs
                } else {
                    m.lhs == n.lhs && n.rhs.donated_to(&m.rhs, len)
                }
            },
            _ => *after == *self,
        }
    }

    /// Where no leaf can donate, a donation query changes nothing.
    pub proof fn lemma_no_donor_unchanged(&self, after: &Operand<'a, T>, len: nat)
        requires
            self.donor(len) is None,
            self.donated_to(after, len),
        ensures
            *after == *self,
        decreases self,
    {
        match (self, after) {
            (Operand::OwnedNode(n), Operand::OwnedNode(m)) => {
                n.rhs.lemma_no_donor_unchanged(&m.rhs, len);
                assert(**m == **n);
            },
            _ => {},
        }
    }

    pub proof fn lemma_live_readable(&self, src: Seq<T>)
        requires
            self.live(),
        ensures
            self.readable_via(src),
            self.wf(),
        decreases self,
    {
        match self {
            Operand::OwnedNode(n) => {
                n.lhs.lemma_live_readable(src);
                n.rhs.lemma_live_readable(src);
            },
            Operand::BorrowedNode(n) => {
                n.lhs.lemma_live_readable(src);
                n.rhs.lemma_live_readable(src);
            },
            _ => {},
        }
    }

    pub proof fn lemma_donor_len(&self, len: nat)
        requires
            self.model().consistent(),
            self.donor(len) is Some,
        ensures
            self.donor(len).unwrap().len() == self.model().len(),
        decreases self,
    {
        match self {
            Operand::OwnedNode(n) => {
                if n.lhs.donor(len) is Some {
                    n.lhs.lemma_donor_len(len);
                } else {
                    n.rhs.lemma_donor_len(len);
                }
            },
            _ => {},
        }
    }

    pub proof fn lemma_length_error(&self)
        ensures
            self.model().length_error() is None <==> self.model().consistent(),
        decreases self,
    {
        match self {
            Operand::OwnedNode(n) => {
                n.lhs.lemma_length_error();
                n.rhs.lemma_length_error();
            },
            Operand::BorrowedNode(n) => {
                n.lhs.lemma_length_error();
                n.rhs.lemma_length_error();
            },
            _ => {},
        }
    }

    /// The number of elements: that of the leftmost leaf.
    pub fn len(&self) -> (r: usize)
        requires
            self.wf(),
        ensures
            r == self.model().len(),
        decreases self,
    {
        match self {
            Operand::OwnedLeaf(s) => s.len(),
            Operand::BorrowedLeaf(s) => s.len(),
            Operand::OwnedNode(n) => n.lhs.len(),
            Operand::BorrowedNode(n) => n.lhs.len(),
        }
    }

    /// The buffer-reuse query: hands out the block of the leftmost owned
    /// leaf that holds at least `len` elements, searching left before right
    /// and never entering a borrowed operand. The expression's values are
    /// unchanged; the donating leaf is afterwards read through the output.
    pub fn get_buffer_and_set_no_free(&mut self, len: usize) -> (r: Option<Vec<T>>)
        requires
            old(self).live(),
        ensures
            final(self).model() == old(self).model(),
            r is Some <==> old(self).donor(len as nat) is Some,
            r matches Some(v) ==> v@ == old(self).donor(len as nat).unwrap()
                && final(self).readable_via(v@),
            r is None ==> final(self).live() && *final(self) == *old(self),
            old(self).donated_to(final(self), len as nat),
        decreases *old(self),
    {
        match self {
            Operand::OwnedLeaf(s) => s.get_buffer_and_set_no_free(len),
            Operand::OwnedNode(n) => n.get_buffer_and_set_no_free(len),
            _ => None,
        }
    }

    /// `Ok` with the length where every node joins operands of one length;
    /// otherwise the first mismatch, in the order of `Tree::length_error`.
    pub fn check_lengths(&self) -> (r: Result<usize, TensorError>)
        requires
            self.wf(),
        ensures
            match self.model().length_error() {
                None => r == Ok::<usize, TensorError>(self.model().len() as usize),
                Some((a, b)) => r == Err::<usize, TensorError>(
                    TensorError::LengthMismatch { left: a as usize, right: b as usize },
                ),
            },
        decreases self,
    {
        match self {
            Operand::OwnedLeaf(s) => Ok(s.len()),
            Operand::BorrowedLeaf(s) => Ok(s.len()),
            Operand::OwnedNode(n) => n.check_lengths(),
            Operand::BorrowedNode(n) => n.check_lengths(),
        }
    }

    /// The value at `i`, or `None` where some operator on the way is
    /// undefined or its result not representable.
    pub fn try_eval_at(&self, i: usize) -> (r: Option<T>)
        requires
            self.live(),
            self.model().consistent(),
            i < self.model().len(),
        ensures
            r is Some <==> self.model().fits(i as int),
            r matches Some(v) ==> v.to_int() == self.model().value(i as int),
        decreases self,
    {
        match self {
            Operand::OwnedLeaf(s) => Some(s.read(i)),
            Operand::BorrowedLeaf(s) => Some(s.read(i)),
            Operand::OwnedNode(n) => n.try_eval_at(i),
            Operand::BorrowedNode(n) => n.try_eval_at(i),
        }
    }

    /// The value at `i`, computed through the whole subtree. An owned leaf
    /// that donated its block is read as `alias`, the output's element at
    /// `i` before it is overwritten.
    pub(crate) fn eval_at(&self, i: usize, alias: T, Ghost(src): Ghost<Seq<T>>) -> (r: T)
        requires
            self.readable_via(src),
            self.model().short_leaf(i as int) is None,
            i < src.len(),
            alias == src[i as int],
            self.model().fits(i as int),
        ensures
            r.to_int() == self.model().value(i as int),
        decreases self,
    {
        match self {
            Operand::OwnedLeaf(s) => if s.frees_on_drop() {
                s.read(i)
            } else {
                alias
            },
            Operand::BorrowedLeaf(s) => s.read(i),
            Operand::OwnedNode(n) => n.eval_at(i, alias, Ghost(src)),
            Operand::BorrowedNode(n) => {
                proof {
                    n.lhs.lemma_live_readable(src);
                    n.rhs.lemma_live_readable(src);
                }
                n.eval_at(i, alias, Ghost(src))
            },
        }
    }

    /// The values at `i .. i + SIMD_WIDTH`, computed lane-wide through the
    /// whole subtree, with donated leaves read from `alias` as in `eval_at`.
    pub(crate) fn eval_lane(
        &self,
        i: usize,
        alias: &[T; SIMD_WIDTH],
        Ghost(src): Ghost<Seq<T>>,
    ) -> (r: [T; SIMD_WIDTH])
        requires
            self.readable_via(src),
            self.model().consistent(),
            i + SIMD_WIDTH <= self.model().len(),
            i + SIMD_WIDTH <= src.len(),
            forall|k: int| 0 <= k < SIMD_WIDTH ==> #[trigger] alias[k] == src[i + k],
            forall|k: int| 0 <= k < SIMD_WIDTH ==> #[trigger] self.model().fits(i + k),
        ensures
            forall|k: int|
                0 <= k < SIMD_WIDTH ==> (#[trigger] r[k]).to_int() == self.model().value(i + k),
        decreases self,
    {
        match self {
            Operand::OwnedLeaf(s) => if s.frees_on_drop() {
                s.read_lane(i)
            } else {
                *alias
            },
            Operand::BorrowedLeaf(s) => s.read_lane(i),
            Operand::OwnedNode(n) => n.eval_lane(i, alias, Ghost(src)),
            Operand::BorrowedNode(n) => {
                proof {
                    n.lhs.lemma_live_readable(src);
                    n.rhs.lemma_live_readable(src);
                }
                n.eval_lane(i, alias, Ghost(src))
            },
        }
    }

    /// The length of the first leaf, left before right, too short to have
    /// an element at `i`.
    pub fn first_short_leaf(&self, i: usize) -> (r: Option<usize>)
        requires
            self.wf(),
        ensures
            match self.model().short_leaf(i as int) {
                None => r is None,
                Some(n) => r == Some(n as usize),
            },
        decreases self,
    {
        match self {
            Operand::OwnedLeaf(s) => if i < s.len() {
                None
            } else {
                Some(s.len())
            },
            Operand::BorrowedLeaf(s) => if i < s.len() {
                None
            } else {
                Some(s.len())
            },
            Operand::OwnedNode(n) => n.first_short_leaf(i),
            Operand::BorrowedNode(n) => n.first_short_leaf(i),
        }
    }
}

impl<'a, T: TensrType> TensrFn2<'a, T> {
    pub open spec fn model(&self) -> Tree<T> {
        Tree::Node(self.op, Box::new(self.lhs.model()), Box::new(self.rhs.model()))
    }

    pub open spec fn wf(&self) -> bool {
        self.lhs.wf() && self.rhs.wf()
    }

    pub open spec fn live(&self) -> bool {
        self.lhs.live() && self.rhs.live()
    }

    pub open spec fn readable_via(&self, src: Seq<T>) -> bool {
        self.lhs.readable_via(src) && self.rhs.readable_via(src)
    }

    /// A lazy node joining `lhs` and `rhs` with `op`; nothing is computed.
    pub fn new(op: BinaryOperation, lhs: Operand<'a, T>, rhs: Operand<'a, T>) -> (r: Self)
        ensures
            r.op == op,
            r.lhs == lhs,
            r.rhs == rhs,
    {
        TensrFn2 { op, lhs, rhs }
    }

    /// The node as an owned operand of another node: its leaves may donate.
    pub fn into_operand(self) -> (r: Operand<'a, T>)
        ensures
            r == Operand::OwnedNode(Box::new(self)),
            r.model() == self.model(),
    {
        Operand::OwnedNode(Box::new(self))
    }

    /// The node as a borrowed operand of another node: nothing in it is
    /// ever donated.
    pub fn as_operand(&'a self) -> (r: Operand<'a, T>)
        ensures
            r == Operand::BorrowedNode(self),
            r.model() == self.model(),
    {
        Operand::BorrowedNode(self)
    }

    /// The number of elements: that of the left operand. The right operand
    /// is not consulted; lengths are checked when the node is evaluated.
    pub fn len(&self) -> (r: usize)
        requires
            self.wf(),
        ensures
            r == self.model().len(),
    {
        self.lhs.len()
    }

    pub fn is_empty(&self) -> (r: bool)
        requires
            self.wf(),
        ensures
            r == (self.model().len() == 0),
    {
        self.lhs.len() == 0
    }

    /// See `Operand::eval_at`.
    pub(crate) fn eval_at(&self, i: usize, alias: T, Ghost(src): Ghost<Seq<T>>) -> (r: T)
        requires
            self.readable_via(src),
            self.model().short_leaf(i as int) is None,
            i < src.len(),
            alias == src[i as int],
            self.model().fits(i as int),
        ensures
            r.to_int() == self.model().value(i as int),
        decreases self,
    {
        let l = self.lhs.eval_at(i, alias, Ghost(src));
        let r = self.rhs.eval_at(i, alias, Ghost(src));
        apply_scalar(self.op, l, r)
    }

    /// See `Operand::eval_lane`.
    pub(crate) fn eval_lane(
        &self,
        i: usize,
        alias: &[T; SIMD_WIDTH],
        Ghost(src): Ghost<Seq<T>>,
    ) -> (r: [T; SIMD_WIDTH])
        requires
            self.readable_via(src),
            self.model().consistent(),
            i + SIMD_WIDTH <= self.model().len(),
            i + SIMD_WIDTH <= src.len(),
            forall|k: int| 0 <= k < SIMD_WIDTH ==> #[trigger] alias[k] == src[i + k],
            forall|k: int| 0 <= k < SIMD_WIDTH ==> #[trigger] self.model().fits(i + k),
        ensures
            forall|k: int|
                0 <= k < SIMD_WIDTH ==> (#[trigger] r[k]).to_int() == self.model().value(i + k),
        decreases self,
    {
        let ghost m = self.model();
        assert forall|k: int| 0 <= k < SIMD_WIDTH implies #[trigger] self.lhs.model().fits(i + k) by {
            assert(m.fits(i + k));
        }
        assert forall|k: int| 0 <= k < SIMD_WIDTH implies #[trigger] self.rhs.model().fits(i + k) by {
            assert(m.fits(i + k));
        }
        let l = self.lhs.eval_lane(i, alias, Ghost(src));
        let r = self.rhs.eval_lane(i, alias, Ghost(src));
        assert forall|k: int| 0 <= k < SIMD_WIDTH implies op_fits::<T>(
            self.op,
            #[trigger] l[k].to_int(),
            r[k].to_int(),
        ) by {
            assert(m.fits(i + k));
        }
        let out = apply_vector(self.op, &l, &r);
        assert forall|k: int| 0 <= k < SIMD_WIDTH implies (#[trigger] out[k]).to_int() == m.value(
            i + k,
        ) by {
            assert(l[k].to_int() == self.lhs.model().value(i + k));
        }
        out
    }

    /// See `Operand::first_short_leaf`.
    pub fn first_short_leaf(&self, i: usize) -> (r: Option<usize>)
        requires
            self.wf(),
        ensures
            match self.model().short_leaf(i as int) {
                None => r is None,
                Some(n) => r == Some(n as usize),
            },
        decreases self,
    {
        match self.lhs.first_short_leaf(i) {
            Some(n) => Some(n),
            None => self.rhs.first_short_leaf(i),
        }
    }

    /// See `Operand::try_eval_at`.
    pub fn try_eval_at(&self, i: usize) -> (r: Option<T>)
        requires
            self.live(),
            self.model().consistent(),
            i < self.model().len(),
        ensures
            r is Some <==> self.model().fits(i as int),
            r matches Some(v) ==> v.to_int() == self.model().value(i as int),
        decreases self,
    {
        let l = match self.lhs.try_eval_at(i) {
            Some(v) => v,
            None => {
                return None;
            },
        };
        let r = match self.rhs.try_eval_at(i) {
            Some(v) => v,
            None => {
                return None;
            },
        };
        T::checked_op(self.op, l, r)
    }

    /// Whether every element can be computed: no division by zero and no
    /// result outside the scalar type, at any node.
    pub fn is_representable(&self) -> (r: bool)
        requires
            self.live(),
            self.model().consistent(),
        ensures
            r == self.model().fits_all(),
    {
        proof {
            self.lhs.lemma_live_readable(Seq::empty());
            self.rhs.lemma_live_readable(Seq::empty());
        }
        let n = self.len();
        let mut i: usize = 0;
        while i < n
            invariant
                i <= n,
                n == self.model().len(),
                self.live(),
                self.model().consistent(),
                forall|j: int| 0 <= j < i ==> #[trigger] self.model().fits(j),
            decreases n - i,
        {
            if self.try_eval_at(i).is_none() {
                return false;
            }
            i += 1;
        }
        true
    }

    /// The element at `index`, computed through the whole tree each time it
    /// is read: nothing is cached. Lengths are not compared; each leaf's
    /// read is bounds-checked, and the first leaf too short for `index`,
    /// left before right, gives the error.
    pub fn get_scalar(&self, index: usize) -> (r: Result<T, TensorError>)
        requires
            self.live(),
            self.model().short_leaf(index as int) is None ==> self.model().fits(index as int),
        ensures
            match self.model().short_leaf(index as int) {
                Some(n) => r == Err::<T, TensorError>(
                    TensorError::IndexOutOfBounds { index, len: n as usize },
                ),
                None => r matches Ok(v) && v.to_int() == self.model().value(index as int),
            },
    {
        proof {
            self.lhs.lemma_live_readable(Seq::empty());
            self.rhs.lemma_live_readable(Seq::empty());
        }
        match self.first_short_leaf(index) {
            Some(n) => {
                return Err(TensorError::IndexOutOfBounds { index, len: n });
            },
            None => {},
        }
        let zero = T::zero();
        let ghost src = Seq::new(index as nat + 1, |j: int| zero);
        proof {
            self.lhs.lemma_live_readable(src);
            self.rhs.lemma_live_readable(src);
        }
        Ok(self.eval_at(index, zero, Ghost(src)))
    }

    /// A lazy expression holds no elements of its own: every write fails.
    pub fn write_scalar(&mut self, value: T, index: usize) -> (r: Result<(), TensorError>)
        ensures
            r == Err::<(), TensorError>(TensorError::InvalidWrite),
            *final(self) == *old(self),
    {
        Err(TensorError::InvalidWrite)
    }

    /// Materializes the expression into `out`; see
    /// `HostApplicator2::apply_contiguous`.
    pub fn apply(&self, out: &mut HostStorage<T>) -> (r: Result<(), TensorError>)
        requires
            self.live(),
            old(out).wf(),
            old(out).is_owner(),
            self.model().consistent() && self.model().len() == old(out)@.len()
                ==> self.model().fits_all(),
        ensures
            final(out).wf(),
            final(out).is_owner(),
            match self.model().length_error() {
                Some((a, b)) => r == Err::<(), TensorError>(
                    TensorError::LengthMismatch { left: a as usize, right: b as usize },
                ) && final(out)@ == old(out)@,
                None => if self.model().len() != old(out)@.len() {
                    r == Err::<(), TensorError>(
                        TensorError::LengthMismatch {
                            left: self.model().len() as usize,
                            right: old(out)@.len() as usize,
                        },
                    ) && final(out)@ == old(out)@
                } else {
                    r is Ok && self.model().evaluates_to(final(out)@)
                },
            },
    {
        HostApplicator2::apply_contiguous(self.op, &self.lhs, &self.rhs, out)
    }

    /// Materializes the expression into a buffer of its own. The buffer is
    /// the block of the leftmost owned leaf that can donate one, found by
    /// `get_buffer_and_set_no_free`; only where no leaf can is a new one
    /// allocated. The result frees its block when dropped; the donating
    /// leaf, consumed with the expression, frees nothing.
    pub fn materialize(self) -> (r: Result<HostStorage<T>, TensorError>)
        requires
            self.live(),
            self.model().consistent() ==> self.model().fits_all(),
        ensures
            match self.model().length_error() {
                Some((a, b)) => r == Err::<HostStorage<T>, TensorError>(
                    TensorError::LengthMismatch { left: a as usize, right: b as usize },
                ),
                None => r matches Ok(s) && s.wf() && s.is_owner() && self.model().evaluates_to(
                    s@,
                ),
            },
    {
        let ghost tree = self.model();
        proof {
            self.lhs.lemma_live_readable(Seq::empty());
            self.rhs.lemma_live_readable(Seq::empty());
            self.lhs.lemma_length_error();
            self.rhs.lemma_length_error();
        }
        match self.check_lengths() {
            Err(e) => {
                return Err(e);
            },
            Ok(_) => {},
        }
        let n = self.len();
        let mut node = self;
        let ghost pre = node;
        let mut block = match node.get_buffer_and_set_no_free(n) {
            Some(v) => {
                proof {
                    if pre.lhs.donor(n as nat) is Some {
                        pre.lhs.lemma_donor_len(n as nat);
                    } else {
                        pre.rhs.lemma_donor_len(n as nat);
                    }
                }
                v
            },
            None => {
                let v = vec![T::zero(); n];
                proof {
                    node.lhs.lemma_live_readable(v@);
                    node.rhs.lemma_live_readable(v@);
                }
                v
            },
        };
        let ghost src = block@;
        HostApplicator2::run(node.op, &node.lhs, &node.rhs, &mut block, Ghost(src));
        Ok(HostStorage::from_vec(block))
    }

    /// See `Operand::donor`: the left operand is asked first.
    pub open spec fn donor(&self, len: nat) -> Option<Seq<T>> {
        match self.lhs.donor(len) {
            Some(v) => Some(v),
            None => self.rhs.donor(len),
        }
    }

    /// See `Operand::donated_to`.
    pub open spec fn donated_to(&self, after: &TensrFn2<'a, T>, len: nat) -> bool {
        &&& after.op == self.op
        &&& if self.lhs.donor(len) is Some {
            self.lhs.donated_to(&after.lhs, len) && after.rhs == self.rhs
        } else {
            after.lhs == self.lhs && self.rhs.donated_to(&after.rhs, len)
        }
    }

    /// The buffer-reuse query of a node: its left operand first, then its
    /// right. See `Operand::get_buffer_and_set_no_free`.
    pub fn get_buffer_and_set_no_free(&mut self, len: usize) -> (r: Option<Vec<T>>)
        requires
            old(self).live(),
        ensures
            final(self).model() == old(self).model(),
            final(self).op == old(self).op,
            r is Some <==> old(self).donor(len as nat) is Some,
            r matches Some(v) ==> v@ == old(self).donor(len as nat).unwrap()
                && final(self).readable_via(v@),
            r is None ==> final(self).live() && *final(self) == *old(self),
            old(self).donated_to(final(self), len as nat),
        decreases *old(self),
    {
        let r = self.lhs.get_buffer_and_set_no_free(len);
        match r {
            Some(v) => {
                proof {
                    self.rhs.lemma_live_readable(v@);
                }
                Some(v)
            },
            None => {
                proof {
                    old(self).lhs.lemma_no_donor_unchanged(&self.lhs, len as nat);
                }
                let r2 = self.rhs.get_buffer_and_set_no_free(len);
                proof {
                    if r2 is Some {
                        self.lhs.lemma_live_readable(r2.unwrap()@);
                    } else {
                        old(self).rhs.lemma_no_donor_unchanged(&self.rhs, len as nat);
                    }
                }
                r2
            },
        }
    }

    /// `Ok` with the length where every node joins operands of one length;
    /// otherwise the first mismatch, in the order of `Tree::length_error`.
    pub fn check_lengths(&self) -> (r: Result<usize, TensorError>)
        requires
            self.wf(),
        ensures
            match self.model().length_error() {
                None => r == Ok::<usize, TensorError>(self.model().len() as usize),
                Some((a, b)) => r == Err::<usize, TensorError>(
                    TensorError::LengthMismatch { left: a as usize, right: b as usize },
                ),
            },
        decreases self,
    {
        let l = self.lhs.len();
        let r = self.rhs.len();
        if l != r {
            return Err(TensorError::LengthMismatch { left: l, right: r });
        }
        match self.lhs.check_lengths() {
            Err(e) => Err(e),
            Ok(_) => match self.rhs.check_lengths() {
                Err(e) => Err(e),
                Ok(_) => Ok(l),
            },
        }
    }
}

/// `lhs + rhs` builds a lazy node; nothing is computed.
impl<'a, T: TensrType> std::ops::Add for Operand<'a, T> {
    type Output = TensrFn2<'a, T>;

    fn add(self, rhs: Operand<'a, T>) -> (r: TensrFn2<'a, T>) {
        TensrFn2::new(BinaryOperation::Add, self, rhs)
    }
}

impl<'a, T: TensrType> vstd::std_specs::ops::AddSpecImpl for Operand<'a, T> {
    open spec fn obeys_add_spec() -> bool {
        true
    }

    open spec fn add_req(self, rhs: Operand<'a, T>) -> bool {
        true
    }

    open spec fn add_spec(self, rhs: Operand<'a, T>) -> TensrFn2<'a, T> {
        TensrFn2 { op: BinaryOperation::Add, lhs: self, rhs }
    }
}

impl<'a, T: TensrType> std::ops::Sub for Operand<'a, T> {
    type Output = TensrFn2<'a, T>;

    fn sub(self, rhs: Operand<'a, T>) -> (r: TensrFn2<'a, T>) {
        TensrFn2::new(BinaryOperation::Sub, self, rhs)
    }
}

impl<'a, T: TensrType> vstd::std_specs::ops::SubSpecImpl for Operand<'a, T> {
    open spec fn obeys_sub_spec() -> bool {
        true
    }

    open spec fn sub_req(self, rhs: Operand<'a, T>) -> bool {
        true
    }

    open spec fn sub_spec(self, rhs: Operand<'a, T>) -> TensrFn2<'a, T> {
        TensrFn2 { op: BinaryOperation::Sub, lhs: self, rhs }
    }
}


impl<'a, T: TensrType> std::ops::Mul for Operand<'a, T> {
    type Output = TensrFn2<'a, T>;

    fn mul(self, rhs: Operand<'a, T>) -> (r: TensrFn2<'a, T>) {
        TensrFn2::new(BinaryOperation::Mul, self, rhs)
    }
}

impl<'a, T: TensrType> vstd::std_specs::ops::MulSpecImpl for Operand<'a, T> {
    open spec fn obeys_mul_spec() -> bool {
        true
    }

    open spec fn mul_req(self, rhs: Operand<'a, T>) -> bool {
        true
    }

    open spec fn mul_spec(self, rhs: Operand<'a, T>) -> TensrFn2<'a, T> {
        TensrFn2 { op: BinaryOperation::Mul, lhs: self, rhs }
    }
}


impl<'a, T: TensrType> std::ops::Div for Operand<'a, T> {
    type Output = TensrFn2<'a, T>;

    fn div(self, rhs: Operand<'a, T>) -> (r: TensrFn2<'a, T>) {
        TensrFn2::new(BinaryOperation::Div, self, rhs)
    }
}

impl<'a, T: TensrType> vstd::std_specs::ops::DivSpecImpl for Operand<'a, T> {
    open spec fn obeys_div_spec() -> bool {
        true
    }

    open spec fn div_req(self, rhs: Operand<'a, T>) -> bool {
        true
    }

    open spec fn div_spec(self, rhs: Operand<'a, T>) -> TensrFn2<'a, T> {
        TensrFn2 { op: BinaryOperation::Div, lhs: self, rhs }
    }
}

} // verus!
