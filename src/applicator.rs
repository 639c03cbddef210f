use vstd::prelude::*;

use crate::error::TensorError;
use crate::expr::{node_tree, Operand, Tree};
use crate::kernel::{apply_scalar, apply_vector, load_lane, store_lane, BinaryOperation, SIMD_WIDTH};
use crate::scalar::{op_fits, TensrType};
use crate::storage::HostStorage;

verus! {

/// The evaluation engine of the host backend.
pub struct HostApplicator2;

impl HostApplicator2 {
    /// Materializes `op` on `lhs` and `rhs` into `out`. The operands'
    /// lengths are checked first, node by node, then the output's length;
    /// on a mismatch `out` is left as it was. On success every element of
    /// `out` holds the scalar kernel's result on the operands' elements at
    /// that index.
    pub fn apply_contiguous<'a, T: TensrType>(
        op: BinaryOperation,
        lhs: &Operand<'a, T>,
        rhs: &Operand<'a, T>,
        out: &mut HostStorage<T>,
    ) -> (r: Result<(), TensorError>)
        requires
            lhs.live(),
            rhs.live(),
            old(out).wf(),
            old(out).is_owner(),
            node_tree(op, lhs, rhs).consistent() && node_tree(op, lhs, rhs).len() == old(out)@.len()
                ==> node_tree(op, lhs, rhs).fits_all(),
        ensures
            final(out).wf(),
            final(out).is_owner(),
            match node_tree(op, lhs, rhs).length_error() {
                Some((a, b)) => r == Err::<(), TensorError>(
                    TensorError::LengthMismatch { left: a as usize, right: b as usize },
                ) && final(out)@ == old(out)@,
                None => if node_tree(op, lhs, rhs).len() != old(out)@.len() {
                    r == Err::<(), TensorError>(
                        TensorError::LengthMismatch {
                            left: node_tree(op, lhs, rhs).len() as usize,
                            right: old(out)@.len() as usize,
                        },
                    ) && final(out)@ == old(out)@
                } else {
                    r is Ok && node_tree(op, lhs, rhs).evaluates_to(final(out)@)
                },
            },
    {
        proof {
            lhs.lemma_live_readable(Seq::empty());
            rhs.lemma_live_readable(Seq::empty());
            lhs.lemma_length_error();
            rhs.lemma_length_error();
        }
        let n = lhs.len();
        let m = rhs.len();
        if n != m {
            return Err(TensorError::LengthMismatch { left: n, right: m });
        }
        match lhs.check_lengths() {
            Err(e) => {
                return Err(e);
            },
            Ok(_) => {},
        }
        match rhs.check_lengths() {
            Err(e) => {
                return Err(e);
            },
            Ok(_) => {},
        }
        let out_len = out.len();
        if n != out_len {
            return Err(TensorError::LengthMismatch { left: n, right: out_len });
        }
        let mut block = out.take_as_vec();
        proof {
            lhs.lemma_live_readable(block@);
            rhs.lemma_live_readable(block@);
        }
        let ghost src = block@;
        Self::run(op, lhs, rhs, &mut block, Ghost(src));
        *out = HostStorage::from_vec(block);
        Ok(())
    }

    /// Computes `op` on `lhs` and `rhs` into `out`, whose values were `src`:
    /// whole lanes with the vector kernel where the scalar type has one, the
    /// rest element by element with the scalar kernel. Donated leaves are
    /// read from `out` at the index being written.
    pub(crate) fn run<'a, T: TensrType>(
        op: BinaryOperation,
        lhs: &Operand<'a, T>,
        rhs: &Operand<'a, T>,
        out: &mut Vec<T>,
        Ghost(src): Ghost<Seq<T>>,
    )
        requires
            old(out)@ == src,
            lhs.readable_via(src),
            rhs.readable_via(src),
            node_tree(op, lhs, rhs).consistent(),
            node_tree(op, lhs, rhs).len() == src.len(),
            node_tree(op, lhs, rhs).fits_all(),
        ensures
            node_tree(op, lhs, rhs).evaluates_to(final(out)@),
    {
        let ghost tree = node_tree(op, lhs, rhs);
        let n = out.len();
        let mut i: usize = 0;
        if T::has_vector_path() {
            while SIMD_WIDTH <= n - i
                invariant
                    i <= n,
                    n == src.len(),
                    out@.len() == n,
                    lhs.readable_via(src),
                    rhs.readable_via(src),
                    tree == node_tree(op, lhs, rhs),
                    tree.consistent(),
                    tree.len() == n,
                    tree.fits_all(),
                    forall|j: int| 0 <= j < i ==> (#[trigger] out@[j]).to_int() == tree.value(j),
                    forall|j: int| i <= j < n ==> #[trigger] out@[j] == src[j],
                decreases n - i,
            {
                let alias = load_lane(out, i);
                assert forall|k: int| 0 <= k < SIMD_WIDTH implies #[trigger] alias[k] == src[i + k] by {
                    assert(out@[i + k] == src[i + k]);
                }
                assert forall|k: int| 0 <= k < SIMD_WIDTH implies #[trigger] lhs.model().fits(i + k)
                    && rhs.model().fits(i + k) && op_fits::<T>(
                    op,
                    lhs.model().value(i + k),
                    rhs.model().value(i + k),
                ) by {
                    assert(tree.fits(i + k));
                }
                assert forall|k: int| 0 <= k < SIMD_WIDTH implies #[trigger] rhs.model().fits(i + k) by {
                    assert(lhs.model().fits(i + k));
                }
                let l = lhs.eval_lane(i, &alias, Ghost(src));
                let r = rhs.eval_lane(i, &alias, Ghost(src));
                assert forall|k: int| 0 <= k < SIMD_WIDTH implies op_fits::<T>(op, #[trigger] l[k].to_int(), r[k].to_int()) by {
                    assert(lhs.model().fits(i + k));
                }
                let lane = apply_vector(op, &l, &r);
                let ghost before = out@;
                store_lane(out, i, &lane);
                assert forall|j: int| 0 <= j < i + SIMD_WIDTH implies (#[trigger] out@[j]).to_int() == tree.value(j) by {
                    if j >= i {
                        assert(lane[j - i].to_int() == tree.value(j));
                    } else {
                        assert(out@[j] == before[j]);
                    }
                }
                i = i + SIMD_WIDTH;
            }
        }
        while i < n
            invariant
                i <= n,
                n == src.len(),
                out@.len() == n,
                lhs.readable_via(src),
                rhs.readable_via(src),
                tree == node_tree(op, lhs, rhs),
                tree.consistent(),
                tree.len() == n,
                tree.fits_all(),
                forall|j: int| 0 <= j < i ==> (#[trigger] out@[j]).to_int() == tree.value(j),
                forall|j: int| i <= j < n ==> #[trigger] out@[j] == src[j],
            decreases n - i,
        {
            let alias = out[i];
            assert(tree.fits(i as int));
            proof {
                tree.lemma_consistent_no_short_leaf(i as int);
            }
            let l = lhs.eval_at(i, alias, Ghost(src));
            let r = rhs.eval_at(i, alias, Ghost(src));
            let v = apply_scalar(op, l, r);
            out.set(i, v);
            i = i + 1;
        }
    }
}

} // verus!
