use vstd::prelude::*;

use crate::scalar::{op_fits, TensrType};

verus! {

/// The elementwise binary operators.
#[derive(Debug, PartialEq, Eq, Structural, Clone, Copy)]
pub enum BinaryOperation {
    Add,
    Sub,
    Mul,
    Div,
}

/// Integer division rounding toward zero, as Rust's `/` on integers does.
pub open spec fn trunc_div(x: int, d: int) -> int {
    if x == 0 {
        0
    } else if x > 0 && d > 0 {
        x / d
    } else if x < 0 && d < 0 {
        (x * -1) / (d * -1)
    } else if x < 0 {
        ((x * -1) / d) * -1
    } else {
        (x / (d * -1)) * -1
    }
}

/// The exact mathematical result of `op` on two operands.
pub open spec fn op_int(op: BinaryOperation, l: int, r: int) -> int {
    match op {
        BinaryOperation::Add => l + r,
        BinaryOperation::Sub => l - r,
        BinaryOperation::Mul => l * r,
        BinaryOperation::Div => trunc_div(l, r),
    }
}

/// Whether `op` is defined on the two operands at all (no division by zero).
pub open spec fn op_defined(op: BinaryOperation, r: int) -> bool {
    op != BinaryOperation::Div || r != 0
}

/// The number of lanes that the vector kernels process at once.
pub const SIMD_WIDTH: usize = 8;

/// The scalar kernel: `op` on one pair of elements.
pub fn apply_scalar<T: TensrType>(op: BinaryOperation, lhs: T, rhs: T) -> (r: T)
    requires
        op_fits::<T>(op, lhs.to_int(), rhs.to_int()),
    ensures
        r.to_int() == op_int(op, lhs.to_int(), rhs.to_int()),
{
    T::checked_op(op, lhs, rhs).unwrap()
}

/// Whether `op` fits on every lane of `l` and `r`.
pub open spec fn lanes_fit<T: TensrType>(
    op: BinaryOperation,
    l: [T; SIMD_WIDTH],
    r: [T; SIMD_WIDTH],
) -> bool {
    forall|k: int| 0 <= k < SIMD_WIDTH ==> op_fits::<T>(op, #[trigger] l[k].to_int(), r[k].to_int())
}

/// The vector kernel: `op` on `SIMD_WIDTH` pairs of elements at once. Each
/// lane holds what the scalar kernel gives on that lane's pair.
pub fn apply_vector<T: TensrType>(
    op: BinaryOperation,
    lhs: &[T; SIMD_WIDTH],
    rhs: &[T; SIMD_WIDTH],
) -> (r: [T; SIMD_WIDTH])
    requires
        lanes_fit(op, *lhs, *rhs),
    ensures
        forall|k: int|
            0 <= k < SIMD_WIDTH ==> (#[trigger] r[k]).to_int() == op_int(
                op,
                lhs[k].to_int(),
                rhs[k].to_int(),
            ),
{
    let mut out: [T; SIMD_WIDTH] = *lhs;
    let mut k: usize = 0;
    while k < SIMD_WIDTH
        invariant
            k <= SIMD_WIDTH,
            lanes_fit(op, *lhs, *rhs),
            forall|j: int|
                0 <= j < k ==> (#[trigger] out[j]).to_int() == op_int(
                    op,
                    lhs[j].to_int(),
                    rhs[j].to_int(),
                ),
        decreases SIMD_WIDTH - k,
    {
        out[k] = apply_scalar(op, lhs[k], rhs[k]);
        k += 1;
    }
    out
}

/// The `SIMD_WIDTH` elements of `v` from `i` on, as one lane.
pub fn load_lane<T: Copy>(v: &Vec<T>, i: usize) -> (r: [T; SIMD_WIDTH])
    requires
        i + SIMD_WIDTH <= v@.len(),
    ensures
        forall|k: int| 0 <= k < SIMD_WIDTH ==> #[trigger] r[k] == v@[i + k],
{
    let n = v.len();
    let mut lane: [T; SIMD_WIDTH] = [v[i]; SIMD_WIDTH];
    let mut k: usize = 0;
    while k < SIMD_WIDTH
        invariant
            k <= SIMD_WIDTH,
            n == v@.len(),
            i + SIMD_WIDTH <= n,
            forall|j: int| 0 <= j < k ==> #[trigger] lane[j] == v@[i + j],
        decreases SIMD_WIDTH - k,
    {
        lane[k] = v[i + k];
        k += 1;
    }
    lane
}

/// Writes `lane` over the `SIMD_WIDTH` elements of `v` from `i` on.
pub fn store_lane<T: Copy>(v: &mut Vec<T>, i: usize, lane: &[T; SIMD_WIDTH])
    requires
        i + SIMD_WIDTH <= old(v)@.len(),
    ensures
        final(v)@.len() == old(v)@.len(),
        forall|j: int|
            0 <= j < old(v)@.len() ==> #[trigger] final(v)@[j] == if i <= j < i + SIMD_WIDTH {
                lane[j - i]
            } else {
                old(v)@[j]
            },
{
    let n = v.len();
    let mut k: usize = 0;
    while k < SIMD_WIDTH
        invariant
            k <= SIMD_WIDTH,
            n == old(v)@.len(),
            i + SIMD_WIDTH <= n,
            v@.len() == old(v)@.len(),
            forall|j: int|
                0 <= j < old(v)@.len() ==> #[trigger] v@[j] == if i <= j < i + k {
                    lane[j - i]
                } else {
                    old(v)@[j]
                },
        decreases SIMD_WIDTH - k,
    {
        v.set(i + k, lane[k]);
        k += 1;
    }
}

} // verus!
