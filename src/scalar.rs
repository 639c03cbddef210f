use vstd::prelude::*;

use crate::kernel::{op_defined, op_int, BinaryOperation};

verus! {

/// A scalar type that arrays can hold: a fixed-width integer whose
/// arithmetic is exact wherever the result is representable.
pub trait TensrType: Copy + Send + Sync + Sized {
    /// The mathematical value of the scalar.
    spec fn to_int(self) -> int;

    /// Whether `v` is representable in this type.
    spec fn in_range(v: int) -> bool;

    proof fn lemma_to_int_injective(x: Self, y: Self)
        ensures
            x.to_int() == y.to_int() ==> x == y,
    ;

    fn zero() -> (r: Self)
        ensures
            r.to_int() == 0,
    ;

    fn one() -> (r: Self)
        ensures
            r.to_int() == 1,
    ;

    /// Whether the backend offers a lane-wide kernel for this type.
    fn has_vector_path() -> bool;

    /// `op` on `l` and `r`, or `None` where the exact result is undefined or
    /// not representable.
    fn checked_op(op: BinaryOperation, l: Self, r: Self) -> (res: Option<Self>)
        ensures
            res is Some <==> (op_defined(op, r.to_int()) && Self::in_range(
                op_int(op, l.to_int(), r.to_int()),
            )),
            res matches Some(v) ==> v.to_int() == op_int(op, l.to_int(), r.to_int()),
    ;
}

/// Whether `op` on `l` and `r` is defined and its result representable in `T`.
pub open spec fn op_fits<T: TensrType>(op: BinaryOperation, l: int, r: int) -> bool {
    op_defined(op, r) && T::in_range(op_int(op, l, r))
}

impl TensrType for i32 {
    open spec fn to_int(self) -> int {
        self as int
    }

    open spec fn in_range(v: int) -> bool {
        i32::MIN <= v <= i32::MAX
    }

    proof fn lemma_to_int_injective(x: Self, y: Self) {
    }

    fn zero() -> (r: Self) {
        0
    }

    fn one() -> (r: Self) {
        1
    }

    fn has_vector_path() -> bool {
        true
    }

    fn checked_op(op: BinaryOperation, l: Self, r: Self) -> (res: Option<Self>) {
        match op {
            BinaryOperation::Add => l.checked_add(r),
            BinaryOperation::Sub => l.checked_sub(r),
            BinaryOperation::Mul => l.checked_mul(r),
            BinaryOperation::Div => l.checked_div(r),
        }
    }
}

impl TensrType for i16 {
    open spec fn to_int(self) -> int {
        self as int
    }

    open spec fn in_range(v: int) -> bool {
        i16::MIN <= v <= i16::MAX
    }

    proof fn lemma_to_int_injective(x: Self, y: Self) {
    }

    fn zero() -> (r: Self) {
        0
    }

    fn one() -> (r: Self) {
        1
    }

    fn has_vector_path() -> bool {
        true
    }

    fn checked_op(op: BinaryOperation, l: Self, r: Self) -> (res: Option<Self>) {
        match op {
            BinaryOperation::Add => l.checked_add(r),
            BinaryOperation::Sub => l.checked_sub(r),
            BinaryOperation::Mul => l.checked_mul(r),
            BinaryOperation::Div => l.checked_div(r),
        }
    }
}

impl TensrType for i64 {
    open spec fn to_int(self) -> int {
        self as int
    }

    open spec fn in_range(v: int) -> bool {
        i64::MIN <= v <= i64::MAX
    }

    proof fn lemma_to_int_injective(x: Self, y: Self) {
    }

    fn zero() -> (r: Self) {
        0
    }

    fn one() -> (r: Self) {
        1
    }

    fn has_vector_path() -> bool {
        true
    }

    fn checked_op(op: BinaryOperation, l: Self, r: Self) -> (res: Option<Self>) {
        match op {
            BinaryOperation::Add => l.checked_add(r),
            BinaryOperation::Sub => l.checked_sub(r),
            BinaryOperation::Mul => l.checked_mul(r),
            BinaryOperation::Div => l.checked_div(r),
        }
    }
}

impl TensrType for u16 {
    open spec fn to_int(self) -> int {
        self as int
    }

    open spec fn in_range(v: int) -> bool {
        0 <= v <= u16::MAX
    }

    proof fn lemma_to_int_injective(x: Self, y: Self) {
    }

    fn zero() -> (r: Self) {
        0
    }

    fn one() -> (r: Self) {
        1
    }

    fn has_vector_path() -> bool {
        true
    }

    fn checked_op(op: BinaryOperation, l: Self, r: Self) -> (res: Option<Self>) {
        match op {
            BinaryOperation::Add => l.checked_add(r),
            BinaryOperation::Sub => l.checked_sub(r),
            BinaryOperation::Mul => l.checked_mul(r),
            BinaryOperation::Div => l.checked_div(r),
        }
    }
}

impl TensrType for u32 {
    open spec fn to_int(self) -> int {
        self as int
    }

    open spec fn in_range(v: int) -> bool {
        0 <= v <= u32::MAX
    }

    proof fn lemma_to_int_injective(x: Self, y: Self) {
    }

    fn zero() -> (r: Self) {
        0
    }

    fn one() -> (r: Self) {
        1
    }

    fn has_vector_path() -> bool {
        true
    }

    fn checked_op(op: BinaryOperation, l: Self, r: Self) -> (res: Option<Self>) {
        match op {
            BinaryOperation::Add => l.checked_add(r),
            BinaryOperation::Sub => l.checked_sub(r),
            BinaryOperation::Mul => l.checked_mul(r),
            BinaryOperation::Div => l.checked_div(r),
        }
    }
}

impl TensrType for u64 {
    open spec fn to_int(self) -> int {
        self as int
    }

    open spec fn in_range(v: int) -> bool {
        0 <= v <= u64::MAX
    }

    proof fn lemma_to_int_injective(x: Self, y: Self) {
    }

    fn zero() -> (r: Self) {
        0
    }

    fn one() -> (r: Self) {
        1
    }

    fn has_vector_path() -> bool {
        true
    }

    fn checked_op(op: BinaryOperation, l: Self, r: Self) -> (res: Option<Self>) {
        match op {
            BinaryOperation::Add => l.checked_add(r),
            BinaryOperation::Sub => l.checked_sub(r),
            BinaryOperation::Mul => l.checked_mul(r),
            BinaryOperation::Div => l.checked_div(r),
        }
    }
}

} // verus!
