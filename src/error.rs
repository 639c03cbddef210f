use vstd::prelude::*;

verus! {

/// What can go wrong when reading, writing or evaluating arrays.
#[derive(Debug, PartialEq, Eq, Structural, Clone, Copy)]
pub enum TensorError {
    /// Two lengths that must agree do not: the two operands of a node, or
    /// an expression and the buffer it is written into.
    LengthMismatch { left: usize, right: usize },
    /// An element index at or past the end.
    IndexOutOfBounds { index: usize, len: usize },
    /// A write into a lazy expression, which holds no elements of its own.
    InvalidWrite,
}

} // verus!
