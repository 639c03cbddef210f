use vstd::prelude::*;

verus! {

/// Signed axis dimension type
pub type IDim = isize;

/// Unsigned axis dimension type
pub type UDim = usize;

/// Type for representing a number of dimensions
pub type DimLen = u32;

} // verus!
