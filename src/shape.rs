use vstd::prelude::*;

use crate::dimension::{product, product_of};
use crate::types::UDim;

verus! {

/// The integer type of one extent of a [`Shape`].
pub type AxisType = UDim;

/// The largest number of axes that a [`Shape`] holds.
pub const MAX_SHAPE_DIMS: usize = 8;

/// A fixed-capacity shape: the number of axes, the product of the
/// extents, and the extents, padded with zeros.
#[derive(Debug)]
pub struct Shape {
    pub dims: u8,
    pub len: usize,
    pub axes: [AxisType; MAX_SHAPE_DIMS],
}

impl Shape {
    /// The shape with the extents in `dimensions`.
    pub fn new(dimensions: &[AxisType]) -> (r: Self)
        requires
            dimensions@.len() <= MAX_SHAPE_DIMS,
            product(dimensions@) <= usize::MAX,
        ensures
            r.dims == dimensions@.len(),
            r.len == product(dimensions@),
            forall|i: int|
                0 <= i < MAX_SHAPE_DIMS ==> #[trigger] r.axes[i] == if i < dimensions@.len() {
                    dimensions@[i]
                } else {
                    0
                },
    {
        let n = dimensions.len();
        let mut axes: [AxisType; MAX_SHAPE_DIMS] = [0; MAX_SHAPE_DIMS];
        let mut i: usize = 0;
        while i < n
            invariant
                i <= n <= MAX_SHAPE_DIMS,
                n == dimensions@.len(),
                forall|j: int|
                    0 <= j < MAX_SHAPE_DIMS ==> #[trigger] axes[j] == if j < i {
                        dimensions@[j]
                    } else {
                        0
                    },
            decreases n - i,
        {
            axes[i] = dimensions[i];
            i += 1;
        }
        Shape { dims: n as u8, len: product_of(dimensions), axes }
    }
}

} // verus!
