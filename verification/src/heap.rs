//! Parameters of a heap.

use vstd::prelude::*;

verus! {

/// How big a heap may grow.
pub struct HeapParams {
    pub max_size: usize,
}

} // verus!
