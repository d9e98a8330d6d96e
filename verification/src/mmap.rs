//! Advice given about a memory mapping.

use vstd::prelude::*;

verus! {

/// What a mapping is advised with.
#[derive(Clone, Copy, PartialEq, Eq, Structural)]
pub enum Advice {
    /// Free the range and its backing store.
    Remove,
    /// Fault the range in, readable.
    PopulateRead,
}

} // verus!
