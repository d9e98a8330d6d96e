//! How exclusive a root reference is.

use vstd::prelude::*;

verus! {

/// The kinds of root reference: exclusive (mutable) or shared (immutable).
pub trait RefKind: Default {
}

/// A root reference that may be written through.
pub struct Exclusive {}

/// A root reference that may only be read through.
pub struct Shared {}

impl RefKind for Exclusive {
}

impl RefKind for Shared {
}

impl Default for Exclusive {
    fn default() -> (r: Self) {
        Exclusive {}
    }
}

impl Default for Shared {
    fn default() -> (r: Self) {
        Shared {}
    }
}

} // verus!
