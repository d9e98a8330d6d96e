//! Object layouts for the mark-sweep object manager.

use vstd::prelude::*;

verus! {

/// A pointer field of an object, by its byte offset.
pub struct Field {
    pub offset: usize,
}

/// Where an object's pointer fields are.
pub struct Descriptor {
    pub fields: Vec<Field>,
}

/// A type the collector can describe. Implementers must give the correct
/// descriptor of the type, as the collector reads objects by it.
pub trait Describeable {
    /// The descriptor, or `None` for a type without pointer fields.
    fn get_descriptor() -> Option<Descriptor>;
}

/// A copyable type holds no collector references, so it has no
/// descriptor.
impl<T: Copy> Describeable for T {
    fn get_descriptor() -> (r: Option<Descriptor>)
        ensures
            r is None,
    {
        None
    }
}

} // verus!
