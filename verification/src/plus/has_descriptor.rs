//! Types that can live in the heap, with the layout the collector needs.

use vstd::prelude::*;

use crate::plus::descriptor::{pointer_offsets, Descriptor};
use crate::plus::gcbox::{GCBox, GCBoxOption};

verus! {

/// A type whose layout is known to the collector. The pointer fields it
/// lists must only be changed through their load and store operations once
/// the object is in the heap, and must never be absent from the object.
pub trait HasDescriptor: Sized {
    fn descriptor() -> (r: Descriptor)
        ensures
            r.size == vstd::layout::size_of::<Self>(),
    ;
}

/// The layout of a type without pointers.
fn plain_descriptor(size: usize) -> (r: Descriptor)
    ensures
        r.fields@.len() == 0,
        r.unflattened@.len() == 0,
        r.size == size,
{
    Descriptor::new(Vec::new(), size)
}

/// The layout of a type that is one pointer field.
fn pointer_descriptor(size: usize) -> (r: Descriptor)
    ensures
        r.fields@ == seq![0usize],
        r.unflattened@.len() == 0,
        r.size == size,
{
    let mut fields: Vec<usize> = Vec::new();
    fields.push(0);
    Descriptor::new(fields, size)
}

impl HasDescriptor for bool {
    /// A value without pointers.
    fn descriptor() -> (r: Descriptor)
        ensures
            pointer_offsets(r).len() == 0,
    {
        plain_descriptor(core::mem::size_of::<bool>())
    }
}

impl HasDescriptor for u8 {
    /// A value without pointers.
    fn descriptor() -> (r: Descriptor)
        ensures
            pointer_offsets(r).len() == 0,
    {
        plain_descriptor(core::mem::size_of::<u8>())
    }
}

impl HasDescriptor for u16 {
    /// A value without pointers.
    fn descriptor() -> (r: Descriptor)
        ensures
            pointer_offsets(r).len() == 0,
    {
        plain_descriptor(core::mem::size_of::<u16>())
    }
}

impl HasDescriptor for u32 {
    /// A value without pointers.
    fn descriptor() -> (r: Descriptor)
        ensures
            pointer_offsets(r).len() == 0,
    {
        plain_descriptor(core::mem::size_of::<u32>())
    }
}

impl HasDescriptor for u64 {
    /// A value without pointers.
    fn descriptor() -> (r: Descriptor)
        ensures
            pointer_offsets(r).len() == 0,
    {
        plain_descriptor(core::mem::size_of::<u64>())
    }
}

impl HasDescriptor for usize {
    /// A value without pointers.
    fn descriptor() -> (r: Descriptor)
        ensures
            pointer_offsets(r).len() == 0,
    {
        plain_descriptor(core::mem::size_of::<usize>())
    }
}

impl HasDescriptor for i32 {
    /// A value without pointers.
    fn descriptor() -> (r: Descriptor)
        ensures
            pointer_offsets(r).len() == 0,
    {
        plain_descriptor(core::mem::size_of::<i32>())
    }
}

impl HasDescriptor for i64 {
    /// A value without pointers.
    fn descriptor() -> (r: Descriptor)
        ensures
            pointer_offsets(r).len() == 0,
    {
        plain_descriptor(core::mem::size_of::<i64>())
    }
}

impl<T> HasDescriptor for GCBoxOption<T> {
    /// A pointer field is itself the one pointer of its layout, at offset 0.
    fn descriptor() -> (r: Descriptor)
        ensures
            r.fields@ == seq![0usize],
            r.unflattened@.len() == 0,
            pointer_offsets(r) == seq![0usize],
    {
        pointer_descriptor(core::mem::size_of::<GCBoxOption<T>>())
    }
}

impl<T> HasDescriptor for GCBox<T> {
    /// A pointer field is itself the one pointer of its layout, at offset 0.
    fn descriptor() -> (r: Descriptor)
        ensures
            r.fields@ == seq![0usize],
            r.unflattened@.len() == 0,
            pointer_offsets(r) == seq![0usize],
    {
        pointer_descriptor(core::mem::size_of::<GCBox<T>>())
    }
}

} // verus!
