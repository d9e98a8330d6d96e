//! Objects in the heap: a metadata word followed by the object's data.

pub mod metadata;

use vstd::prelude::*;

use crate::object::metadata::{MetadataEnum, MetadataExpanded};

verus! {

/// Size in bytes of the metadata word at the start of every object.
pub const METADATA_SIZE: usize = 8;

/// The address of an object, that is, of its metadata word.
#[derive(Clone, Copy, Debug, PartialEq, Eq, Structural)]
pub struct ObjectPtr(pub usize);

/// Size in bytes of an object's data as its metadata records it; user data
/// has no size of its own here.
pub open spec fn data_size(payload: MetadataEnum) -> int {
    match payload {
        MetadataEnum::PlainOldData(size) => size as int,
        MetadataEnum::RefArray(len) => len * 8,
        MetadataEnum::NotPlainOldData(_) => 0,
    }
}

impl ObjectPtr {
    pub open spec fn addr(self) -> usize {
        self.0
    }

    pub fn new(ptr: usize) -> (r: Self)
        ensures
            r.0 == ptr,
    {
        ObjectPtr(ptr)
    }

    pub fn to_ptr(&self) -> (r: usize)
        ensures
            r == self.0,
    {
        self.0
    }

    /// Size of the object's data, read off its metadata; plain old data
    /// records it directly, a reference array holds eight bytes per entry.
    pub fn size(metadata: &MetadataExpanded) -> (r: usize)
        requires
            metadata.wf(),
            !(metadata.payload is NotPlainOldData),
            data_size(metadata.payload) <= usize::MAX,
        ensures
            r == data_size(metadata.payload),
    {
        match metadata.payload {
            MetadataEnum::NotPlainOldData(_) => 0,
            MetadataEnum::PlainOldData(size) => size as usize,
            MetadataEnum::RefArray(len) => len as usize * 8,
        }
    }

    /// Address of the object's data, just after the metadata word.
    pub fn data(&self) -> (r: usize)
        requires
            self.0 + METADATA_SIZE <= usize::MAX,
        ensures
            r == self.0 + METADATA_SIZE,
    {
        self.0 + METADATA_SIZE
    }
}

} // verus!
