//! How the collector learns the layout of user objects.

use vstd::prelude::*;

use crate::object::metadata::{MetadataEnum, MetadataExpanded};
use crate::object::{ObjectPtr, METADATA_SIZE};

verus! {

/// Implemented by the user of the collector to tell it, for each type id
/// it hands out, how big objects of that type are and where their pointers
/// are. A type id may only be reused once no object refers to it.
///
/// The collector marks all types dead at the start of a cycle, marks each
/// type it meets alive, and asks for the dead ones to be wiped at the end.
/// It reads and rewrites the pointers of an object through the addresses
/// of its pointer fields, which the manager reports.
pub trait TypeManager: Sized {
    /// The manager's own invariant.
    spec fn inv(&self) -> bool;

    /// Whether the manager knows `type_id`.
    spec fn knows(&self, type_id: u64) -> bool;

    /// Whether the manager keeps track of whether `type_id` is alive.
    spec fn tracks(&self, type_id: u64) -> bool;

    /// Size of objects of `type_id`, excluding metadata, if it is known.
    spec fn type_size(&self, type_id: u64) -> Option<usize>;

    /// Addresses of the pointer fields of `object`, of type `type_id`.
    spec fn pointer_slots(&self, type_id: u64, object: ObjectPtr) -> Seq<usize>;

    /// Marks every type dead, without removing any.
    fn assume_all_dead(&mut self)
        requires
            old(self).inv(),
        ensures
            final(self).inv(),
    ;

    /// Marks `type_id` alive; returns whether its liveness is tracked.
    fn set_alive(&mut self, type_id: u64) -> (r: bool)
        requires
            old(self).inv(),
        ensures
            final(self).inv(),
            r == old(self).tracks(type_id),
    ;

    /// Removes the types that were not marked alive since the last
    /// `assume_all_dead`.
    fn wipe_deads(&mut self)
        requires
            old(self).inv(),
        ensures
            final(self).inv(),
    ;

    /// Addresses of the pointer fields of `object`, of type `type_id`, for
    /// the collector to read; `None` when the type is unknown.
    fn iterate_gc_pointers(&self, type_id: u64, object: ObjectPtr) -> (r: Option<Vec<usize>>)
        requires
            self.inv(),
        ensures
            r is Some <==> self.knows(type_id),
            r matches Some(v) ==> v@ == self.pointer_slots(type_id, object),
    ;

    /// Addresses of the pointer fields of `object`, of type `type_id`, for
    /// the collector to rewrite while it owns the object exclusively;
    /// `None` when the type is unknown.
    fn update_gc_pointers(&self, type_id: u64, object: ObjectPtr) -> (r: Option<Vec<usize>>)
        requires
            self.inv(),
        ensures
            r is Some <==> self.knows(type_id),
            r matches Some(v) ==> v@ == self.pointer_slots(type_id, object),
    ;

    /// Size of objects of `type_id`, excluding metadata.
    fn get_size(&self, type_id: u64) -> (r: Option<usize>)
        requires
            self.inv(),
        ensures
            r == self.type_size(type_id),
    ;
}

/// A manager that knows no type at all.
pub struct NoopTypeManager;

impl TypeManager for NoopTypeManager {
    open spec fn inv(&self) -> bool {
        true
    }

    open spec fn knows(&self, type_id: u64) -> bool {
        false
    }

    open spec fn tracks(&self, type_id: u64) -> bool {
        false
    }

    open spec fn type_size(&self, type_id: u64) -> Option<usize> {
        None
    }

    open spec fn pointer_slots(&self, type_id: u64, object: ObjectPtr) -> Seq<usize> {
        Seq::empty()
    }

    fn assume_all_dead(&mut self) {
    }

    fn set_alive(&mut self, type_id: u64) -> (r: bool) {
        false
    }

    fn wipe_deads(&mut self) {
    }

    fn iterate_gc_pointers(&self, type_id: u64, object: ObjectPtr) -> (r: Option<Vec<usize>>) {
        None
    }

    fn update_gc_pointers(&self, type_id: u64, object: ObjectPtr) -> (r: Option<Vec<usize>>) {
        None
    }

    fn get_size(&self, type_id: u64) -> (r: Option<usize>) {
        None
    }
}

/// Size of an object with this metadata, header included, as
/// `TypeManagerConcrete::get_size` computes it.
pub open spec fn object_total_size<M: TypeManager>(manager: M, metadata: MetadataExpanded) -> int {
    (match metadata.payload {
        MetadataEnum::PlainOldData(size) => size as int,
        MetadataEnum::NotPlainOldData(type_id) => manager.type_size(type_id)->0 as int,
        MetadataEnum::RefArray(len) => len * 8,
    }) + METADATA_SIZE
}

/// The collector's handle on the user's type manager.
pub struct TypeManagerConcrete<M: TypeManager> {
    pub type_manager: M,
}

impl<M: TypeManager> TypeManagerConcrete<M> {
    pub fn new(manager: M) -> (r: Self)
        ensures
            r.type_manager == manager,
    {
        TypeManagerConcrete { type_manager: manager }
    }

    /// Addresses of the pointer fields of an object with the given
    /// metadata: none for plain old data, what the manager reports for user
    /// data. The manager must know the object's type.
    pub fn iterate_gc_pointers(&self, object: ObjectPtr, metadata: &MetadataExpanded) -> (r: Vec<
        usize,
    >)
        requires
            self.type_manager.inv(),
            !(metadata.payload is RefArray),
            metadata.payload matches MetadataEnum::NotPlainOldData(id) ==> self.type_manager.knows(
                id,
            ),
        ensures
            metadata.payload is PlainOldData ==> r@.len() == 0,
            metadata.payload matches MetadataEnum::NotPlainOldData(id) ==> r@
                == self.type_manager.pointer_slots(id, object),
    {
        match metadata.payload {
            MetadataEnum::NotPlainOldData(type_id) => {
                match self.type_manager.iterate_gc_pointers(type_id, object) {
                    Some(slots) => slots,
                    None => Vec::new(),
                }
            },
            _ => Vec::new(),
        }
    }

    /// Size of the object including its metadata word.
    pub fn get_size(&self, metadata: &MetadataExpanded) -> (r: usize)
        requires
            self.type_manager.inv(),
            metadata.wf(),
            metadata.payload matches MetadataEnum::NotPlainOldData(id) ==> self.type_manager.type_size(id) is Some,
            object_total_size(self.type_manager, *metadata) <= usize::MAX,
        ensures
            r == object_total_size(self.type_manager, *metadata),
    {
        let size: usize = match metadata.payload {
            MetadataEnum::PlainOldData(x) => x as usize,
            MetadataEnum::NotPlainOldData(type_id) => self.type_manager.get_size(type_id).unwrap(),
            MetadataEnum::RefArray(len) => len as usize * 8,
        };
        size + METADATA_SIZE
    }

    /// Addresses of the pointer fields to rewrite in an object with the
    /// given metadata, which the caller owns exclusively: none for plain old
    /// data, what the manager reports for user data. The manager must know
    /// the object's type.
    pub fn update_gc_pointers(&self, object: ObjectPtr, metadata: &MetadataExpanded) -> (r: Vec<
        usize,
    >)
        requires
            self.type_manager.inv(),
            !(metadata.payload is RefArray),
            metadata.payload matches MetadataEnum::NotPlainOldData(id) ==> self.type_manager.knows(
                id,
            ),
        ensures
            metadata.payload is PlainOldData ==> r@.len() == 0,
            metadata.payload matches MetadataEnum::NotPlainOldData(id) ==> r@
                == self.type_manager.pointer_slots(id, object),
    {
        match metadata.payload {
            MetadataEnum::NotPlainOldData(type_id) => {
                match self.type_manager.update_gc_pointers(type_id, object) {
                    Some(slots) => slots,
                    None => Vec::new(),
                }
            },
            _ => Vec::new(),
        }
    }
}

} // verus!
