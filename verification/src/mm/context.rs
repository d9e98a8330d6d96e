use vstd::prelude::*;

use crate::mm::page::FlexPageKind;
use crate::mm::page_table::PageTable;
use crate::mm::MM;

verus! {

/// A mutator's allocation context: a small page of its own that small
/// objects are bumped into without going through the shared medium page.
/// The context does not remember the heap it allocates from; the caller
/// keeps using the same one.
pub struct Context {
    local_buffer_page: Option<usize>,
}

impl Context {
    pub closed spec fn local(self) -> Option<usize> {
        self.local_buffer_page
    }

    /// The context's page, if any, is a small page of `table`.
    pub open spec fn valid_for(self, table: PageTable) -> bool {
        self.local() matches Some(l) ==> {
            &&& l < table.slots().len()
            &&& table.slots()[l as int] is Some
            &&& table.slots()[l as int]->0.kind == FlexPageKind::Small
        }
    }

    /// Whether `size` bytes go into the local page without replacing it.
    pub open spec fn local_fits(self, table: PageTable, size: int) -> bool {
        &&& self.local() is Some
        &&& size < table.slots()[self.local()->0 as int]->0.spec_free()
    }

    /// Whether an object of `size` bytes can be placed through this context.
    pub open spec fn can_place(self, table: PageTable, size: int) -> bool {
        if size >= 262144 {
            table.can_place(size)
        } else {
            self.local_fits(table, size) || table.room_for(FlexPageKind::Small)
        }
    }

    pub fn new() -> (r: Self)
        ensures
            r.local() is None,
    {
        Context { local_buffer_page: None }
    }

    /// Drops the local page; the next small allocation starts a new one.
    pub fn flush_local_buf(&mut self)
        ensures
            final(self).local() is None,
    {
        self.local_buffer_page = None;
    }

    /// Places an object of `size` bytes: objects of a small page's maximum
    /// object size or more go to the heap's shared pages, smaller ones into
    /// the local page, which is replaced by a fresh small page when the
    /// object does not fit strictly below its end. Returns the address and
    /// the slot of the page it was placed on.
    pub fn allocate(&mut self, mm: &mut MM, size: usize) -> (r: Option<(usize, usize)>)
        requires
            old(mm).wf(),
            old(self).valid_for(old(mm).page_table),
            size % 8 == 0,
        ensures
            final(mm).wf(),
            final(self).valid_for(final(mm).page_table),
            final(mm).ptr() == old(mm).ptr(),
            final(mm).len() == old(mm).len(),
            r is Some <==> old(self).can_place(old(mm).page_table, size as int),
            r is None ==> final(mm).page_table == old(mm).page_table,
            r matches Some((addr, id)) ==> {
                let t = final(mm).page_table;
                &&& t.slots()[id as int] is Some
                &&& size > 0 ==> t.holds(id as int, addr as int)
                &&& addr + size == t.slots()[id as int]->0.start + t.slots()[id as int]->0.used_bytes
                &&& forall|i: int|
                    0 <= i < old(mm).page_table.slots().len() && i != id ==> #[trigger] t.slots()[i]
                        == old(mm).page_table.slots()[i]
                &&& size < 262144 ==> final(self).local() == Some(id)
                &&& t.slots()[id as int]->0.kind == FlexPageKind::Small ==> size
                    < FlexPageKind::Small.spec_max_object_size()
            },
            size >= FlexPageKind::Small.spec_max_object_size() ==> final(self).local() == old(
                self,
            ).local(),
    {
        if size >= 262144 {
            return mm.page_table.allocate(size);
        }
        let mut local: usize = match self.local_buffer_page {
            Some(l) => l,
            None => {
                match mm.page_table.alloc_page(FlexPageKind::Small) {
                    Some(id) => {
                        self.local_buffer_page = Some(id);
                        id
                    },
                    None => return None,
                }
            },
        };
        let page = mm.page_table.get_page(local).unwrap();
        if size >= page.free() {
            match mm.page_table.alloc_page(FlexPageKind::Small) {
                Some(id) => {
                    self.local_buffer_page = Some(id);
                    local = id;
                },
                None => return None,
            }
        }
        let addr = mm.page_table.bump_slot(local, size);
        Some((addr, local))
    }
}

} // verus!
