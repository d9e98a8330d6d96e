//! Memory management: a heap mapping split into flex pages, in the manner of
//! ZGC's pages and page table. Small pages are one base page, medium pages
//! four, huge pages a whole number of base pages.

pub mod context;
pub mod page;
pub mod page_table;

use vstd::prelude::*;

use crate::mm::page::BASE_PAGE_SIZE;
use crate::mm::page_table::{page_addr, PageTable};

verus! {

/// Number of base pages needed to hold `size` bytes.
pub open spec fn pages_for(size: nat) -> nat {
    ((size + BASE_PAGE_SIZE - 1) / (BASE_PAGE_SIZE as int)) as nat
}

/// A heap: one mapping of whole base pages, and the table of the flex pages
/// carved out of it. The mapping itself is made by the caller.
pub struct MM {
    pub mapping_ptr: usize,
    pub mapping_len: usize,
    pub page_table: PageTable,
}

impl MM {
    pub open spec fn ptr(self) -> int {
        self.mapping_ptr as int
    }

    pub open spec fn len(self) -> int {
        self.mapping_len as int
    }

    /// The table describes exactly the mapping.
    pub open spec fn wf(self) -> bool {
        &&& self.page_table.wf()
        &&& self.page_table.laid_out()
        &&& self.page_table.base() == self.ptr()
        &&& self.len() == self.page_table.total() * BASE_PAGE_SIZE
    }

    /// Length in bytes of the mapping that a heap of `size` bytes needs:
    /// `size` rounded up to whole base pages, or `None` when that length is
    /// not representable.
    pub fn mapping_len_for(size: usize) -> (r: Option<usize>)
        ensures
            r matches Some(len) ==> len == pages_for(size as nat) * BASE_PAGE_SIZE,
            r is None <==> pages_for(size as nat) * BASE_PAGE_SIZE > usize::MAX,
    {
        let nr_pages = size / BASE_PAGE_SIZE + if size % BASE_PAGE_SIZE != 0 {
            1
        } else {
            0
        };
        assert(nr_pages == pages_for(size as nat));
        if nr_pages > usize::MAX / BASE_PAGE_SIZE {
            assert(nr_pages * 2097152 > usize::MAX) by (nonlinear_arith)
                requires
                    nr_pages > usize::MAX / 2097152,
            ;
            None
        } else {
            assert(nr_pages * 2097152 <= usize::MAX) by (nonlinear_arith)
                requires
                    nr_pages <= usize::MAX / 2097152,
            ;
            Some(nr_pages * BASE_PAGE_SIZE)
        }
    }

    /// A heap of `size` bytes over the mapping at `mapping_ptr`, which spans
    /// `size` rounded up to whole base pages.
    pub fn new(size: usize, mapping_ptr: usize) -> (r: Self)
        requires
            mapping_ptr != 0,
            page_addr(mapping_ptr as int, pages_for(size as nat) as int) <= usize::MAX,
        ensures
            r.wf(),
            r.ptr() == mapping_ptr,
            r.page_table.total() == pages_for(size as nat),
            r.page_table.used_end() == 0,
            r.page_table.medium() is None,
            forall|i: int| 0 <= i < r.page_table.total() ==> #[trigger] r.page_table.slots()[i] is None,
    {
        let nr_pages = size / BASE_PAGE_SIZE + if size % BASE_PAGE_SIZE != 0 {
            1
        } else {
            0
        };
        assert(nr_pages == pages_for(size as nat));
        assert(nr_pages * 2097152 <= usize::MAX) by (nonlinear_arith)
            requires
                mapping_ptr + nr_pages * 2097152 <= usize::MAX,
                mapping_ptr >= 0,
        ;
        MM {
            mapping_ptr,
            mapping_len: nr_pages * BASE_PAGE_SIZE,
            page_table: PageTable::new(mapping_ptr, nr_pages),
        }
    }

    pub fn get_page_table_cloned(&self) -> (r: PageTable)
        ensures
            r.base() == self.page_table.base(),
            r.used_end() == self.page_table.used_end(),
            r.total() == self.page_table.total(),
            r.slots() == self.page_table.slots(),
            r.medium() == self.page_table.medium(),
            self.page_table.wf() ==> r.wf(),
            self.page_table.laid_out() ==> r.laid_out(),
    {
        self.page_table.clone_table()
    }

    pub fn get_page_table_mut(&mut self) -> (r: &mut PageTable)
        ensures
            *r == old(self).page_table,
            final(self).page_table == *final(r),
            final(self).ptr() == old(self).ptr(),
            final(self).len() == old(self).len(),
    {
        &mut self.page_table
    }

    pub fn get_page_table(&self) -> (r: &PageTable)
        ensures
            *r == self.page_table,
    {
        &self.page_table
    }

    /// Start and length of the mapping.
    pub fn get_mapping(&self) -> (r: (usize, usize))
        ensures
            r.0 == self.ptr(),
            r.1 == self.len(),
    {
        (self.mapping_ptr, self.mapping_len)
    }
}

} // verus!
