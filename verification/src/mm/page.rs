use vstd::prelude::*;

verus! {

/// Size in bytes of a base page; every flex page is a whole number of them.
pub const BASE_PAGE_SIZE: usize = 2097152;

/// `BASE_PAGE_SIZE == 1 << BASE_PAGE_SHIFT`.
pub const BASE_PAGE_SHIFT: u32 = 21;

/// The kind of a flex page, which decides how many base pages it spans.
#[derive(Clone, Copy, Debug, PartialEq, Eq, Structural)]
pub enum FlexPageKind {
    Small,
    Medium,
    Huge { base_count: usize },
}

impl FlexPageKind {
    /// Number of base pages spanned by a flex page of this kind.
    pub open spec fn spec_nr_pages(self) -> nat {
        match self {
            FlexPageKind::Small => 1,
            FlexPageKind::Medium => 4,
            FlexPageKind::Huge { base_count } => base_count as nat,
        }
    }

    /// Largest object that belongs on a flex page of this kind.
    pub open spec fn spec_max_object_size(self) -> nat {
        match self {
            FlexPageKind::Small => 262144,
            FlexPageKind::Medium => 1048576,
            FlexPageKind::Huge { .. } => usize::MAX as nat,
        }
    }

    /// Size in bytes of a flex page of this kind.
    pub open spec fn spec_size(self) -> nat {
        self.spec_nr_pages() * (BASE_PAGE_SIZE as nat)
    }

    /// Whether the size in bytes of such a page is representable.
    pub open spec fn size_fits(self) -> bool {
        self.spec_size() <= usize::MAX
    }

    pub fn nr_pages(&self) -> (r: usize)
        ensures
            r == self.spec_nr_pages(),
    {
        match self {
            FlexPageKind::Small => 1,
            FlexPageKind::Medium => 4,
            FlexPageKind::Huge { base_count } => *base_count,
        }
    }

    pub fn max_object_size(&self) -> (r: usize)
        ensures
            r == self.spec_max_object_size(),
    {
        match self {
            FlexPageKind::Small => 262144,
            FlexPageKind::Medium => 1048576,
            FlexPageKind::Huge { .. } => usize::MAX,
        }
    }
}

/// A page made of one or more base pages, handing out memory by bumping a
/// counter of used bytes.
#[derive(Clone, Copy)]
pub struct FlexPage {
    pub kind: FlexPageKind,
    pub start: usize,
    pub used_bytes: usize,
}

impl FlexPage {
    /// A flex page starts at a non-null address and never hands out more
    /// bytes than it holds.
    pub open spec fn wf(self) -> bool {
        &&& self.start != 0
        &&& self.used_bytes <= self.kind.spec_size()
    }

    /// Bytes still available on the page.
    pub open spec fn spec_free(self) -> int {
        self.kind.spec_size() - self.used_bytes
    }

    pub fn new(kind: FlexPageKind, start: usize) -> (r: Self)
        requires
            start != 0,
        ensures
            r.wf(),
            r.kind == kind,
            r.start == start,
            r.used_bytes == 0,
    {
        FlexPage { kind, start, used_bytes: 0 }
    }

    pub fn start(&self) -> (r: usize)
        ensures
            r == self.start,
    {
        self.start
    }

    pub fn size(&self) -> (r: usize)
        requires
            self.kind.size_fits(),
        ensures
            r == self.kind.spec_size(),
    {
        self.kind.nr_pages() * BASE_PAGE_SIZE
    }

    pub fn nr_pages(&self) -> (r: usize)
        ensures
            r == self.kind.spec_nr_pages(),
    {
        self.kind.nr_pages()
    }

    pub fn used(&self) -> (r: usize)
        ensures
            r == self.used_bytes,
    {
        self.used_bytes
    }

    pub fn free(&self) -> (r: usize)
        requires
            self.wf(),
            self.kind.size_fits(),
        ensures
            r == self.spec_free(),
    {
        self.size() - self.used()
    }

    pub fn kind(&self) -> (r: FlexPageKind)
        ensures
            r == self.kind,
    {
        self.kind
    }

    /// Hands out `size` bytes at the current bump position, or `None` when
    /// fewer than `size` bytes are free; the page is unchanged in that case.
    pub fn allocate(&mut self, size: usize) -> (r: Option<usize>)
        requires
            old(self).wf(),
            old(self).kind.size_fits(),
        ensures
            final(self).wf(),
            final(self).kind == old(self).kind,
            final(self).start == old(self).start,
            r is Some <==> size <= old(self).spec_free(),
            r is Some ==> {
                &&& r->0 == old(self).start.wrapping_add(old(self).used_bytes)
                &&& final(self).used_bytes == old(self).used_bytes + size
            },
            r is None ==> *final(self) == *old(self),
    {
        if self.free() >= size {
            let ret = self.start.wrapping_add(self.used_bytes);
            self.used_bytes = self.used_bytes + size;
            Some(ret)
        } else {
            None
        }
    }
}

} // verus!
