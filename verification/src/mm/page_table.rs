use vstd::prelude::*;

use crate::mm::page::{FlexPage, FlexPageKind, BASE_PAGE_SIZE, BASE_PAGE_SHIFT};

verus! {

/// Keeps track of the flex pages carved out of one contiguous heap mapping.
/// Pages are handed out from the bottom of the mapping upwards; slot `i`
/// holds the flex page that starts at base page `i`, if any.
pub struct PageTable {
    base_addr: usize,
    current_base_page: usize,
    nr_pages: usize,
    page_table: Vec<Option<FlexPage>>,
    medium_buffer_page: Option<usize>,
}

/// Address of base page `i` of a mapping that starts at `base`.
pub open spec fn page_addr(base: int, i: int) -> int {
    base + i * (BASE_PAGE_SIZE as int)
}

/// Whether `addr` lies in the used part of `page`.
pub open spec fn page_contains(page: FlexPage, addr: int) -> bool {
    page.start <= addr < page.start + page.used_bytes
}

/// Number of base pages a huge page needs to hold `size` bytes.
pub open spec fn huge_pages_for(size: nat) -> nat {
    ((size + BASE_PAGE_SIZE - 1) / (BASE_PAGE_SIZE as int)) as nat
}

impl PageTable {
    pub closed spec fn base(self) -> int {
        self.base_addr as int
    }

    /// First base page that has not been handed out yet.
    pub closed spec fn used_end(self) -> int {
        self.current_base_page as int
    }

    pub closed spec fn total(self) -> int {
        self.nr_pages as int
    }

    /// Content of every slot.
    pub closed spec fn slots(self) -> Seq<Option<FlexPage>> {
        self.page_table@
    }

    /// The medium page that small-to-medium objects are currently bumped into.
    pub closed spec fn medium(self) -> Option<usize> {
        self.medium_buffer_page
    }

    /// Structural well-formedness: one slot per base page of a mapping that
    /// fits in the address space, every page in a slot is well formed, and
    /// the medium buffer names a medium page.
    pub open spec fn wf(self) -> bool {
        &&& self.slots().len() == self.total()
        &&& self.base() != 0
        &&& page_addr(self.base(), self.total()) <= usize::MAX
        &&& 0 <= self.used_end() <= self.total()
        &&& forall|i: int|
            0 <= i < self.slots().len() && (#[trigger] self.slots()[i]) is Some ==> {
                &&& self.slots()[i]->0.wf()
                &&& self.slots()[i]->0.kind.size_fits()
            }
        &&& self.medium() matches Some(b) ==> {
            &&& b < self.total()
            &&& self.slots()[b as int] is Some
            &&& self.slots()[b as int]->0.kind == FlexPageKind::Medium
        }
    }

    /// Layout: every page starts at the address of its slot, spans at least
    /// one base page, lies below the end of use, and no two pages overlap.
    pub open spec fn laid_out(self) -> bool {
        &&& forall|i: int|
            0 <= i < self.slots().len() && (#[trigger] self.slots()[i]) is Some ==> {
                &&& self.slots()[i]->0.start == page_addr(self.base(), i)
                &&& self.slots()[i]->0.kind.spec_nr_pages() >= 1
                &&& i + self.slots()[i]->0.kind.spec_nr_pages() <= self.used_end()
            }
        &&& forall|i: int, j: int|
            0 <= i < j < self.slots().len() && (#[trigger] self.slots()[i]) is Some
                && (#[trigger] self.slots()[j]) is Some ==> i + self.slots()[i]->0.kind.spec_nr_pages()
                <= j
    }

    /// Whether the page in slot `i` holds `addr` in its used part.
    pub open spec fn holds(self, i: int, addr: int) -> bool {
        &&& 0 <= i < self.slots().len()
        &&& self.slots()[i] is Some
        &&& page_contains(self.slots()[i]->0, addr)
    }

    /// Whether an allocation of `kind` fits in what is left of the mapping.
    pub open spec fn room_for(self, kind: FlexPageKind) -> bool {
        self.used_end() + kind.spec_nr_pages() <= self.total()
    }

    pub fn new(base_addr: usize, nr_pages: usize) -> (r: Self)
        requires
            base_addr != 0,
            page_addr(base_addr as int, nr_pages as int) <= usize::MAX,
        ensures
            r.wf(),
            r.laid_out(),
            r.base() == base_addr,
            r.total() == nr_pages,
            r.used_end() == 0,
            r.medium() is None,
            forall|i: int| 0 <= i < nr_pages ==> #[trigger] r.slots()[i] is None,
    {
        let mut page_table: Vec<Option<FlexPage>> = Vec::new();
        let mut i: usize = 0;
        while i < nr_pages
            invariant
                i <= nr_pages,
                page_table@.len() == i,
                forall|j: int| 0 <= j < i ==> #[trigger] page_table@[j] is None,
            decreases nr_pages - i,
        {
            page_table.push(None);
            i = i + 1;
        }
        PageTable {
            base_addr,
            nr_pages,
            current_base_page: 0,
            medium_buffer_page: None,
            page_table,
        }
    }

    /// A copy of the table; the addresses it holds are the same ones.
    pub fn clone_table(&self) -> (r: Self)
        ensures
            r.base() == self.base(),
            r.used_end() == self.used_end(),
            r.total() == self.total(),
            r.slots() == self.slots(),
            r.medium() == self.medium(),
            self.wf() ==> r.wf(),
            self.laid_out() ==> r.laid_out(),
    {
        let mut page_table: Vec<Option<FlexPage>> = Vec::new();
        let mut i: usize = 0;
        while i < self.page_table.len()
            invariant
                i <= self.page_table@.len(),
                page_table@ == self.page_table@.subrange(0, i as int),
            decreases self.page_table@.len() - i,
        {
            page_table.push(self.page_table[i]);
            i = i + 1;
        }
        assert(page_table@ == self.page_table@);
        PageTable {
            base_addr: self.base_addr,
            current_base_page: self.current_base_page,
            nr_pages: self.nr_pages,
            page_table,
            medium_buffer_page: self.medium_buffer_page,
        }
    }

    /// Finds the page whose used part holds `addr`, searching backwards from
    /// the base page the address falls in.
    pub fn resolve_to_page(&self, addr: usize) -> (r: Option<usize>)
        requires
            self.wf(),
            self.laid_out(),
        ensures
            r matches Some(i) ==> self.holds(i as int, addr as int),
            r is None ==> forall|i: int| !self.holds(i, addr as int),
    {
        if addr < self.base_addr {
            proof {
                assert forall|i: int| !self.holds(i, addr as int) by {
                    if self.holds(i, addr as int) {
                        assert(self.page_table@[i] is Some);
                    }
                }
            }
            return None;
        }
        let offset: usize = addr - self.base_addr;
        let page_id: usize = offset >> BASE_PAGE_SHIFT;
        assert(offset >> 21u32 == offset / 2097152) by (bit_vector);
        proof {
            self.lemma_holder_slot(addr as int);
        }
        if page_id >= self.current_base_page {
            return None;
        }
        let mut current: usize = page_id;
        loop
            invariant
                self.wf(),
                self.laid_out(),
                current <= page_id,
                page_id < self.current_base_page,
                page_id == (addr - self.base_addr) / 2097152,
                addr >= self.base_addr,
                forall|i: int| current < i <= page_id ==> #[trigger] self.page_table@[i] is None,
                forall|i: int|
                    #![trigger self.holds(i, addr as int)]
                    self.holds(i, addr as int) ==> i <= page_id < i
                        + self.page_table@[i]->0.kind.spec_nr_pages(),
            decreases current,
        {
            let slot = self.page_table[current];
            if let Some(page) = slot {
                let start = page.start;
                let end = start.wrapping_add(page.used_bytes);
                assert(start + page.used_bytes <= usize::MAX);
                if addr >= start && addr < end {
                    return Some(current);
                }
                proof {
                    assert forall|i: int| !self.holds(i, addr as int) by {
                        if self.holds(i, addr as int) {
                            assert(self.page_table@[i] is Some);
                            if i < current {
                                assert(self.page_table@[current as int] is Some);
                            }
                        }
                    }
                }
                return None;
            }
            if current == 0 {
                proof {
                    assert forall|i: int| !self.holds(i, addr as int) by {
                        if self.holds(i, addr as int) {
                            assert(self.page_table@[i] is Some);
                        }
                    }
                }
                return None;
            }
            current = current - 1;
        }
    }

    /// No two pages hold the same address: so the page `resolve_to_page`
    /// finds for an address that `allocate` handed out is the page it was
    /// allocated from.
    pub proof fn lemma_holder_unique(self, i: int, j: int, addr: int)
        requires
            self.wf(),
            self.laid_out(),
            self.holds(i, addr),
            self.holds(j, addr),
        ensures
            i == j,
    {
        if i != j {
            let (a, b) = if i < j {
                (i, j)
            } else {
                (j, i)
            };
            let pa = self.slots()[a]->0;
            let pb = self.slots()[b]->0;
            let na = pa.kind.spec_nr_pages() as int;
            assert(a + na <= b);
            assert(pa.used_bytes <= na * 2097152);
            assert(pa.start + pa.used_bytes <= pb.start) by (nonlinear_arith)
                requires
                    pa.start == self.base() + a * 2097152,
                    pb.start == self.base() + b * 2097152,
                    pa.used_bytes <= na * 2097152,
                    a + na <= b,
            ;
        }
    }

    /// A page holding `addr` spans the base page that `addr` falls in.
    /// An address held by a page that ends at or before base page `k` lies
    /// below the address of base page `k`.
    proof fn lemma_held_below(self, i: int, k: int, x: int)
        requires
            self.wf(),
            self.laid_out(),
            self.holds(i, x),
            i + self.slots()[i]->0.kind.spec_nr_pages() <= k,
        ensures
            x < page_addr(self.base(), k),
    {
        let p = self.slots()[i]->0;
        let n = p.kind.spec_nr_pages() as int;
        assert(p.used_bytes <= n * 2097152);
        assert((i + n) * 2097152 <= k * 2097152) by (nonlinear_arith)
            requires
                i + n <= k,
        ;
        assert(i * 2097152 + n * 2097152 == (i + n) * 2097152) by (nonlinear_arith);
    }

    /// An address held by a page that starts at or after base page `k` lies
    /// at or above the address of base page `k`.
    proof fn lemma_held_above(self, i: int, k: int, x: int)
        requires
            self.wf(),
            self.laid_out(),
            self.holds(i, x),
            k <= i,
        ensures
            x >= page_addr(self.base(), k),
    {
        assert(k * 2097152 <= i * 2097152) by (nonlinear_arith)
            requires
                k <= i,
        ;
    }

    /// The bytes `[lo, hi)` of a fresh page at the end of use, or of the
    /// free part of the page at slot `id`, hold no address that a page of
    /// this table holds.
    proof fn lemma_free_range_unheld(self, id: int, lo: int, hi: int)
        requires
            self.wf(),
            self.laid_out(),
            0 <= id < self.slots().len(),
            ({
                ||| id == self.used_end() && lo == page_addr(self.base(), id)
                ||| self.slots()[id] matches Some(p) && lo == p.start + p.used_bytes && hi <= p.start
                    + p.kind.spec_size()
            }),
        ensures
            forall|i: int, x: int| #[trigger] self.holds(i, x) ==> x < lo || x >= hi,
    {
        assert forall|i: int, x: int| #[trigger] self.holds(i, x) implies x < lo || x >= hi by {
            if id == self.used_end() && lo == page_addr(self.base(), id) {
                self.lemma_held_below(i, id, x);
            } else {
                let p = self.slots()[id]->0;
                let n = p.kind.spec_nr_pages() as int;
                if i < id {
                    assert(self.slots()[id] is Some);
                    self.lemma_held_below(i, id, x);
                } else if i > id {
                    self.lemma_held_above(i, id + n, x);
                    assert(id * 2097152 + n * 2097152 == (id + n) * 2097152) by (nonlinear_arith);
                }
            }
        }
    }

    proof fn lemma_holder_slot(self, addr: int)
        requires
            self.wf(),
            self.laid_out(),
        ensures
            forall|i: int|
                #![trigger self.holds(i, addr)]
                self.holds(i, addr) ==> {
                    &&& addr >= self.base_addr
                    &&& i <= (addr - self.base_addr) / 2097152 < i
                        + self.page_table@[i]->0.kind.spec_nr_pages()
                    &&& (addr - self.base_addr) / 2097152 < self.current_base_page
                },
    {
        assert forall|i: int|
            #![trigger self.holds(i, addr)]
            self.holds(i, addr) implies {
            &&& addr >= self.base_addr
            &&& i <= (addr - self.base_addr) / 2097152 < i
                + self.page_table@[i]->0.kind.spec_nr_pages()
            &&& (addr - self.base_addr) / 2097152 < self.current_base_page
        } by {
            let p = self.page_table@[i]->0;
            let n = p.kind.spec_nr_pages() as int;
            let d = addr - self.base_addr;
            assert(p.start == self.base_addr + i * 2097152);
            assert(p.used_bytes <= n * 2097152);
            assert(i * 2097152 <= d < (i + n) * 2097152) by (nonlinear_arith)
                requires
                    p.start == self.base_addr + i * 2097152,
                    p.start <= addr < p.start + p.used_bytes,
                    p.used_bytes <= n * 2097152,
                    d == addr - self.base_addr,
            ;
            assert(i <= d / 2097152 < i + n) by (nonlinear_arith)
                requires
                    i * 2097152 <= d < (i + n) * 2097152,
                    0 <= i,
            ;
        }
    }

    /// Hands out the next `kind.nr_pages()` base pages as one flex page and
    /// returns its slot, or `None` when the mapping has no room left. A flex
    /// page is made of one or more base pages.
    pub fn alloc_page(&mut self, kind: FlexPageKind) -> (r: Option<usize>)
        requires
            old(self).wf(),
            old(self).laid_out(),
            kind.spec_nr_pages() >= 1,
        ensures
            final(self).wf(),
            final(self).laid_out(),
            final(self).base() == old(self).base(),
            final(self).total() == old(self).total(),
            final(self).medium() == old(self).medium(),
            r is Some <==> old(self).room_for(kind),
            r matches Some(idx) ==> {
                &&& idx == old(self).used_end()
                &&& final(self).used_end() == old(self).used_end() + kind.spec_nr_pages()
                &&& final(self).slots() == old(self).slots().update(
                    idx as int,
                    Some(FlexPage {
                        kind,
                        start: page_addr(old(self).base(), idx as int) as usize,
                        used_bytes: 0,
                    }),
                )
            },
            r is None ==> *final(self) == *old(self),
    {
        let x = self.current_base_page;
        let n = kind.nr_pages();
        if n > self.nr_pages - x {
            return None;
        }
        let new = x + n;
        self.current_base_page = new;
        assert(x * 2097152 <= self.nr_pages * 2097152) by (nonlinear_arith)
            requires
                x <= self.nr_pages,
        ;
        assert(n * 2097152 <= self.nr_pages * 2097152) by (nonlinear_arith)
            requires
                n <= self.nr_pages,
        ;
        let start = self.base_addr + x * BASE_PAGE_SIZE;
        let page = FlexPage::new(kind, start);
        let ghost old_slots = self.page_table@;
        self.page_table.set(x, Some(page));
        proof {
            if let Some(b) = old(self).medium_buffer_page {
                assert(old_slots[b as int] is Some);
            }
            {
                assert forall|i: int|
                    0 <= i < self.page_table@.len() && (#[trigger] old_slots[i]) is Some implies i
                    + old_slots[i]->0.kind.spec_nr_pages() <= x by {}
                assert forall|i: int, j: int|
                    0 <= i < j < self.page_table@.len() && (#[trigger] self.page_table@[i]) is Some
                        && (#[trigger] self.page_table@[j]) is Some implies i
                    + self.page_table@[i]->0.kind.spec_nr_pages() <= j by {
                    if j == x {
                        assert(old_slots[i] is Some);
                    } else if i == x {
                        assert(old_slots[j] is Some);
                    } else {
                        assert(old_slots[i] is Some && old_slots[j] is Some);
                    }
                }
            }
        }
        Some(x)
    }

    /// Whether the current medium page can take `size` more bytes.
    pub open spec fn medium_fits(self, size: int) -> bool {
        &&& self.medium() is Some
        &&& size <= self.slots()[self.medium()->0 as int]->0.spec_free()
    }

    /// The kind of page an object of `size` bytes is placed on when it does
    /// not go to the medium buffer.
    pub open spec fn huge_kind_for(size: nat) -> FlexPageKind {
        FlexPageKind::Huge { base_count: huge_pages_for(size) as usize }
    }

    /// Whether an object of `size` bytes can be placed.
    pub open spec fn can_place(self, size: int) -> bool {
        if size >= 1048576 {
            self.room_for(Self::huge_kind_for(size as nat))
        } else {
            self.medium_fits(size) || self.room_for(FlexPageKind::Medium)
        }
    }

    /// Bumps `size` bytes out of `page` at slot `id` and stores the page back.
    pub(crate) fn bump_slot(&mut self, id: usize, size: usize) -> (addr: usize)
        requires
            old(self).wf(),
            old(self).laid_out(),
            id < old(self).slots().len(),
            old(self).slots()[id as int] is Some,
            size <= old(self).slots()[id as int]->0.spec_free(),
        ensures
            final(self).wf(),
            final(self).laid_out(),
            final(self).base() == old(self).base(),
            final(self).total() == old(self).total(),
            final(self).used_end() == old(self).used_end(),
            final(self).medium() == old(self).medium(),
            final(self).slots() == old(self).slots().update(
                id as int,
                Some(
                    FlexPage {
                        used_bytes: (old(self).slots()[id as int]->0.used_bytes + size) as usize,
                        ..old(self).slots()[id as int]->0
                    },
                ),
            ),
            addr == old(self).slots()[id as int]->0.start + old(self).slots()[id as int]->0.used_bytes,
    {
        let mut page = self.page_table[id].unwrap();
        let got = page.allocate(size);
        assert(page.start + old(self).page_table@[id as int]->0.used_bytes <= usize::MAX) by {
            let p = old(self).page_table@[id as int]->0;
            assert(p.start == page_addr(self.base_addr as int, id as int));
            assert((id + p.kind.spec_nr_pages()) * 2097152 <= self.nr_pages * 2097152)
                by (nonlinear_arith)
                requires
                    id + p.kind.spec_nr_pages() <= self.nr_pages,
            ;
        }
        self.page_table.set(id, Some(page));
        proof {
            let ghost olds = old(self).page_table@;
            if let Some(b) = self.medium_buffer_page {
                assert(olds[b as int] is Some);
            }
            assert forall|i: int, j: int|
                0 <= i < j < self.page_table@.len() && (#[trigger] self.page_table@[i]) is Some
                    && (#[trigger] self.page_table@[j]) is Some implies i
                + self.page_table@[i]->0.kind.spec_nr_pages() <= j by {
                assert(olds[i] is Some && olds[j] is Some);
            }
        }
        got.unwrap()
    }

    /// Places an object of `size` bytes: huge objects get flex pages of their
    /// own, smaller ones are bumped into the current medium page, which is
    /// replaced by a fresh one when it is too full. Returns the address and
    /// the slot of the page it was placed on.
    pub fn allocate(&mut self, size: usize) -> (r: Option<(usize, usize)>)
        requires
            old(self).wf(),
            old(self).laid_out(),
            size % 8 == 0,
        ensures
            final(self).wf(),
            final(self).laid_out(),
            final(self).base() == old(self).base(),
            final(self).total() == old(self).total(),
            r is Some <==> old(self).can_place(size as int),
            r is None ==> *final(self) == *old(self),
            r matches Some((addr, id)) ==> {
                &&& size > 0 ==> final(self).holds(id as int, addr as int)
                &&& final(self).slots()[id as int] is Some
                &&& addr + size == final(self).slots()[id as int]->0.start
                    + final(self).slots()[id as int]->0.used_bytes
                &&& forall|i: int|
                    0 <= i < old(self).slots().len() && i != id ==> #[trigger] final(self).slots()[i]
                        == old(self).slots()[i]
                &&& old(self).slots()[id as int] matches Some(p) ==> {
                    &&& final(self).slots()[id as int]->0 == FlexPage {
                        used_bytes: (p.used_bytes + size) as usize,
                        ..p
                    }
                }
                &&& old(self).slots()[id as int] is None ==> final(self).slots()[id as int]->0.used_bytes
                    == size
            },
            r matches Some((addr, id)) ==> forall|i: int, x: int|
                #[trigger] old(self).holds(i, x) ==> x < addr || x >= addr + size,
            size >= 1048576 ==> (r matches Some((addr, id)) ==> {
                &&& id == old(self).used_end()
                &&& final(self).used_end() == old(self).used_end() + huge_pages_for(size as nat)
                &&& final(self).medium() == old(self).medium()
                &&& final(self).slots()[id as int] == Some(
                    FlexPage {
                        kind: Self::huge_kind_for(size as nat),
                        start: page_addr(old(self).base(), id as int) as usize,
                        used_bytes: size,
                    },
                )
                &&& addr == page_addr(old(self).base(), id as int)
            }),
            size < 1048576 ==> (r matches Some((addr, id)) ==> {
                &&& final(self).medium() == Some(id)
                &&& old(self).medium_fits(size as int) ==> {
                    &&& id == old(self).medium()->0
                    &&& final(self).used_end() == old(self).used_end()
                    &&& addr == old(self).slots()[id as int]->0.start + old(self).slots()[
                        id as int
                    ]->0.used_bytes
                }
                &&& !old(self).medium_fits(size as int) ==> {
                    &&& id == old(self).used_end()
                    &&& final(self).used_end() == old(self).used_end() + 4
                    &&& final(self).slots()[id as int] == Some(
                        FlexPage {
                            kind: FlexPageKind::Medium,
                            start: page_addr(old(self).base(), id as int) as usize,
                            used_bytes: size,
                        },
                    )
                    &&& addr == page_addr(old(self).base(), id as int)
                }
            }),
    {
        if size >= 1048576 {
            let base_count = size / BASE_PAGE_SIZE + if size % BASE_PAGE_SIZE != 0 {
                1
            } else {
                0
            };
            let kind = FlexPageKind::Huge { base_count };
            assert(base_count == huge_pages_for(size as nat));
            let page_id = match self.alloc_page(kind) {
                Some(id) => id,
                None => return None,
            };
            assert(size <= base_count * 2097152);
            let addr = self.bump_slot(page_id, size);
            proof {
                old(self).lemma_free_range_unheld(page_id as int, addr as int, addr + size);
            }
            return Some((addr, page_id));
        }
        let ghost mut fresh = false;
        let mut buf_id: usize = match self.medium_buffer_page {
            Some(b) => b,
            None => {
                match self.alloc_page(FlexPageKind::Medium) {
                    Some(id) => {
                        proof {
                            fresh = true;
                        }
                        self.medium_buffer_page = Some(id);
                        id
                    },
                    None => return None,
                }
            },
        };
        let page = self.page_table[buf_id].unwrap();
        if page.free() < size {
            match self.alloc_page(FlexPageKind::Medium) {
                Some(id) => {
                    proof {
                        fresh = true;
                    }
                    self.medium_buffer_page = Some(id);
                    buf_id = id;
                },
                None => return None,
            }
        }
        let addr = self.bump_slot(buf_id, size);
        proof {
            if fresh {
                assert(buf_id == old(self).used_end());
            } else {
                assert(buf_id == old(self).medium()->0);
                assert(self.slots()[buf_id as int] is Some);
            }
            old(self).lemma_free_range_unheld(buf_id as int, addr as int, addr + size);
        }
        Some((addr, buf_id))
    }

    /// The slot `donate_page` files a page under: the page's start counted
    /// in base pages, less the base address (in bytes) of this table.
    pub open spec fn donated_slot(self, page: FlexPage) -> int {
        (page.start as int) / (BASE_PAGE_SIZE as int) - self.base()
    }

    /// Takes over a page handed out by another table. Pages can only be
    /// donated in increasing order of slot, and only into empty slots.
    pub fn donate_page(&mut self, page: &FlexPage)
        requires
            old(self).slots().len() == old(self).total(),
            0 <= old(self).donated_slot(*page) < old(self).total(),
            old(self).donated_slot(*page) >= old(self).used_end(),
            old(self).donated_slot(*page) + page.kind.spec_nr_pages() <= usize::MAX,
            old(self).slots()[old(self).donated_slot(*page)] is None,
        ensures
            final(self).base() == old(self).base(),
            final(self).total() == old(self).total(),
            final(self).medium() == old(self).medium(),
            final(self).used_end() == old(self).donated_slot(*page) + page.kind.spec_nr_pages(),
            final(self).slots() == old(self).slots().update(
                old(self).donated_slot(*page),
                Some(*page),
            ),
            old(self).wf() && page.wf() && page.kind.size_fits() && final(self).used_end()
                <= final(self).total() ==> final(self).wf(),
            old(self).laid_out() && page.start == page_addr(
                old(self).base(),
                old(self).donated_slot(*page),
            ) && page.kind.spec_nr_pages() >= 1 && final(self).used_end() <= final(self).total()
                ==> final(self).laid_out(),
    {
        let page_id = page.start / BASE_PAGE_SIZE - self.base_addr;
        self.current_base_page = page_id + page.nr_pages();
        let ghost olds = self.page_table@;
        self.page_table.set(page_id, Some(*page));
        proof {
            if old(self).wf() {
                if let Some(b) = self.medium_buffer_page {
                    assert(olds[b as int] is Some);
                }
            }
            if old(self).laid_out() && page.start == page_addr(old(self).base(), page_id as int)
                && page.kind.spec_nr_pages() >= 1 && self.current_base_page <= self.nr_pages {
                assert forall|i: int|
                    0 <= i < self.page_table@.len() && (#[trigger] olds[i]) is Some implies i
                    + olds[i]->0.kind.spec_nr_pages() <= page_id by {}
                assert forall|i: int, j: int|
                    0 <= i < j < self.page_table@.len() && (#[trigger] self.page_table@[i]) is Some
                        && (#[trigger] self.page_table@[j]) is Some implies i
                    + self.page_table@[i]->0.kind.spec_nr_pages() <= j by {
                    if j == page_id {
                        assert(olds[i] is Some);
                    } else if i == page_id {
                        assert(olds[j] is Some);
                    } else {
                        assert(olds[i] is Some && olds[j] is Some);
                    }
                }
            }
        }
    }

    pub fn get_used_end_page(&self) -> (r: usize)
        ensures
            r == self.used_end(),
    {
        self.current_base_page
    }

    /// Address of the first byte that no page has been handed out for.
    pub fn get_top_addr(&self) -> (r: usize)
        requires
            self.wf(),
        ensures
            r == page_addr(self.base(), self.used_end()),
    {
        assert(self.current_base_page * 2097152 <= self.nr_pages * 2097152) by (nonlinear_arith)
            requires
                self.current_base_page <= self.nr_pages,
        ;
        self.base_addr + self.current_base_page * BASE_PAGE_SIZE
    }

    pub fn nr_pages(&self) -> (r: usize)
        ensures
            r == self.total(),
    {
        self.nr_pages
    }

    pub fn get_base_addr(&self) -> (r: usize)
        ensures
            r == self.base(),
    {
        self.base_addr
    }

    /// The page in slot `idx`, if one starts there.
    pub fn get_page(&self, idx: usize) -> (r: Option<FlexPage>)
        requires
            idx < self.slots().len(),
        ensures
            r == self.slots()[idx as int],
    {
        self.page_table[idx]
    }

    /// Forgets every page: the whole mapping is free again.
    pub fn clear(&mut self)
        requires
            old(self).wf(),
        ensures
            final(self).wf(),
            final(self).laid_out(),
            final(self).base() == old(self).base(),
            final(self).total() == old(self).total(),
            final(self).used_end() == 0,
            final(self).medium() is None,
            forall|i: int| 0 <= i < final(self).total() ==> #[trigger] final(self).slots()[i] is None,
    {
        self.current_base_page = 0;
        self.medium_buffer_page = None;
        let mut i: usize = 0;
        while i < self.page_table.len()
            invariant
                self.page_table@.len() == self.nr_pages,
                self.base_addr == old(self).base_addr,
                self.nr_pages == old(self).nr_pages,
                self.current_base_page == 0,
                self.medium_buffer_page is None,
                i <= self.page_table@.len(),
                forall|j: int| 0 <= j < i ==> #[trigger] self.page_table@[j] is None,
                forall|j: int|
                    i <= j < self.page_table@.len() ==> #[trigger] self.page_table@[j]
                        == old(self).page_table@[j],
            decreases self.page_table@.len() - i,
        {
            self.page_table.set(i, None);
            i = i + 1;
        }
    }
}

} // verus!
