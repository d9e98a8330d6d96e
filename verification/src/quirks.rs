//! A workaround for a kernel that reports fewer bytes moved by a
//! userfaultfd move than it actually moved: the pages after the reported
//! ones are checked for residency, and every resident one counts as moved.
//! The residency query itself is the caller's.

use vstd::prelude::*;

use crate::root_set::system_page_size;

verus! {

/// Number of leading entries of `residency` whose bit 0 is set.
pub open spec fn leading_present(residency: Seq<u8>) -> nat
    decreases residency.len(),
{
    if residency.len() == 0 {
        0
    } else if residency[0] & 1u8 != 0u8 {
        1 + leading_present(residency.drop_first())
    } else {
        0
    }
}

/// Where the residency check starts and how many entries it covers:
/// `None` when the report matches the intended move and there is nothing
/// to fix; otherwise the reported count rounded up to whole pages, and the
/// number of bytes from there to the intended count. Both the destination
/// and the intended count are whole pages, and no more can have been
/// reported than intended.
pub fn uffd_fix_start(
    dest: usize,
    moved_reported: usize,
    moved_intended: usize,
    page_size: usize,
) -> (r: Option<(usize, usize)>)
    requires
        page_size > 0,
        moved_intended % page_size == 0,
        dest % page_size == 0,
        moved_reported <= moved_intended,
    ensures
        moved_intended == moved_reported ==> r is None,
        moved_intended != moved_reported ==> (r matches Some((s, n)) && {
            &&& s % page_size == 0
            &&& moved_reported <= s < moved_reported + page_size
            &&& s <= moved_intended
            &&& n == moved_intended - s
        }),
{
    if moved_intended == moved_reported {
        return None;
    }
    let rem = moved_reported % page_size;
    if rem == 0 {
        return Some((moved_reported, moved_intended - moved_reported));
    }
    let q = moved_reported / page_size;
    proof {
        vstd::arithmetic::div_mod::lemma_fundamental_div_mod(
            moved_reported as int,
            page_size as int,
        );
        vstd::arithmetic::div_mod::lemma_fundamental_div_mod(
            moved_intended as int,
            page_size as int,
        );
        vstd::arithmetic::div_mod::lemma_mod_multiples_basic(q + 1, page_size as int);
        assert((q + 1) * page_size == q * page_size + page_size) by (nonlinear_arith);
        assert(page_size * q == q * page_size) by (nonlinear_arith);
        assert(moved_reported - rem + page_size == (q + 1) * page_size);
        let k = moved_intended / page_size;
        assert(page_size * k == moved_intended);
        assert(q * page_size < k * page_size) by (nonlinear_arith)
            requires
                q * page_size <= moved_reported,
                moved_reported < moved_intended,
                page_size * k == moved_intended,
        ;
        assert(q < k) by (nonlinear_arith)
            requires
                q * page_size < k * page_size,
                page_size > 0,
        ;
        assert((q + 1) * page_size <= k * page_size) by (nonlinear_arith)
            requires
                q + 1 <= k,
                page_size > 0,
        ;
    }
    let start = moved_reported - rem + page_size;
    Some((start, moved_intended - start))
}

/// The residency check for a move to `dest` of `moved_intended` bytes, of
/// which `moved_reported` were reported, on the page size the system
/// reports. `None` when the move breaks what the check needs: a page size
/// of zero, a destination or an intended count that is not whole pages, or
/// more reported than intended. Otherwise the page size and the check
/// `uffd_fix_start` plans for it.
pub fn uffd_fix_plan(dest: usize, moved_reported: usize, moved_intended: usize) -> (r: Option<
    (usize, Option<(usize, usize)>),
>)
    ensures
        r matches Some((ps, plan)) ==> {
            &&& ps > 0
            &&& moved_intended % ps == 0
            &&& dest % ps == 0
            &&& moved_reported <= moved_intended
            &&& moved_intended == moved_reported ==> plan is None
            &&& moved_intended != moved_reported ==> (plan matches Some((s, n)) && {
                &&& s % ps == 0
                &&& moved_reported <= s < moved_reported + ps
                &&& s <= moved_intended
                &&& n == moved_intended - s
            })
        },
        moved_reported > moved_intended ==> r is None,
{
    let ps = system_page_size();
    if ps == 0 || moved_intended % ps != 0 || dest % ps != 0 || moved_reported > moved_intended {
        return None;
    }
    Some((ps, uffd_fix_start(dest, moved_reported, moved_intended, ps)))
}

/// The corrected count: the rounded report plus one page for each leading
/// resident page after it.
pub fn uffd_fix_moved(start: usize, page_size: usize, residency: &Vec<u8>) -> (r: usize)
    requires
        start + page_size * residency@.len() <= usize::MAX,
    ensures
        r == start + page_size * leading_present(residency@),
        start <= r <= start + page_size * residency@.len(),
{
    let mut moved = start;
    let mut i: usize = 0;
    proof {
        assert(residency@.subrange(0, residency@.len() as int) =~= residency@);
        lemma_leading_present_bound(residency@);
        assert(page_size * leading_present(residency@) <= page_size * residency@.len()) by (nonlinear_arith)
            requires
                leading_present(residency@) <= residency@.len(),
        ;
    }
    while i < residency.len()
        invariant
            i <= residency@.len(),
            moved == start + page_size * i,
            leading_present(residency@) == i + leading_present(residency@.subrange(i as int, residency@.len() as int)),
            start + page_size * residency@.len() <= usize::MAX,
        decreases residency@.len() - i,
    {
        let ghost rest = residency@.subrange(i as int, residency@.len() as int);
        if residency[i] & 1 == 0 {
            assert(rest[0] == residency[i as int]);
            assert(page_size * i <= page_size * residency@.len()) by (nonlinear_arith)
                requires
                    i <= residency@.len(),
            ;
            return moved;
        }
        proof {
            assert(rest[0] == residency[i as int]);
            assert(rest.drop_first() =~= residency@.subrange(i + 1, residency@.len() as int));
            assert(page_size * (i + 1) <= page_size * residency@.len()) by (nonlinear_arith)
                requires
                    i + 1 <= residency@.len(),
            ;
            assert(page_size * (i + 1) == page_size * i + page_size) by (nonlinear_arith);
        }
        moved = moved + page_size;
        i = i + 1;
    }
    assert(residency@.subrange(i as int, residency@.len() as int) =~= Seq::<u8>::empty());
    moved
}

proof fn lemma_leading_present_bound(s: Seq<u8>)
    ensures
        leading_present(s) <= s.len(),
    decreases s.len(),
{
    if s.len() > 0 {
        lemma_leading_present_bound(s.drop_first());
    }
}

} // verus!
