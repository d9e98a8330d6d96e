//! Moving live objects to the places a cycle decided for them.

use vstd::prelude::*;

verus! {

/// One object to move: `size` bytes at offset `src` of the from-space go
/// to offset `dest` of the compacted heap.
#[derive(Clone, Copy, Debug, PartialEq, Eq, Structural)]
pub struct RelocationRecord {
    pub src: usize,
    pub dest: usize,
    pub size: usize,
}

/// Whether the record's source and destination lie inside spaces of
/// `src_len` and `dest_len` bytes.
pub open spec fn record_fits(r: RelocationRecord, src_len: int, dest_len: int) -> bool {
    &&& r.src + r.size <= src_len
    &&& r.dest + r.size <= dest_len
}

/// Whether byte `k` of the compacted heap is one the record writes.
pub open spec fn covers(r: RelocationRecord, k: int) -> bool {
    r.dest <= k < r.dest + r.size
}

/// Whether the two records write disjoint ranges of the compacted heap.
pub open spec fn dest_disjoint(a: RelocationRecord, b: RelocationRecord) -> bool {
    a.dest + a.size <= b.dest || b.dest + b.size <= a.dest
}

/// `dest` with the bytes of one record copied in from `src`.
pub open spec fn copy_record(dest: Seq<u8>, src: Seq<u8>, r: RelocationRecord) -> Seq<u8> {
    Seq::new(
        dest.len(),
        |k: int|
            if covers(r, k) {
                src[r.src + (k - r.dest)]
            } else {
                dest[k]
            },
    )
}

/// `dest` with the bytes of every record copied in from `src`, in order.
pub open spec fn copy_records(dest: Seq<u8>, src: Seq<u8>, records: Seq<RelocationRecord>) -> Seq<
    u8,
>
    decreases records.len(),
{
    if records.len() == 0 {
        dest
    } else {
        copy_record(copy_records(dest, src, records.drop_last()), src, records.last())
    }
}

/// Copies live objects to their new places once a cycle has decided them.
pub struct Copier {}

/// A copier that has done its copying and holds the records it used, until
/// the cycle takes them back.
pub struct CopierActive {
    state: Copier,
    records: Vec<RelocationRecord>,
}

impl Copier {
    pub fn new() -> (r: Self) {
        Copier {}
    }

    /// Copies the bytes of every record from `from_space` into `heap`, the
    /// compacted heap, in the order of the records.
    pub fn start(self, heap: &mut Vec<u8>, from_space: &[u8], records: Vec<RelocationRecord>) -> (r:
        CopierActive)
        requires
            forall|i: int|
                0 <= i < records@.len() ==> record_fits(
                    #[trigger] records@[i],
                    from_space@.len() as int,
                    old(heap)@.len() as int,
                ),
        ensures
            final(heap)@ == copy_records(old(heap)@, from_space@, records@),
            r.records()@ == records@,
    {
        let mut i: usize = 0;
        while i < records.len()
            invariant
                i <= records@.len(),
                heap@.len() == old(heap)@.len(),
                heap@ == copy_records(old(heap)@, from_space@, records@.subrange(0, i as int)),
                forall|j: int|
                    0 <= j < records@.len() ==> record_fits(
                        #[trigger] records@[j],
                        from_space@.len() as int,
                        old(heap)@.len() as int,
                    ),
            decreases records@.len() - i,
        {
            let record = records[i];
            assert(record_fits(records@[i as int], from_space@.len() as int, old(heap)@.len() as int));
            let ghost before = heap@;
            let src_len = from_space.len();
            let dest_len = heap.len();
            let mut k: usize = 0;
            while k < record.size
                invariant
                    k <= record.size,
                    src_len == from_space@.len(),
                    dest_len == heap@.len(),
                    record.src + record.size <= from_space@.len(),
                    record.dest + record.size <= heap@.len(),
                    heap@.len() == before.len(),
                    forall|p: int|
                        0 <= p < heap@.len() ==> #[trigger] heap@[p] == if record.dest <= p
                            < record.dest + k {
                            from_space@[record.src + (p - record.dest)]
                        } else {
                            before[p]
                        },
                decreases record.size - k,
            {
                heap.set(record.dest + k, from_space[record.src + k]);
                k = k + 1;
            }
            proof {
                let s = records@.subrange(0, i + 1);
                assert(s.drop_last() =~= records@.subrange(0, i as int));
                assert(heap@ =~= copy_record(before, from_space@, record));
            }
            i = i + 1;
        }
        proof {
            assert(records@.subrange(0, i as int) =~= records@);
        }
        CopierActive { state: self, records }
    }
}

impl CopierActive {
    pub closed spec fn records(self) -> Vec<RelocationRecord> {
        self.records
    }

    /// Ends the copying: the records and the copier, for the next cycle.
    pub fn finish(self) -> (r: (Vec<RelocationRecord>, Copier))
        ensures
            r.0@ == self.records()@,
    {
        (self.records, self.state)
    }
}

/// Copying keeps the length of the heap.
pub proof fn lemma_copy_records_len(dest: Seq<u8>, src: Seq<u8>, records: Seq<RelocationRecord>)
    ensures
        copy_records(dest, src, records).len() == dest.len(),
    decreases records.len(),
{
    if records.len() > 0 {
        lemma_copy_records_len(dest, src, records.drop_last());
    }
}

/// When no two records write the same byte, every object lands whole at
/// its new place: byte `k` of record `i` in the compacted heap is byte `k`
/// of the object in the from-space.
pub proof fn lemma_copied_object_lands(
    dest: Seq<u8>,
    src: Seq<u8>,
    records: Seq<RelocationRecord>,
    i: int,
    k: int,
)
    requires
        forall|j: int|
            0 <= j < records.len() ==> record_fits(
                #[trigger] records[j],
                src.len() as int,
                dest.len() as int,
            ),
        forall|a: int, b: int|
            0 <= a < b < records.len() ==> dest_disjoint(#[trigger] records[a], #[trigger] records[b]),
        0 <= i < records.len(),
        0 <= k < records[i].size,
    ensures
        copy_records(dest, src, records)[records[i].dest + k] == src[records[i].src + k],
    decreases records.len(),
{
    let n = records.len();
    let p = records[i].dest + k;
    let prev = copy_records(dest, src, records.drop_last());
    lemma_copy_records_len(dest, src, records.drop_last());
    assert(records[i] == records[i]);
    if i == n - 1 {
        assert(covers(records.last(), p));
    } else {
        assert(dest_disjoint(records[i], records[n - 1]));
        assert(!covers(records[n - 1], p));
        let rest = records.drop_last();
        assert forall|j: int| 0 <= j < rest.len() implies record_fits(
            #[trigger] rest[j],
            src.len() as int,
            dest.len() as int,
        ) by {
            assert(rest[j] == records[j]);
        }
        assert forall|a: int, b: int|
            0 <= a < b < rest.len() implies dest_disjoint(#[trigger] rest[a], #[trigger] rest[b]) by {
            assert(rest[a] == records[a] && rest[b] == records[b]);
        }
        lemma_copied_object_lands(dest, src, rest, i, k);
    }
}

} // verus!
