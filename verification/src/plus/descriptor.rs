use vstd::prelude::*;

verus! {

/// Layout of an object as the collector needs it: where the pointers are
/// and how big it is.
pub struct Descriptor {
    /// Byte offsets of the pointer fields inside the object.
    pub fields: Vec<usize>,
    /// Descriptors of nested fields, with the offset each field starts at;
    /// these supplement `fields`.
    pub unflattened: Vec<(usize, Descriptor)>,
    pub size: usize,
}

/// Byte offsets of every pointer an object described by `d` holds: its own
/// fields, then those of each nested field shifted by the field's offset.
pub open spec fn pointer_offsets(d: Descriptor) -> Seq<usize>
    decreases d,
{
    d.fields@ + nested_offsets(d.unflattened@)
}

/// Byte offsets of the pointers in the nested fields `n`, in order.
pub open spec fn nested_offsets(n: Seq<(usize, Descriptor)>) -> Seq<usize>
    decreases n,
{
    if n.len() == 0 {
        Seq::empty()
    } else {
        nested_offsets(n.drop_last()) + shifted(pointer_offsets(n.last().1), n.last().0)
    }
}

/// Each offset of `s` moved by `shift`, wrapping around the address space.
pub open spec fn shifted(s: Seq<usize>, shift: usize) -> Seq<usize> {
    s.map_values(|o: usize| o.wrapping_add(shift))
}

proof fn lemma_wrapping_assoc(o: usize, a: usize, b: usize)
    ensures
        o.wrapping_add(a).wrapping_add(b) == o.wrapping_add(a.wrapping_add(b)),
{
}

proof fn lemma_shifted_twice(s: Seq<usize>, a: usize, b: usize)
    ensures
        shifted(shifted(s, a), b) == shifted(s, a.wrapping_add(b)),
{
    assert forall|i: int| 0 <= i < s.len() implies #[trigger] shifted(shifted(s, a), b)[i]
        == shifted(s, a.wrapping_add(b))[i] by {
        lemma_wrapping_assoc(s[i], a, b);
    }
    assert(shifted(shifted(s, a), b) =~= shifted(s, a.wrapping_add(b)));
}

proof fn lemma_shifted_concat(s: Seq<usize>, t: Seq<usize>, a: usize)
    ensures
        shifted(s + t, a) == shifted(s, a) + shifted(t, a),
{
    assert(shifted(s + t, a) =~= shifted(s, a) + shifted(t, a));
}

/// Number of pointers in the nested fields `n`: the sum of their own
/// pointer counts.
pub open spec fn nested_count(n: Seq<(usize, Descriptor)>) -> nat
    decreases n.len(),
{
    if n.len() == 0 {
        0
    } else {
        nested_count(n.drop_last()) + pointer_offsets(n.last().1).len()
    }
}

proof fn lemma_nested_has(n: Seq<(usize, Descriptor)>, k: int, i: int)
    requires
        0 <= k < n.len(),
        0 <= i < pointer_offsets(n[k].1).len(),
    ensures
        nested_offsets(n).contains(pointer_offsets(n[k].1)[i].wrapping_add(n[k].0)),
    decreases n.len(),
{
    let rest = nested_offsets(n.drop_last());
    let last = shifted(pointer_offsets(n.last().1), n.last().0);
    assert(nested_offsets(n) == rest + last);
    if k == n.len() - 1 {
        assert((rest + last)[rest.len() + i] == last[i]);
    } else {
        lemma_nested_has(n.drop_last(), k, i);
        assert(n.drop_last()[k] == n[k]);
        let j = choose|j: int| 0 <= j < rest.len() && rest[j] == pointer_offsets(n[k].1)[i].wrapping_add(n[k].0);
        assert((rest + last)[j] == rest[j]);
    }
}

proof fn lemma_nested_len(n: Seq<(usize, Descriptor)>)
    ensures
        nested_offsets(n).len() == nested_count(n),
    decreases n.len(),
{
    if n.len() > 0 {
        lemma_nested_len(n.drop_last());
    }
}

/// Flattening reports every pointer of a layout: each of its own pointer
/// fields, and every pointer of every nested field moved by the offset the
/// nested field starts at; and nothing more, counting each once per place it
/// is described.
pub proof fn lemma_every_pointer_reported(d: Descriptor)
    ensures
        forall|i: int| 0 <= i < d.fields@.len() ==> pointer_offsets(d).contains(#[trigger] d.fields@[i]),
        forall|k: int, i: int|
            0 <= k < d.unflattened@.len() && 0 <= i < pointer_offsets(d.unflattened@[k].1).len()
                ==> pointer_offsets(d).contains(
                #[trigger] pointer_offsets(d.unflattened@[k].1)[i].wrapping_add(d.unflattened@[k].0),
            ),
        pointer_offsets(d).len() == d.fields@.len() + nested_count(d.unflattened@),
{
    let f = d.fields@;
    let n = nested_offsets(d.unflattened@);
    assert(pointer_offsets(d) == f + n);
    assert forall|i: int| 0 <= i < f.len() implies pointer_offsets(d).contains(#[trigger] f[i]) by {
        assert((f + n)[i] == f[i]);
    }
    assert forall|k: int, i: int|
        0 <= k < d.unflattened@.len() && 0 <= i < pointer_offsets(d.unflattened@[k].1).len()
            implies pointer_offsets(d).contains(
        #[trigger] pointer_offsets(d.unflattened@[k].1)[i].wrapping_add(d.unflattened@[k].0),
    ) by {
        lemma_nested_has(d.unflattened@, k, i);
        let x = pointer_offsets(d.unflattened@[k].1)[i].wrapping_add(d.unflattened@[k].0);
        let j = choose|j: int| 0 <= j < n.len() && n[j] == x;
        assert((f + n)[f.len() + j] == n[j]);
    }
    lemma_nested_len(d.unflattened@);
}

impl Descriptor {
    /// A flat descriptor: pointer offsets and size.
    pub fn new(fields: Vec<usize>, size: usize) -> (r: Self)
        ensures
            r.fields@ == fields@,
            r.size == size,
            r.unflattened@.len() == 0,
    {
        Descriptor { fields, size, unflattened: Vec::new() }
    }

    /// A descriptor whose nested fields are described separately.
    pub fn new_unflattened(
        fields: Vec<usize>,
        size: usize,
        unflattened: Vec<(usize, Descriptor)>,
    ) -> (r: Self)
        ensures
            r.fields@ == fields@,
            r.size == size,
            r.unflattened@ == unflattened@,
    {
        Descriptor { fields, size, unflattened }
    }

    /// Appends the byte offsets of every pointer an object described by
    /// `self` holds, shifted by `shift`.
    pub fn push_pointer_offsets(&self, shift: usize, out: &mut Vec<usize>)
        ensures
            final(out)@ == old(out)@ + shifted(pointer_offsets(*self), shift),
        decreases self,
    {
        let ghost start = out@;
        let mut i: usize = 0;
        while i < self.fields.len()
            invariant
                i <= self.fields@.len(),
                out@ == start + shifted(self.fields@.subrange(0, i as int), shift),
            decreases self.fields@.len() - i,
        {
            out.push(self.fields[i].wrapping_add(shift));
            i = i + 1;
            assert(out@ =~= start + shifted(self.fields@.subrange(0, i as int), shift));
        }
        assert(self.fields@.subrange(0, self.fields@.len() as int) =~= self.fields@);
        let ghost mid = out@;
        let mut j: usize = 0;
        while j < self.unflattened.len()
            invariant
                j <= self.unflattened@.len(),
                mid == start + shifted(self.fields@, shift),
                out@ == mid + shifted(nested_offsets(self.unflattened@.subrange(0, j as int)), shift),
            decreases self.unflattened@.len() - j,
        {
            let ghost before = out@;
            let entry = &self.unflattened[j];
            let inner_shift = entry.0.wrapping_add(shift);
            assert(decreases_to!(*self => self.unflattened@[j as int].1));
            entry.1.push_pointer_offsets(inner_shift, out);
            proof {
                let n = self.unflattened@.subrange(0, j + 1);
                assert(n.drop_last() =~= self.unflattened@.subrange(0, j as int));
                assert(n.last() == self.unflattened@[j as int]);
                lemma_shifted_twice(pointer_offsets(entry.1), entry.0, shift);
                lemma_shifted_concat(
                    nested_offsets(self.unflattened@.subrange(0, j as int)),
                    shifted(pointer_offsets(entry.1), entry.0),
                    shift,
                );
                assert(out@ =~= mid + shifted(nested_offsets(n), shift));
            }
            j = j + 1;
        }
        proof {
            assert(self.unflattened@.subrange(0, self.unflattened@.len() as int)
                =~= self.unflattened@);
            lemma_shifted_concat(self.fields@, nested_offsets(self.unflattened@), shift);
            assert(out@ =~= start + shifted(pointer_offsets(*self), shift));
        }
    }
}

} // verus!
