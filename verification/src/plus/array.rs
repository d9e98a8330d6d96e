use vstd::prelude::*;

verus! {

/// The header of an array in the heap: its number of elements.
pub struct ArrayHeader {
    pub size: usize,
}

/// An array in the heap: a header, then the elements.
pub struct Array<T> {
    metadata: ArrayHeader,
    items: Vec<T>,
}

impl<T> Array<T> {
    /// The elements.
    pub closed spec fn items(self) -> Seq<T> {
        self.items@
    }

    /// Number of elements the header records.
    pub closed spec fn header_size(self) -> usize {
        self.metadata.size
    }

    /// The header tells the number of elements.
    pub open spec fn wf(self) -> bool {
        self.header_size() == self.items().len()
    }

    /// An array of the given elements.
    pub fn from_items(items: Vec<T>) -> (r: Self)
        ensures
            r.wf(),
            r.items() == items@,
    {
        Array { metadata: ArrayHeader { size: items.len() }, items }
    }

    pub fn len(&self) -> (r: usize)
        requires
            self.wf(),
        ensures
            r == self.items().len(),
    {
        self.metadata.size
    }

    pub fn get(&self, i: usize) -> (r: &T)
        requires
            self.wf(),
            i < self.items().len(),
        ensures
            *r == self.items()[i as int],
    {
        &self.items[i]
    }

    pub fn set(&mut self, i: usize, value: T)
        requires
            old(self).wf(),
            i < old(self).items().len(),
        ensures
            final(self).wf(),
            final(self).items() == old(self).items().update(i as int, value),
    {
        self.items.set(i, value);
    }

    /// Takes element `i` out, putting `value` in its place.
    pub fn replace(&mut self, i: usize, value: T) -> (r: T)
        requires
            old(self).wf(),
            i < old(self).items().len(),
        ensures
            final(self).wf(),
            r == old(self).items()[i as int],
            final(self).items() == old(self).items().update(i as int, value),
    {
        let r = self.items.remove(i);
        self.items.insert(i, value);
        r
    }
}

} // verus!
