//! The registry of object types: the collector's payload for user data is
//! a type id, whose two bottom bits tell how to find the type's layout.
//!
//! * `0b00`: a static type; the id is the address of its descriptor.
//! * `0b01`: an array of references; the length sits above the two bits.
//! * `0b10`: a type registered at run time.

use std::collections::HashMap;

use vstd::prelude::*;
use vstd::std_specs::iter::IteratorSpec;

use crate::object::{ObjectPtr, METADATA_SIZE};
use crate::plus::descriptor::{pointer_offsets, shifted, Descriptor};
use crate::type_manager::TypeManager;

verus! {

/// Number of low bits of a type id that hold its kind.
pub const PAYLOAD_SHIFT: u64 = 2;

/// Mask of the kind bits of a type id.
pub const TYPE_TYPE_MASK: u64 = 0b11;

#[derive(Clone, Copy, Debug, PartialEq, Eq, Structural)]
pub struct TypeId(pub u64);

impl TypeId {
    /// The type id of a static type: the address of its descriptor, whose
    /// two bottom bits must be clear.
    pub fn from_descriptor(addr: usize) -> (r: TypeId)
        requires
            addr % 4 == 0,
        ensures
            r.0 == addr,
    {
        TypeId(addr as u64)
    }
}

/// A type registered at run time. Types start out dead at registration and
/// stay registered until a wipe finds them dead.
pub struct DescriptorEntry {
    pub marked_dead: bool,
    pub descriptor: Descriptor,
}

/// The layout of a type, as the registry finds it.
pub enum TypeInfo<'a> {
    StaticallyKnown(&'a Descriptor),
    RefArray(usize),
    DynamicallyKnown(&'a Descriptor),
}

/// Size in bytes of a pointer.
pub open spec fn ptr_bytes() -> nat {
    (usize::BITS / 8) as nat
}

impl<'a> TypeInfo<'a> {
    /// Size in bytes of objects of this type, excluding metadata.
    pub open spec fn size_spec(self) -> int {
        match self {
            TypeInfo::RefArray(len) => len * ptr_bytes(),
            TypeInfo::DynamicallyKnown(desc) => desc.size as int,
            TypeInfo::StaticallyKnown(desc) => desc.size as int,
        }
    }

    /// Byte offsets of the pointer fields of objects of this type: the
    /// descriptor's, or, for a reference array of `len` entries, entry `i`
    /// at `i` times the size of a pointer, for `i` in `0..len`.
    pub open spec fn offsets_spec(self) -> Seq<usize> {
        match self {
            TypeInfo::RefArray(len) => Seq::new(len as nat, |i: int| ref_offset(i as usize)),
            TypeInfo::DynamicallyKnown(desc) => pointer_offsets(*desc),
            TypeInfo::StaticallyKnown(desc) => pointer_offsets(*desc),
        }
    }

    pub fn get_size(&self) -> (r: usize)
        requires
            self.size_spec() <= usize::MAX,
        ensures
            r == self.size_spec(),
    {
        match self {
            TypeInfo::RefArray(len) => *len * (usize::BITS / 8) as usize,
            TypeInfo::DynamicallyKnown(desc) => desc.size,
            TypeInfo::StaticallyKnown(desc) => desc.size,
        }
    }

    /// Walks the byte offsets of the pointer fields.
    pub fn iter_pointers(&self) -> (r: PointerIterator)
        ensures
            r.wf(),
            r.remaining() == self.offsets_spec(),
    {
        PointerIterator::from_type_info(self)
    }
}

/// Byte offset of entry `i` of a reference array: `i` pointers in, wrapping
/// around the address space as the address arithmetic does.
pub open spec fn ref_offset(i: usize) -> usize {
    i.wrapping_mul((usize::BITS / 8) as usize)
}

/// Walks the byte offsets of the pointer fields of a type: those a
/// descriptor lists, or the range of a reference array.
pub enum PointerIterator {
    Listed(Vec<usize>, usize),
    Range(usize, usize),
}

impl PointerIterator {
    /// The offsets still to come.
    pub open spec fn remaining(self) -> Seq<usize> {
        match self {
            PointerIterator::Listed(v, pos) => v@.subrange(pos as int, v@.len() as int),
            PointerIterator::Range(cur, end) => Seq::new(
                (if cur <= end {
                    end - cur
                } else {
                    0
                }) as nat,
                |i: int| ref_offset((cur + i) as usize),
            ),
        }
    }

    pub open spec fn wf(self) -> bool {
        self matches PointerIterator::Listed(v, pos) ==> pos <= v@.len()
    }

    pub fn from_type_info(info: &TypeInfo) -> (r: Self)
        ensures
            r.wf(),
            r.remaining() == info.offsets_spec(),
    {
        match info {
            TypeInfo::DynamicallyKnown(desc) => {
                let mut offsets: Vec<usize> = Vec::new();
                desc.push_pointer_offsets(0, &mut offsets);
                proof {
                    assert forall|i: int| 0 <= i < offsets@.len() implies #[trigger] offsets@[i]
                        == pointer_offsets(**desc)[i] by {
                        assert(pointer_offsets(**desc)[i].wrapping_add(0) == pointer_offsets(
                            **desc,
                        )[i]);
                    }
                    assert(offsets@.subrange(0, offsets@.len() as int) =~= pointer_offsets(
                        **desc,
                    ));
                }
                PointerIterator::Listed(offsets, 0)
            },
            TypeInfo::StaticallyKnown(desc) => {
                let mut offsets: Vec<usize> = Vec::new();
                desc.push_pointer_offsets(0, &mut offsets);
                proof {
                    assert forall|i: int| 0 <= i < offsets@.len() implies #[trigger] offsets@[i]
                        == pointer_offsets(**desc)[i] by {
                        assert(pointer_offsets(**desc)[i].wrapping_add(0) == pointer_offsets(
                            **desc,
                        )[i]);
                    }
                    assert(offsets@.subrange(0, offsets@.len() as int) =~= pointer_offsets(
                        **desc,
                    ));
                }
                PointerIterator::Listed(offsets, 0)
            },
            TypeInfo::RefArray(len) => {
                let r = PointerIterator::Range(0, *len);
                assert(r.remaining() =~= info.offsets_spec());
                r
            },
        }
    }

    /// The next offset, if any.
    pub fn next(&mut self) -> (r: Option<usize>)
        requires
            old(self).wf(),
        ensures
            final(self).wf(),
            old(self).remaining().len() == 0 ==> r is None && final(self).remaining().len() == 0,
            old(self).remaining().len() > 0 ==> {
                &&& r == Some(old(self).remaining()[0])
                &&& final(self).remaining() == old(self).remaining().drop_first()
            },
    {
        match self {
            PointerIterator::Listed(v, pos) => {
                if *pos < v.len() {
                    let x = v[*pos];
                    *pos = *pos + 1;
                    proof {
                        assert(final(self).remaining() =~= old(self).remaining().drop_first());
                    }
                    Some(x)
                } else {
                    None
                }
            },
            PointerIterator::Range(cur, end) => {
                if *cur < *end {
                    let x = (*cur).wrapping_mul((usize::BITS / 8) as usize);
                    *cur = *cur + 1;
                    proof {
                        assert(final(self).remaining() =~= old(self).remaining().drop_first());
                    }
                    Some(x)
                } else {
                    None
                }
            },
        }
    }
}

/// The type registry: static descriptors, known by their addresses, and
/// types registered at run time, under ids handed out in increasing order.
pub struct Types {
    latest_id: u64,
    dynamic_types: HashMap<u64, DescriptorEntry>,
    static_types: Vec<(usize, Descriptor)>,
}

/// The id of the run-time type registered with counter value `counter`:
/// the counter above the kind bits `0b10`.
pub open spec fn dynamic_id(counter: u64) -> u64 {
    (counter * 4 + 2) as u64
}

/// `id` is the id of a run-time type registered before the counter reached
/// `latest`.
pub open spec fn id_below(id: u64, latest: u64) -> bool {
    id % 4 == 2 && id / 4 < latest
}

/// A run-time type id carries the kind bits `0b10`.
proof fn lemma_dynamic_id_tag(counter: u64)
    requires
        counter < 0x4000_0000_0000_0000,
    ensures
        dynamic_id(counter) == counter * 4 + 2,
        dynamic_id(counter) & 3u64 == 2u64,
        id_below(dynamic_id(counter), (counter + 1) as u64),
{
    let id: u64 = (counter * 4 + 2) as u64;
    assert(id & 3u64 == 2u64) by (bit_vector)
        requires
            counter < 0x4000_0000_0000_0000u64,
            id == counter * 4 + 2,
    ;
}

/// Whether `m` holds an entry with id `id`.
pub open spec fn has_entry(m: Map<u64, DescriptorEntry>, id: u64) -> bool {
    m.contains_key(id)
}

/// The entries of `m`, each marked dead.
pub open spec fn all_dead(m: Map<u64, DescriptorEntry>) -> Map<u64, DescriptorEntry> {
    Map::new(|k: u64| m.contains_key(k), |k: u64| DescriptorEntry { marked_dead: true, ..m[k] })
}

/// The entries of `m` that are not marked dead.
pub open spec fn alive_entries(m: Map<u64, DescriptorEntry>) -> Map<u64, DescriptorEntry> {
    Map::new(|k: u64| m.contains_key(k) && !m[k].marked_dead, |k: u64| m[k])
}

/// Whether `s` holds a static descriptor at address `addr`.
pub open spec fn has_static(s: Seq<(usize, Descriptor)>, addr: usize) -> bool {
    exists|i: int| 0 <= i < s.len() && (#[trigger] s[i]).0 == addr
}

/// The static descriptor at `addr` in `s`.
pub open spec fn static_of(s: Seq<(usize, Descriptor)>, addr: usize) -> Descriptor {
    s[choose|i: int| 0 <= i < s.len() && (#[trigger] s[i]).0 == addr].1
}

impl Types {
    /// The next id `register` hands out.
    pub closed spec fn latest(self) -> u64 {
        self.latest_id
    }

    /// The types registered at run time, by id.
    pub closed spec fn entries(self) -> Map<u64, DescriptorEntry> {
        self.dynamic_types@
    }

    /// The static descriptors and their addresses.
    pub closed spec fn statics(self) -> Seq<(usize, Descriptor)> {
        self.static_types@
    }

    /// Ids are unique and below the next id; static addresses are unique,
    /// non-null and four-byte aligned.
    pub open spec fn wf(self) -> bool {
        &&& forall|id: u64| #[trigger] self.entries().contains_key(id) ==> id_below(id, self.latest())
        &&& forall|i: int, j: int|
            0 <= i < j < self.statics().len() ==> (#[trigger] self.statics()[i]).0 != (
            #[trigger] self.statics()[j]).0
        &&& forall|i: int|
            0 <= i < self.statics().len() ==> (#[trigger] self.statics()[i]).0 != 0 && self.statics()[i].0
                % 4 == 0
    }

    /// Whether `get_type` accepts `type_id`: its kind bits are not `0b11`,
    /// a static id names a known descriptor, and a reference array's length
    /// is representable.
    pub open spec fn accepts(self, type_id: u64) -> bool {
        let tag = type_id & 3u64;
        &&& tag != 3u64
        &&& tag == 0u64 ==> type_id <= usize::MAX && has_static(self.statics(), type_id as usize)
        &&& tag == 1u64 ==> (type_id >> 2u64) <= usize::MAX
    }

    /// Whether `get_type` finds a layout for `type_id`.
    pub open spec fn finds(self, type_id: u64) -> bool {
        let tag = type_id & 3u64;
        tag == 2u64 ==> has_entry(self.entries(), type_id)
    }

    /// Size in bytes of objects of an accepted, found `type_id`.
    pub open spec fn size_of_type(self, type_id: u64) -> int {
        let tag = type_id & 3u64;
        if tag == 0u64 {
            static_of(self.statics(), type_id as usize).size as int
        } else if tag == 1u64 {
            (type_id >> 2u64) * ptr_bytes()
        } else {
            self.entries()[type_id].descriptor.size as int
        }
    }

    /// Byte offsets of the pointer fields of objects of an accepted, found
    /// `type_id`.
    pub open spec fn offsets_of_type(self, type_id: u64) -> Seq<usize> {
        let tag = type_id & 3u64;
        if tag == 0u64 {
            pointer_offsets(static_of(self.statics(), type_id as usize))
        } else if tag == 1u64 {
            Seq::new((type_id >> 2u64) as nat, |i: int| ref_offset(i as usize))
        } else {
            pointer_offsets(self.entries()[type_id].descriptor)
        }
    }

    pub fn new() -> (r: Self)
        ensures
            r.wf(),
            r.latest() == 0,
            r.entries() == Map::<u64, DescriptorEntry>::empty(),
            r.statics().len() == 0,
    {
        broadcast use vstd::std_specs::hash::group_hash_axioms;

        Types { latest_id: 0, dynamic_types: HashMap::new(), static_types: Vec::new() }
    }

    /// Makes the descriptor at `addr` known, and returns its type id.
    pub fn register_static(&mut self, addr: usize, descriptor: Descriptor) -> (r: TypeId)
        requires
            old(self).wf(),
            addr != 0,
            addr % 4 == 0,
            !has_static(old(self).statics(), addr),
        ensures
            final(self).wf(),
            r.0 == addr,
            final(self).latest() == old(self).latest(),
            final(self).entries() == old(self).entries(),
            final(self).statics() == old(self).statics().push((addr, descriptor)),
    {
        self.static_types.push((addr, descriptor));
        proof {
            assert forall|k: u64| #[trigger] self.entries().contains_key(k) implies id_below(
                k,
                self.latest(),
            ) by {
                assert(old(self).entries().contains_key(k));
            }
            let s = self.statics();
            let o = old(self).statics();
            assert forall|i: int, j: int| 0 <= i < j < s.len() implies (#[trigger] s[i]).0 != (
            #[trigger] s[j]).0 by {
                if j == s.len() - 1 {
                    assert(o[i] == s[i]);
                    assert(o[i].0 != addr);
                } else {
                    assert(o[i] == s[i] && o[j] == s[j]);
                }
            }
            assert forall|i: int| 0 <= i < s.len() implies (#[trigger] s[i]).0 != 0 && s[i].0 % 4
                == 0 by {
                if i < s.len() - 1 {
                    assert(o[i] == s[i]);
                }
            }
        }
        TypeId::from_descriptor(addr)
    }

    /// Registers a type under the next id, which carries the kind bits
    /// `0b10` of a run-time type. The type starts out dead, so a wipe removes
    /// it unless it is marked alive first. Ids run out once the counter no
    /// longer fits above the kind bits.
    pub fn register(&mut self, descriptor: Descriptor) -> (r: TypeId)
        requires
            old(self).wf(),
            old(self).latest() < 0x4000_0000_0000_0000,
        ensures
            final(self).wf(),
            r.0 == dynamic_id(old(self).latest()),
            r.0 & 3u64 == 2u64,
            !has_entry(old(self).entries(), r.0),
            final(self).latest() == old(self).latest() + 1,
            final(self).statics() == old(self).statics(),
            final(self).entries() == old(self).entries().insert(
                r.0,
                DescriptorEntry { marked_dead: true, descriptor },
            ),
    {
        broadcast use vstd::std_specs::hash::group_hash_axioms;

        let counter = self.latest_id;
        let id = counter * 4 + 2;
        proof {
            lemma_dynamic_id_tag(counter);
            if old(self).entries().contains_key(id) {
                assert(id_below(id, counter));
            }
        }
        self.latest_id = counter + 1;
        self.dynamic_types.insert(id, DescriptorEntry { marked_dead: true, descriptor });
        proof {
            lemma_statics_wf(*old(self), *self);
            assert forall|k: u64| #[trigger] self.entries().contains_key(k) implies id_below(
                k,
                self.latest(),
            ) by {
                if k != id {
                    assert(old(self).entries().contains_key(k));
                }
            }
        }
        TypeId(id)
    }

    /// Index of the static descriptor at `addr`, if any.
    fn find_static(&self, addr: usize) -> (r: Option<usize>)
        requires
            self.wf(),
        ensures
            r is Some <==> has_static(self.statics(), addr),
            r matches Some(i) ==> i < self.statics().len() && self.statics()[i as int].0 == addr
                && static_of(self.statics(), addr) == self.statics()[i as int].1,
    {
        let mut i: usize = 0;
        while i < self.static_types.len()
            invariant
                self.wf(),
                i <= self.static_types@.len(),
                forall|k: int| 0 <= k < i ==> (#[trigger] self.static_types@[k]).0 != addr,
            decreases self.static_types@.len() - i,
        {
            if self.static_types[i].0 == addr {
                proof {
                    let s = self.statics();
                    assert(s[i as int].0 == addr);
                    let c = choose|k: int| 0 <= k < s.len() && (#[trigger] s[k]).0 == addr;
                    assert(0 <= c < s.len() && s[c].0 == addr);
                    if c != i as int {
                        if c < i {
                            assert(s[c].0 != s[i as int].0);
                        } else {
                            assert(s[i as int].0 != s[c].0);
                        }
                    }
                }
                return Some(i);
            }
            i = i + 1;
        }
        None
    }

    /// The layout of `type_id`, told by its two bottom bits; `None` for a
    /// run-time type that is not registered.
    pub fn get_type(&self, type_id: TypeId) -> (r: Option<TypeInfo<'_>>)
        requires
            self.wf(),
            self.accepts(type_id.0),
        ensures
            r is Some <==> self.finds(type_id.0),
            r matches Some(info) ==> {
                &&& info.size_spec() == self.size_of_type(type_id.0)
                &&& info.offsets_spec() == self.offsets_of_type(type_id.0)
            },
    {
        let type_id = type_id.0;
        let type_type = type_id & TYPE_TYPE_MASK;
        assert(type_id & 3u64 <= 3u64) by (bit_vector);
        if type_type == 0 {
            let i = self.find_static(type_id as usize).unwrap();
            Some(TypeInfo::StaticallyKnown(&self.static_types[i].1))
        } else if type_type == 1 {
            let r = TypeInfo::RefArray((type_id >> PAYLOAD_SHIFT) as usize);
            assert(r.offsets_spec() =~= self.offsets_of_type(type_id));
            Some(r)
        } else {
            broadcast use vstd::std_specs::hash::group_hash_axioms;

            match self.dynamic_types.get(&type_id) {
                Some(entry) => Some(TypeInfo::DynamicallyKnown(&entry.descriptor)),
                None => None,
            }
        }
    }

    /// Whether `type_id` is accepted and found.
    fn knows_exec(&self, type_id: u64) -> (r: bool)
        requires
            self.wf(),
        ensures
            r == (self.accepts(type_id) && self.finds(type_id)),
    {
        let tag = type_id & TYPE_TYPE_MASK;
        assert(type_id & 3u64 <= 3u64) by (bit_vector);
        if tag == 3 {
            false
        } else if tag == 0 {
            if type_id > usize::MAX as u64 {
                false
            } else {
                self.find_static(type_id as usize).is_some()
            }
        } else if tag == 1 {
            (type_id >> PAYLOAD_SHIFT) <= usize::MAX as u64
        } else {
            broadcast use vstd::std_specs::hash::group_hash_axioms;

            self.dynamic_types.contains_key(&type_id)
        }
    }

    /// Addresses of the pointer fields of `object`, a known type.
    fn slots_of(&self, type_id: u64, object: ObjectPtr) -> (r: Vec<usize>)
        requires
            self.wf(),
            self.accepts(type_id),
            self.finds(type_id),
        ensures
            r@ == shifted(self.offsets_of_type(type_id), object.0.wrapping_add(METADATA_SIZE)),
    {
        let info = self.get_type(TypeId(type_id)).unwrap();
        let mut iter = info.iter_pointers();
        let data = object.0.wrapping_add(METADATA_SIZE);
        let ghost all = iter.remaining();
        let mut slots: Vec<usize> = Vec::new();
        loop
            invariant
                iter.wf(),
                data == object.0.wrapping_add(METADATA_SIZE),
                all == self.offsets_of_type(type_id),
                slots@.len() + iter.remaining().len() == all.len(),
                iter.remaining() == all.subrange(slots@.len() as int, all.len() as int),
                slots@ == shifted(all.subrange(0, slots@.len() as int), data),
            decreases iter.remaining().len(),
        {
            let ghost before = iter.remaining();
            match iter.next() {
                Some(offset) => {
                    proof {
                        assert(offset == all[slots@.len() as int]);
                    }
                    slots.push(offset.wrapping_add(data));
                    proof {
                        assert(slots@ =~= shifted(all.subrange(0, slots@.len() as int), data));
                        assert(iter.remaining() =~= all.subrange(
                            slots@.len() as int,
                            all.len() as int,
                        ));
                    }
                },
                None => {
                    proof {
                        assert(slots@.len() == all.len());
                        assert(all.subrange(0, slots@.len() as int) =~= all);
                        assert(slots@ == shifted(all, data));
                    }
                    return slots;
                },
            }
        }
    }
}

/// Every type registered at run time, and not wiped since, is found under
/// its id with its size and pointer fields: `get_type` after `register`.
pub proof fn lemma_registered_found(t: Types, id: u64)
    requires
        t.wf(),
        t.entries().contains_key(id),
    ensures
        t.accepts(id),
        t.finds(id),
        t.size_of_type(id) == t.entries()[id].descriptor.size,
        t.offsets_of_type(id) == pointer_offsets(t.entries()[id].descriptor),
{
    assert(id_below(id, t.latest()));
    assert(id & 3u64 == 2u64) by (bit_vector)
        requires
            id % 4 == 2,
    ;
}

/// The ids of the run-time types, each once.
fn entry_ids(m: &HashMap<u64, DescriptorEntry>) -> (r: Vec<u64>)
    ensures
        r@.to_set() == m@.dom(),
        r@.no_duplicates(),
{
    broadcast use vstd::std_specs::hash::group_hash_axioms;

    let ghost ks = IteratorSpec::remaining(&m.keys());
    let mut r: Vec<u64> = Vec::new();
    for k in it: m.keys()
        invariant
            it.seq() == ks,
            r@ == ks.take(it.index() as int).map_values(|x: &u64| *x),
    {
        r.push(*k);
    }
    proof {
        assert(r@ == ks.map_values(|x: &u64| *x));
        assert(ks.unref() == ks.map_values(|x: &u64| *x));
    }
    r
}

/// The static part of the registry's invariant carries over to a registry
/// with the same static descriptors.
proof fn lemma_statics_wf(a: Types, b: Types)
    requires
        a.wf(),
        a.statics() == b.statics(),
    ensures
        forall|i: int, j: int|
            0 <= i < j < b.statics().len() ==> (#[trigger] b.statics()[i]).0 != (
            #[trigger] b.statics()[j]).0,
        forall|i: int|
            0 <= i < b.statics().len() ==> (#[trigger] b.statics()[i]).0 != 0 && b.statics()[i].0
                % 4 == 0,
{
}

impl TypeManager for Types {
    open spec fn knows(&self, type_id: u64) -> bool {
        self.accepts(type_id) && self.finds(type_id)
    }

    open spec fn tracks(&self, type_id: u64) -> bool {
        has_entry(self.entries(), type_id)
    }

    open spec fn type_size(&self, type_id: u64) -> Option<usize> {
        if self.knows(type_id) && self.size_of_type(type_id) <= usize::MAX {
            Some(self.size_of_type(type_id) as usize)
        } else {
            None
        }
    }

    open spec fn pointer_slots(&self, type_id: u64, object: ObjectPtr) -> Seq<usize> {
        shifted(self.offsets_of_type(type_id), object.0.wrapping_add(METADATA_SIZE))
    }

    open spec fn inv(&self) -> bool {
        self.wf()
    }

    /// Marks every registered type dead.
    fn assume_all_dead(&mut self)
        ensures
            final(self).latest() == old(self).latest(),
            final(self).statics() == old(self).statics(),
            final(self).entries() == all_dead(old(self).entries()),
    {
        broadcast use vstd::std_specs::hash::group_hash_axioms;

        let ids = entry_ids(&self.dynamic_types);
        let ghost start = self.dynamic_types@;
        let mut i: usize = 0;
        while i < ids.len()
            invariant
                i <= ids@.len(),
                ids@.to_set() == start.dom(),
                ids@.no_duplicates(),
                start == old(self).entries(),
                self.latest_id == old(self).latest_id,
                self.static_types@ == old(self).static_types@,
                self.dynamic_types@.dom() == start.dom(),
                forall|k: u64|
                    #[trigger] start.contains_key(k) ==> self.dynamic_types@[k] == if ids@.take(
                        i as int,
                    ).contains(k) {
                        DescriptorEntry { marked_dead: true, ..start[k] }
                    } else {
                        start[k]
                    },
            decreases ids@.len() - i,
        {
            let id = ids[i];
            proof {
                assert(ids@.to_set().contains(id));
                assert(!ids@.take(i as int).contains(id)) by {
                    if ids@.take(i as int).contains(id) {
                        let j = choose|j: int| 0 <= j < i && #[trigger] ids@[j] == id;
                        assert(ids@[j] == ids@[i as int]);
                    }
                }
            }
            let mut entry = self.dynamic_types.remove(&id).unwrap();
            entry.marked_dead = true;
            self.dynamic_types.insert(id, entry);
            proof {
                assert forall|k: u64| #[trigger] start.contains_key(k) implies self.dynamic_types@[k]
                    == if ids@.take(i + 1).contains(k) {
                    DescriptorEntry { marked_dead: true, ..start[k] }
                } else {
                    start[k]
                } by {
                    if k == id {
                        assert(ids@.take(i + 1)[i as int] == id);
                    } else {
                        if ids@.take(i + 1).contains(k) {
                            let j = choose|j: int| 0 <= j < i + 1 && #[trigger] ids@.take(i + 1)[j] == k;
                            assert(ids@.take(i as int)[j] == k);
                        }
                        if ids@.take(i as int).contains(k) {
                            let j = choose|j: int| 0 <= j < i && #[trigger] ids@.take(i as int)[j] == k;
                            assert(ids@.take(i + 1)[j] == k);
                        }
                    }
                }
                assert(self.dynamic_types@.dom() =~= start.dom());
            }
            i = i + 1;
        }
        proof {
            assert(ids@.take(i as int) == ids@);
            assert forall|k: u64| start.contains_key(k) implies ids@.contains(k) by {
                assert(ids@.to_set().contains(k));
            }
            assert(self.dynamic_types@ =~= all_dead(start));
            lemma_statics_wf(*old(self), *self);
            assert forall|k: u64| #[trigger] self.entries().contains_key(k) implies id_below(
                k,
                self.latest(),
            ) by {
                assert(start.contains_key(k));
            }
        }
    }

    /// Marks the registered type `type_id` alive; returns whether it is
    /// registered. Static types and reference arrays are not tracked.
    fn set_alive(&mut self, type_id: u64) -> (r: bool)
        ensures
            final(self).latest() == old(self).latest(),
            final(self).statics() == old(self).statics(),
            r ==> final(self).entries() == old(self).entries().insert(
                type_id,
                DescriptorEntry { marked_dead: false, ..old(self).entries()[type_id] },
            ),
            !r ==> final(self).entries() == old(self).entries(),
    {
        broadcast use vstd::std_specs::hash::group_hash_axioms;

        match self.dynamic_types.remove(&type_id) {
            Some(mut entry) => {
                entry.marked_dead = false;
                self.dynamic_types.insert(type_id, entry);
                proof {
                    lemma_statics_wf(*old(self), *self);
                    assert forall|k: u64| #[trigger] self.entries().contains_key(k) implies id_below(
                        k,
                        self.latest(),
                    ) by {
                        assert(old(self).entries().contains_key(k));
                    }
                }
                true
            },
            None => {
                proof {
                    assert(self.dynamic_types@ =~= old(self).dynamic_types@);
                    lemma_statics_wf(*old(self), *self);
                    assert forall|k: u64| #[trigger] self.entries().contains_key(k) implies id_below(
                        k,
                        self.latest(),
                    ) by {
                        assert(old(self).entries().contains_key(k));
                    }
                }
                false
            },
        }
    }

    /// Removes the registered types that are marked dead.
    fn wipe_deads(&mut self)
        ensures
            final(self).latest() == old(self).latest(),
            final(self).statics() == old(self).statics(),
            final(self).entries() == alive_entries(old(self).entries()),
    {
        broadcast use vstd::std_specs::hash::group_hash_axioms;

        let ids = entry_ids(&self.dynamic_types);
        let ghost start = self.dynamic_types@;
        let mut i: usize = 0;
        while i < ids.len()
            invariant
                i <= ids@.len(),
                ids@.to_set() == start.dom(),
                ids@.no_duplicates(),
                start == old(self).entries(),
                self.latest_id == old(self).latest_id,
                self.static_types@ == old(self).static_types@,
                forall|k: u64|
                    #[trigger] self.dynamic_types@.contains_key(k) <==> start.contains_key(k) && !(
                    ids@.take(i as int).contains(k) && start[k].marked_dead),
                forall|k: u64|
                    #[trigger] self.dynamic_types@.contains_key(k) ==> self.dynamic_types@[k]
                        == start[k],
            decreases ids@.len() - i,
        {
            let id = ids[i];
            proof {
                assert(ids@.to_set().contains(id));
                assert(!ids@.take(i as int).contains(id)) by {
                    if ids@.take(i as int).contains(id) {
                        let j = choose|j: int| 0 <= j < i && #[trigger] ids@[j] == id;
                        assert(ids@[j] == ids@[i as int]);
                    }
                }
                assert(self.dynamic_types@.contains_key(id));
            }
            let dead = self.dynamic_types.get(&id).unwrap().marked_dead;
            if dead {
                self.dynamic_types.remove(&id);
            }
            proof {
                assert forall|k: u64| #[trigger] self.dynamic_types@.contains_key(k)
                    <==> start.contains_key(k) && !(ids@.take(i + 1).contains(k)
                    && start[k].marked_dead) by {
                    if k == id {
                        assert(ids@.take(i + 1)[i as int] == id);
                    } else {
                        if ids@.take(i + 1).contains(k) {
                            let j = choose|j: int| 0 <= j < i + 1 && #[trigger] ids@.take(i + 1)[j] == k;
                            assert(ids@.take(i as int)[j] == k);
                        }
                        if ids@.take(i as int).contains(k) {
                            let j = choose|j: int| 0 <= j < i && #[trigger] ids@.take(i as int)[j] == k;
                            assert(ids@.take(i + 1)[j] == k);
                        }
                    }
                }
            }
            i = i + 1;
        }
        proof {
            assert(ids@.take(i as int) == ids@);
            assert forall|k: u64| start.contains_key(k) implies ids@.contains(k) by {
                assert(ids@.to_set().contains(k));
            }
            assert(self.dynamic_types@ =~= alive_entries(start));
            lemma_statics_wf(*old(self), *self);
            assert forall|k: u64| #[trigger] self.entries().contains_key(k) implies id_below(
                k,
                self.latest(),
            ) by {
                assert(start.contains_key(k));
            }
        }
    }

    fn iterate_gc_pointers(&self, type_id: u64, object: ObjectPtr) -> (r: Option<Vec<usize>>) {
        if self.knows_exec(type_id) {
            Some(self.slots_of(type_id, object))
        } else {
            None
        }
    }

    fn update_gc_pointers(&self, type_id: u64, object: ObjectPtr) -> (r: Option<Vec<usize>>) {
        if self.knows_exec(type_id) {
            Some(self.slots_of(type_id, object))
        } else {
            None
        }
    }

    fn get_size(&self, type_id: u64) -> (r: Option<usize>) {
        if !self.knows_exec(type_id) {
            return None;
        }
        let info = self.get_type(TypeId(type_id)).unwrap();
        match info {
            TypeInfo::RefArray(len) => {
                if len > usize::MAX / ((usize::BITS / 8) as usize) {
                    assert(len * ptr_bytes() > usize::MAX) by (nonlinear_arith)
                        requires
                            len > (usize::MAX as int) / (ptr_bytes() as int),
                            ptr_bytes() > 0,
                    ;
                    None
                } else {
                    assert(len * ptr_bytes() <= usize::MAX) by (nonlinear_arith)
                        requires
                            len <= (usize::MAX as int) / (ptr_bytes() as int),
                            ptr_bytes() > 0,
                    ;
                    Some(info.get_size())
                }
            },
            _ => Some(info.get_size()),
        }
    }
}

} // verus!
