//! A mark-sweep object manager: objects sit in a global list, threads
//! allocate into local chains that are flushed into the list, and a sweep
//! frees the objects that are not marked. Lists are kept head first.

use vstd::prelude::*;

verus! {

/// Returned when an allocation would reach the heap's maximum size.
#[derive(Debug, PartialEq, Eq, Structural)]
pub struct AllocError;

/// An object: its mark bit, the bytes it takes, header included, and the
/// data it holds.
#[derive(Debug)]
pub struct Object<T> {
    pub marked: bool,
    pub total_size: usize,
    pub data: T,
}

/// Moves the objects out of `v`, leaving it empty.
fn take_objects<T>(v: &mut Vec<Object<T>>) -> (r: Vec<Object<T>>)
    ensures
        r@ == old(v)@,
        final(v)@.len() == 0,
{
    let mut r: Vec<Object<T>> = Vec::new();
    std::mem::swap(&mut r, v);
    r
}

/// Bytes taken by the objects of `s`.
pub open spec fn bytes<T>(s: Seq<Object<T>>) -> nat
    decreases s.len(),
{
    if s.len() == 0 {
        0
    } else {
        bytes(s.drop_last()) + (s.last().total_size as nat)
    }
}

pub proof fn lemma_bytes_concat<T>(a: Seq<Object<T>>, b: Seq<Object<T>>)
    ensures
        bytes(a + b) == bytes(a) + bytes(b),
    decreases b.len(),
{
    if b.len() == 0 {
        assert(a + b =~= a);
    } else {
        assert((a + b).drop_last() =~= a + b.drop_last());
        lemma_bytes_concat(a, b.drop_last());
    }
}

proof fn lemma_bytes_push<T>(s: Seq<Object<T>>, o: Object<T>)
    ensures
        bytes(s.push(o)) == bytes(s) + o.total_size,
{
    assert(s.push(o).drop_last() =~= s);
}

proof fn lemma_bytes_prepend<T>(o: Object<T>, s: Seq<Object<T>>)
    ensures
        bytes(seq![o] + s) == o.total_size + bytes(s),
{
    lemma_bytes_concat(seq![o], s);
    assert(seq![o].drop_last() =~= Seq::<Object<T>>::empty());
    assert(bytes(seq![o]) == bytes(seq![o].drop_last()) + o.total_size);
}

impl<T> Object<T> {
    /// Whether the object counts as marked under the current meaning of
    /// the mark bit.
    pub open spec fn is_marked_spec(self, marked_bit_value: bool) -> bool {
        self.marked == marked_bit_value
    }
}

/// The objects of `s` that `keep` keeps, in reverse order.
pub open spec fn kept_reversed<T>(s: Seq<Object<T>>, keep: spec_fn(Object<T>) -> bool) -> Seq<Object<T>> {
    s.filter(keep).reverse()
}

/// The manager's shared state.
pub struct ObjectManager<T> {
    head: Vec<Object<T>>,
    used_size: usize,
    max_size: usize,
    /// The mark bit value that new objects get.
    new_object_mark_value: bool,
    /// The mark bit value that counts as marked.
    marked_bit_value: bool,
}

/// A thread's chain of newly allocated objects, newest first.
pub struct LocalObjectsChain<T> {
    chain: Vec<Object<T>>,
}

/// A snapshot of the global list, taken out of it to be swept.
pub struct Sweeper<T> {
    saved_chain: Vec<Object<T>>,
}

impl<T> ObjectManager<T> {
    /// The global list, head first.
    pub closed spec fn list(self) -> Seq<Object<T>> {
        self.head@
    }

    pub closed spec fn used(self) -> nat {
        self.used_size as nat
    }

    pub closed spec fn max(self) -> nat {
        self.max_size as nat
    }

    pub closed spec fn new_mark(self) -> bool {
        self.new_object_mark_value
    }

    pub closed spec fn marked_value(self) -> bool {
        self.marked_bit_value
    }

    pub fn new(max_size: usize) -> (r: Self)
        ensures
            r.list().len() == 0,
            r.used() == 0,
            r.max() == max_size,
            r.marked_value() == true,
            r.new_mark() == false,
    {
        ObjectManager {
            head: Vec::new(),
            used_size: 0,
            max_size,
            marked_bit_value: true,
            new_object_mark_value: false,
        }
    }

    /// Flips which mark bit value counts as marked.
    pub fn flip_marked_bit_value(&mut self)
        ensures
            final(self).marked_value() == !old(self).marked_value(),
            final(self).new_mark() == old(self).new_mark(),
            final(self).list() == old(self).list(),
            final(self).used() == old(self).used(),
            final(self).max() == old(self).max(),
    {
        self.marked_bit_value = !self.marked_bit_value;
    }

    /// Flips the mark bit value that new objects get.
    pub fn flip_new_marked_bit_value(&mut self)
        ensures
            final(self).new_mark() == !old(self).new_mark(),
            final(self).marked_value() == old(self).marked_value(),
            final(self).list() == old(self).list(),
            final(self).used() == old(self).used(),
            final(self).max() == old(self).max(),
    {
        self.new_object_mark_value = !self.new_object_mark_value;
    }

    pub fn get_usage(&self) -> (r: usize)
        ensures
            r == self.used(),
    {
        self.used_size
    }

    /// Allocates an object of `total_size` bytes holding what `init` makes,
    /// straight into the global list, in front, unmarked; there is no limit
    /// to check here.
    pub fn allocate<F: FnOnce() -> T>(&mut self, total_size: usize, init: F)
        requires
            old(self).used() + total_size <= usize::MAX,
            init.requires(()),
        ensures
            exists|data: T|
                {
                    &&& #[trigger] init.ensures((), data)
                    &&& final(self).list() == seq![Object { marked: false, total_size, data }]
                        + old(self).list()
                },
            final(self).list().len() == old(self).list().len() + 1,
            final(self).used() == old(self).used() + total_size,
            bytes(final(self).list()) == bytes(old(self).list()) + total_size,
            final(self).max() == old(self).max(),
            final(self).new_mark() == old(self).new_mark(),
            final(self).marked_value() == old(self).marked_value(),
    {
        let data = init();
        let obj = Object { marked: false, total_size, data };
        let ghost o = obj;
        let mut chain: Vec<Object<T>> = Vec::new();
        chain.push(obj);
        proof {
            assert(chain@ =~= seq![o]);
        }
        self.add_chain_to_list(chain);
        self.used_size = self.used_size + total_size;
        proof {
            lemma_bytes_prepend(o, old(self).list());
            assert(init.ensures((), o.data));
        }
    }

    /// Puts the chain `chain` in front of the global list.
    fn add_chain_to_list(&mut self, chain: Vec<Object<T>>)
        ensures
            final(self).list() == chain@ + old(self).list(),
            final(self).used() == old(self).used(),
            final(self).max() == old(self).max(),
            final(self).new_mark() == old(self).new_mark(),
            final(self).marked_value() == old(self).marked_value(),
    {
        let mut chain = chain;
        let mut rest = take_objects(&mut self.head);
        chain.append(&mut rest);
        self.head = chain;
    }

    /// Sets the object's mark bit to the value that counts as marked and
    /// returns the bit as it was.
    pub fn set_mark_bit(&self, obj: &mut Object<T>) -> (r: bool)
        ensures
            r == old(obj).marked,
            *final(obj) == (Object { marked: self.marked_value(), ..*old(obj) }),
    {
        let was = obj.marked;
        obj.marked = self.marked_bit_value;
        was
    }

    /// Whether the object counts as marked.
    pub fn is_marked(&self, obj: &Object<T>) -> (r: bool)
        ensures
            r == obj.is_marked_spec(self.marked_value()),
    {
        obj.marked == self.marked_bit_value
    }

    /// Takes the global list out to be swept, after moving every thread's
    /// local chain into it.
    pub fn create_sweeper(&mut self, contexts: &mut Vec<LocalObjectsChain<T>>) -> (r: Sweeper<T>)
        ensures
            final(self).list().len() == 0,
            final(self).used() == old(self).used(),
            final(self).max() == old(self).max(),
            final(self).new_mark() == old(self).new_mark(),
            final(self).marked_value() == old(self).marked_value(),
            final(contexts)@.len() == old(contexts)@.len(),
            forall|i: int|
                0 <= i < final(contexts)@.len() ==> (#[trigger] final(contexts)@[i]).objects().len()
                    == 0,
            bytes(r.saved()) == bytes(old(self).list()) + chains_bytes(old(contexts)@),
    {
        let ghost start_list = self.head@;
        let ghost start_ctx = contexts@;
        assert(start_ctx.subrange(0, start_ctx.len() as int) =~= start_ctx);
        let mut i: usize = 0;
        while i < contexts.len()
            invariant
                i <= contexts@.len(),
                contexts@.len() == start_ctx.len(),
                self.used_size == old(self).used_size,
                self.max_size == old(self).max_size,
                self.new_object_mark_value == old(self).new_object_mark_value,
                self.marked_bit_value == old(self).marked_bit_value,
                start_list == old(self).head@,
                start_ctx == old(contexts)@,
                forall|k: int| 0 <= k < i ==> (#[trigger] contexts@[k]).objects().len() == 0,
                forall|k: int| i <= k < contexts@.len() ==> #[trigger] contexts@[k] == start_ctx[k],
                bytes(self.head@) + chains_bytes(start_ctx.subrange(i as int, start_ctx.len() as int))
                    == bytes(start_list) + chains_bytes(start_ctx),
            decreases contexts@.len() - i,
        {
            let mut ctx = contexts.remove(i);
            let ghost moved = ctx.objects();
            let ghost before = self.head@;
            ctx.flush_to_global(self);
            contexts.insert(i, ctx);
            proof {
                lemma_bytes_concat(moved, before);
                let rest = start_ctx.subrange(i as int, start_ctx.len() as int);
                assert(rest.drop_first() =~= start_ctx.subrange(i + 1, start_ctx.len() as int));
                assert(rest[0] == start_ctx[i as int]);
            }
            i = i + 1;
        }
        proof {
            assert(start_ctx.subrange(i as int, start_ctx.len() as int) =~= Seq::<LocalObjectsChain<T>>::empty());
        }
        let saved = take_objects(&mut self.head);
        Sweeper { saved_chain: saved }
    }

    /// Frees the objects of the global list for which `predicate` is false;
    /// the others stay, in reverse order, in front of the list.
    pub fn sweep<F: Fn(&Object<T>) -> bool>(&mut self, predicate: F)
        requires
            forall|o: Object<T>| #[trigger] predicate.requires((&o,)),
            forall|o: Object<T>, b: bool| #[trigger] predicate.ensures((&o,), b) ==> b == keeps(predicate, o),
            bytes(old(self).list()) <= old(self).used(),
        ensures
            final(self).list() == old(self).list().filter(|o: Object<T>| keeps(predicate, o)).reverse(),
            final(self).used() == old(self).used() - (bytes(old(self).list()) - bytes(final(self).list())),
            final(self).max() == old(self).max(),
            final(self).new_mark() == old(self).new_mark(),
            final(self).marked_value() == old(self).marked_value(),
    {
        let saved = take_objects(&mut self.head);
        proof {
            assert(saved@ == old(self).list());
        }
        let (live, freed) = sweep_list(saved, &predicate, Ghost(|o: Object<T>| keeps(predicate, o)));
        proof {
            lemma_filter_bytes(old(self).head@, |o: Object<T>| keeps(predicate, o));
        }
        self.used_size = self.used_size - freed;
        self.add_chain_to_list(live);
        proof {
            assert(live@ + Seq::<Object<T>>::empty() =~= live@);
        }
    }
}

/// Whether `predicate` keeps `o`.
pub open spec fn keeps<T, F: Fn(&Object<T>) -> bool>(predicate: F, o: Object<T>) -> bool {
    predicate.ensures((&o,), true)
}

/// Bytes taken by the objects of the chains `s`.
pub open spec fn chains_bytes<T>(s: Seq<LocalObjectsChain<T>>) -> nat
    decreases s.len(),
{
    if s.len() == 0 {
        0
    } else {
        bytes(s[0].objects()) + chains_bytes(s.drop_first())
    }
}

/// The manager's usage is the bytes of every object it holds: those of
/// its global list and those of the threads' chains `chains`.
pub open spec fn accounted<T>(owner: ObjectManager<T>, chains: Seq<LocalObjectsChain<T>>) -> bool {
    owner.used() == bytes(owner.list()) + chains_bytes(chains)
}

/// Replacing chain `k` changes the bytes of all chains by the difference.
proof fn lemma_chains_bytes_update<T>(s: Seq<LocalObjectsChain<T>>, k: int, c: LocalObjectsChain<T>)
    requires
        0 <= k < s.len(),
    ensures
        chains_bytes(s.update(k, c)) + bytes(s[k].objects()) == chains_bytes(s) + bytes(c.objects()),
    decreases s.len(),
{
    if k == 0 {
        assert(s.update(k, c).drop_first() =~= s.drop_first());
    } else {
        assert(s.update(k, c).drop_first() =~= s.drop_first().update(k - 1, c));
        lemma_chains_bytes_update(s.drop_first(), k - 1, c);
    }
}

/// Usage accounting is kept by every change in which the global list and
/// one thread's chain (`k`, becoming `c`) together gain as many bytes as
/// the usage does: an allocation into a chain (`try_alloc`), a flush of a
/// chain into the list (`flush_to_global`), an allocation straight into
/// the list (`allocate`, with the chain unchanged) and a sweep (`sweep`)
/// each ensure as much.
pub proof fn lemma_accounting_kept<T>(
    before: ObjectManager<T>,
    after: ObjectManager<T>,
    chains: Seq<LocalObjectsChain<T>>,
    k: int,
    c: LocalObjectsChain<T>,
)
    requires
        accounted(before, chains),
        0 <= k < chains.len(),
        after.used() + bytes(before.list()) + bytes(chains[k].objects()) == before.used() + bytes(
            after.list(),
        ) + bytes(c.objects()),
    ensures
        accounted(after, chains.update(k, c)),
{
    lemma_chains_bytes_update(chains, k, c);
}

proof fn lemma_filter_bytes<T>(s: Seq<Object<T>>, keep: spec_fn(Object<T>) -> bool)
    ensures
        bytes(s.filter(keep)) <= bytes(s),
        bytes(s.filter(keep).reverse()) == bytes(s.filter(keep)),
    decreases s.len(),
{
    reveal(Seq::filter);
    if s.len() > 0 {
        lemma_filter_bytes(s.drop_last(), keep);
        if keep(s.last()) {
            lemma_bytes_push(s.drop_last().filter(keep), s.last());
        }
    }
    lemma_bytes_reverse(s.filter(keep));
}

proof fn lemma_bytes_reverse<T>(s: Seq<Object<T>>)
    ensures
        bytes(s.reverse()) == bytes(s),
    decreases s.len(),
{
    if s.len() > 0 {
        let t = s.drop_last();
        lemma_bytes_reverse(t);
        assert(s.reverse() =~= seq![s.last()] + t.reverse());
        lemma_bytes_prepend(s.last(), t.reverse());
    }
}

/// Walks `list` head first, splitting it into the objects `predicate`
/// keeps, in reverse order, and the number of bytes of the others.
fn sweep_list<T, F: Fn(&Object<T>) -> bool>(
    list: Vec<Object<T>>,
    predicate: &F,
    Ghost(keep): Ghost<spec_fn(Object<T>) -> bool>,
) -> (r: (Vec<Object<T>>, usize))
    requires
        forall|o: Object<T>| #[trigger] predicate.requires((&o,)),
        forall|o: Object<T>, b: bool| #[trigger] predicate.ensures((&o,), b) ==> b == keep(o),
        bytes(list@) <= usize::MAX,
    ensures
        r.0@ == list@.filter(keep).reverse(),
        r.1 == bytes(list@) - bytes(r.0@),
{
    let ghost all = list@;
    let mut rest = list;
    let mut live: Vec<Object<T>> = Vec::new();
    let mut freed: usize = 0;
    let mut i: usize = 0;
    proof {
        lemma_filter_bytes(all, keep);
        assert(rest@ =~= all.subrange(0, all.len() as int));
        assert(all.len() == rest.len());
    }
    while rest.len() > 0
        invariant
            i <= all.len(),
            all.len() <= usize::MAX,
            rest@ == all.subrange(i as int, all.len() as int),
            forall|o: Object<T>| #[trigger] predicate.requires((&o,)),
            forall|o: Object<T>, b: bool| #[trigger] predicate.ensures((&o,), b) ==> b == keep(o),
            bytes(all) <= usize::MAX,
            live@ == all.subrange(0, i as int).filter(keep).reverse(),
            freed + bytes(live@) == bytes(all.subrange(0, i as int)),
            bytes(all.subrange(0, i as int)) <= bytes(all),
        decreases rest@.len(),
    {
        let current = rest.remove(0);
        let ghost c = current;
        let ghost pre = all.subrange(0, i as int);
        let ghost post = all.subrange(0, i + 1);
        proof {
            assert(c == all[i as int]);
            assert(post.drop_last() =~= pre);
            assert(post.last() == c);
            assert(post =~= pre.push(c));
            reveal(Seq::filter);
            lemma_bytes_push(pre, c);
            lemma_filter_bytes(pre, keep);
            lemma_prefix_bytes(all, i + 1);
        }
        let size = current.total_size;
        if predicate(&current) {
            let ghost old_live = live@;
            live.insert(0, current);
            proof {
                assert(live@ =~= seq![c] + old_live);
                assert(post.filter(keep) == pre.filter(keep).push(c));
                assert(live@ =~= post.filter(keep).reverse());
                lemma_bytes_prepend(c, old_live);
            }
        } else {
            freed = freed + size;
            proof {
                assert(post.filter(keep) == pre.filter(keep));
            }
        }
        i = i + 1;
        proof {
            assert(rest@ =~= all.subrange(i as int, all.len() as int));
        }
    }
    proof {
        assert(all.subrange(0, i as int) =~= all);
    }
    (live, freed)
}

proof fn lemma_prefix_bytes<T>(s: Seq<Object<T>>, n: int)
    requires
        0 <= n <= s.len(),
    ensures
        bytes(s.subrange(0, n)) <= bytes(s),
    decreases s.len() - n,
{
    if n < s.len() {
        lemma_prefix_bytes(s, n + 1);
        assert(s.subrange(0, n + 1).drop_last() =~= s.subrange(0, n));
    } else {
        assert(s.subrange(0, n) =~= s);
    }
}

impl<T> LocalObjectsChain<T> {
    /// The chain, newest object first.
    pub closed spec fn objects(self) -> Seq<Object<T>> {
        self.chain@
    }

    pub fn new() -> (r: Self)
        ensures
            r.objects().len() == 0,
    {
        LocalObjectsChain { chain: Vec::new() }
    }

    /// Moves the chain in front of the global list, leaving it empty.
    pub fn flush_to_global(&mut self, owner: &mut ObjectManager<T>)
        ensures
            final(self).objects().len() == 0,
            final(owner).list() == old(self).objects() + old(owner).list(),
            bytes(final(owner).list()) == bytes(old(self).objects()) + bytes(old(owner).list()),
            final(owner).used() == old(owner).used(),
            final(owner).max() == old(owner).max(),
            final(owner).new_mark() == old(owner).new_mark(),
            final(owner).marked_value() == old(owner).marked_value(),
    {
        if self.chain.len() == 0 {
            assert(old(self).objects() + old(owner).list() =~= old(owner).list());
            proof {
                lemma_bytes_concat(old(self).objects(), old(owner).list());
            }
            return;
        }
        let chain = take_objects(&mut self.chain);
        owner.add_chain_to_list(chain);
        proof {
            lemma_bytes_concat(old(self).objects(), old(owner).list());
        }
    }

    /// Allocates an object of `total_size` bytes into this chain, unless
    /// the heap's usage would reach its maximum size.
    pub fn try_alloc<F: FnOnce() -> T>(
        &mut self,
        owner: &mut ObjectManager<T>,
        total_size: usize,
        init: F,
    ) -> (r: Result<(), AllocError>)
        requires
            old(owner).used() + total_size <= usize::MAX,
            init.requires(()),
        ensures
            final(owner).list() == old(owner).list(),
            final(owner).max() == old(owner).max(),
            final(owner).new_mark() == old(owner).new_mark(),
            final(owner).marked_value() == old(owner).marked_value(),
            r is Err <==> old(owner).used() + total_size >= old(owner).max(),
            r is Err ==> final(owner).used() == old(owner).used() && final(self).objects()
                == old(self).objects(),
            r is Ok ==> {
                &&& final(owner).used() == old(owner).used() + total_size
                &&& bytes(final(self).objects()) == bytes(old(self).objects()) + total_size
                &&& final(self).objects().len() == old(self).objects().len() + 1
                &&& exists|data: T|
                    {
                        &&& #[trigger] init.ensures((), data)
                        &&& final(self).objects() == seq![
                            Object { marked: old(owner).new_mark(), total_size, data },
                        ] + old(self).objects()
                    }
            },
    {
        let new_size = owner.used_size + total_size;
        if new_size >= owner.max_size {
            return Err(AllocError);
        }
        owner.used_size = new_size;
        let data = init();
        let obj = Object { marked: owner.new_object_mark_value, total_size, data };
        let ghost o = obj;
        self.chain.insert(0, obj);
        proof {
            assert(self.chain@ =~= seq![o] + old(self).chain@);
            lemma_bytes_prepend(o, old(self).chain@);
            assert(init.ensures((), o.data));
        }
        Ok(())
    }
}

impl<T> Sweeper<T> {
    /// The objects taken out to be swept.
    pub closed spec fn saved(self) -> Seq<Object<T>> {
        self.saved_chain@
    }

    /// Frees the swept objects that are not marked under the manager's
    /// current mark bit value and puts the marked ones, in reverse order,
    /// in front of the global list. The mark bits are left as they are.
    pub fn sweep_and_reset_mark_flag(self, owner: &mut ObjectManager<T>)
        requires
            bytes(self.saved()) <= old(owner).used(),
        ensures
            final(owner).list() == self.saved().filter(
                |o: Object<T>| o.is_marked_spec(old(owner).marked_value()),
            ).reverse() + old(owner).list(),
            final(owner).used() + bytes(self.saved()) == old(owner).used() + bytes(
                self.saved().filter(|o: Object<T>| o.is_marked_spec(old(owner).marked_value())),
            ),
            final(owner).max() == old(owner).max(),
            final(owner).new_mark() == old(owner).new_mark(),
            final(owner).marked_value() == old(owner).marked_value(),
    {
        let value = owner.marked_bit_value;
        let ghost saved = self.saved_chain@;
        let predicate = |o: &Object<T>| -> (b: bool)
            ensures
                b == o.is_marked_spec(value),
            { o.marked == value };
        let ghost k = |o: Object<T>| o.is_marked_spec(value);
        let (live, freed) = sweep_list(self.saved_chain, &predicate, Ghost(k));
        proof {
            lemma_filter_bytes(saved, k);
        }
        owner.used_size = owner.used_size - freed;
        owner.add_chain_to_list(live);
    }
}

} // verus!
