//! The type manager of the latency benchmark: one type, a window of
//! pointers to messages.

use vstd::prelude::*;

use crate::object::{ObjectPtr, METADATA_SIZE};
use crate::type_manager::TypeManager;

verus! {

/// Type id of the window object.
pub const WINDOW_TYPE_ID: u64 = 0;

/// Number of message pointers the window holds.
pub const WINDOW_SIZE: usize = 200000;

/// Number of messages pushed through the window.
pub const MSG_COUNT: usize = 10000000;

/// Size in bytes of each message.
pub const MSG_SIZE: usize = 1024;

/// Size in bytes of a pointer.
pub open spec fn ptr_size() -> nat {
    (usize::BITS / 8) as nat
}

/// Address of pointer `i` of the window object at `object`.
pub open spec fn window_slot(object: ObjectPtr, i: int) -> usize {
    object.0.wrapping_add(METADATA_SIZE).wrapping_add((i * ptr_size()) as usize)
}

pub struct LatencyTestTypeManager;

impl TypeManager for LatencyTestTypeManager {
    open spec fn inv(&self) -> bool {
        true
    }

    open spec fn knows(&self, type_id: u64) -> bool {
        type_id == WINDOW_TYPE_ID
    }

    open spec fn tracks(&self, type_id: u64) -> bool {
        type_id == WINDOW_TYPE_ID
    }

    open spec fn type_size(&self, type_id: u64) -> Option<usize> {
        if type_id == WINDOW_TYPE_ID {
            Some((ptr_size() * WINDOW_SIZE) as usize)
        } else {
            None
        }
    }

    open spec fn pointer_slots(&self, type_id: u64, object: ObjectPtr) -> Seq<usize> {
        Seq::new(WINDOW_SIZE as nat, |i: int| window_slot(object, i))
    }

    fn assume_all_dead(&mut self) {
    }

    fn wipe_deads(&mut self) {
    }

    fn set_alive(&mut self, type_id: u64) -> (r: bool) {
        type_id == WINDOW_TYPE_ID
    }

    fn get_size(&self, type_id: u64) -> (r: Option<usize>) {
        if type_id == WINDOW_TYPE_ID {
            Some((usize::BITS / 8) as usize * WINDOW_SIZE)
        } else {
            None
        }
    }

    fn iterate_gc_pointers(&self, type_id: u64, object: ObjectPtr) -> (r: Option<Vec<usize>>) {
        if type_id != WINDOW_TYPE_ID {
            return None;
        }
        Some(window_slots(object))
    }

    fn update_gc_pointers(&self, type_id: u64, object: ObjectPtr) -> (r: Option<Vec<usize>>) {
        if type_id != WINDOW_TYPE_ID {
            return None;
        }
        Some(window_slots(object))
    }
}

/// Addresses of the pointers of the window object at `object`.
fn window_slots(object: ObjectPtr) -> (r: Vec<usize>)
    ensures
        r@ == Seq::new(WINDOW_SIZE as nat, |i: int| window_slot(object, i)),
{
    let ps = (usize::BITS / 8) as usize;
    assert(usize::BITS == 32 || usize::BITS == 64);
    let data = object.0.wrapping_add(METADATA_SIZE);
    let mut slots: Vec<usize> = Vec::new();
    let mut i: usize = 0;
    while i < WINDOW_SIZE
        invariant
            i <= WINDOW_SIZE,
            ps == ptr_size(),
            ps <= 8,
            data == object.0.wrapping_add(METADATA_SIZE),
            slots@ == Seq::new(i as nat, |k: int| window_slot(object, k)),
        decreases WINDOW_SIZE - i,
    {
        assert(i * ps <= 8 * 200000) by (nonlinear_arith)
            requires
                i < 200000,
                ps <= 8,
        ;
        slots.push(data.wrapping_add(i * ps));
        i = i + 1;
        assert(slots@ =~= Seq::new(i as nat, |k: int| window_slot(object, k)));
    }
    slots
}

/// The objects the window's pointer values `values` refer to, in order:
/// null entries are skipped.
pub open spec fn window_targets(values: Seq<usize>) -> Seq<ObjectPtr>
    decreases values.len(),
{
    if values.len() == 0 {
        Seq::empty()
    } else {
        let rest = window_targets(values.drop_last());
        if values.last() == 0 {
            rest
        } else {
            rest.push(ObjectPtr(values.last()))
        }
    }
}

/// The objects to visit for a window whose pointer slots hold `values`, as
/// read from the slots `iterate_gc_pointers` names: every non-null pointer,
/// in slot order.
pub fn non_null_pointers(values: &Vec<usize>) -> (r: Vec<ObjectPtr>)
    ensures
        r@ == window_targets(values@),
{
    let mut out: Vec<ObjectPtr> = Vec::new();
    let mut i: usize = 0;
    while i < values.len()
        invariant
            i <= values@.len(),
            out@ == window_targets(values@.subrange(0, i as int)),
        decreases values@.len() - i,
    {
        proof {
            assert(values@.subrange(0, i + 1).drop_last() =~= values@.subrange(0, i as int));
        }
        let v = values[i];
        if v != 0 {
            out.push(ObjectPtr(v));
        }
        i = i + 1;
    }
    proof {
        assert(values@.subrange(0, i as int) =~= values@);
    }
    out
}

} // verus!
