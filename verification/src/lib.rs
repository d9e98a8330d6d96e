//! A concurrent, compacting garbage collector: its page allocator, object
//! metadata encoding, bitmaps, type registry and the decision logic of its
//! collection cycle, each stated and proved with Verus.

pub mod bitmap;
pub mod descriptor;
pub mod gc;
pub mod gc_controller;
pub mod gc_sync;
pub mod heap;
pub mod latency_test;
pub mod mm;
pub mod mmap;
pub mod object;
pub mod objects_manager;
pub mod plus;
pub mod plus_alloc;
pub mod quirks;
pub mod root_refs;
pub mod root_set;
pub mod state;
pub mod sync;
pub mod type_manager;
pub mod util;
