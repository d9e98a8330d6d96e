//! Containers whose storage lives in the heap.

pub mod vec;
pub mod zero_or_init;
