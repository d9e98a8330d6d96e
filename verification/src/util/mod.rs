pub mod double_atomic_ptr;
