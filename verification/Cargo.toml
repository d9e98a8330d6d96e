[package]
name = "uwugc"
version = "0.1.0"
edition = "2021"
publish = false

[dependencies]
bitvec = "*"
parking_lot = "*"
thiserror = "*"
memmap2 = "*"
nix = { version = "*", features = ["poll", "fs", "mman"] }
userfaultfd = "*"
page_size = "*"
portable-atomic = "*"
arbitrary-int = "*"
either = "*"
yoke = { version = "*", features = ["derive"] }
mimalloc = "*"
intrusive-collections = "*"
