# uwugc

The pieces of a concurrent, compacting garbage collector: a heap of flex
pages, the metadata word every object starts with, bitmaps, a type
registry, root sets, and the two stop-the-world steps of a collection
cycle (the root snapshot at its start; the page donation, root fixing,
type wiping and heap swap after marking), with a higher-level layer of
typed root references, safepoints and a growable vector whose storage
lives in the heap. Marking itself, and the writes of raw heap memory, are
not part of the library.

## Layout

- `src/` is the library, written and proved with Verus. Contracts state
  what each function does over spec functions and views; the laws that
  span several functions are public proof functions next to them
  (`lemma_*`).
- `tests/` runs the library on concrete values.
- `app/` is the program around it: memory mappings, the message pipe, the
  lock page and fault handling that stop the world, the collector thread
  and the blocking waits, and the latency experiment's `main`.

The only outside code the library calls is `bitvec`'s `BitVec` (the used
root slots of the higher-level layer) and `page_size::get`; their
contracts sit beside the calls, in `src/plus/bits.rs` and
`src/root_set.rs`.
