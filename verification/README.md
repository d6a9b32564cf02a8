# prefix_arena

Carving prefixes out of caller-provided storage, verified with Verus.

- `src/prefix_arena.rs`: `PrefixArena` (detaches prefixes from the front of a
  mutable slice) and `ArenaView` (a temporary view over what remains; what it
  leaves behind is what the arena holds afterwards). The slot type is `u8` for
  initialized bytes and `MaybeUninit<u8>` for possibly uninitialized storage.
  Laws: `lemma_detach_conserves`, `lemma_detach_twice`.
- `src/staging_buffer.rs`: `StagingBuffer` (appends bytes into arena-backed
  storage and commits the written prefix) and `StagingBufferError`.
  Laws: `lemma_extend_twice`, `lemma_push_is_extend`,
  `lemma_write_extends_prefix`.
- `tests/`: executable tests of the public API.
- `app/`: a displayable copy of `StagingBufferError`.

Every function is safe Rust; bounds that would otherwise panic are
preconditions.
