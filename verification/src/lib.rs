//! Carving initialized prefixes out of caller-provided byte storage.
//!
//! [`PrefixArena`] detaches prefixes from the front of a mutable buffer,
//! [`ArenaView`] gives temporary access to what remains, and
//! [`StagingBuffer`] assembles output in arena-backed storage before
//! committing the written prefix.

pub mod prefix_arena;
pub mod staging_buffer;

pub use prefix_arena::{ArenaView, PrefixArena};
pub use staging_buffer::{StagingBuffer, StagingBufferError};
