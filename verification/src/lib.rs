//! A MIDI polyphony splitter.
//!
//! Note events arriving on arbitrary input channels are redistributed across a
//! small fixed pool of output channels, so that a downstream device limited to
//! one voice per channel can sound up to `pool_size` notes at once.  The core
//! is the voice allocator: the stateful mapping from active input note to
//! assigned output channel, including voice stealing when the pool is
//! exhausted and the bookkeeping that frees a channel when a note ends.
//! Channel-wide messages (program change, pitch bend) can optionally be
//! broadcast to every output channel; everything else passes through
//! untouched.

pub mod allocator;
pub mod messages;
pub mod relay;
pub mod router;
pub mod trace;
