//! Handle allocation, plugin registry and last-error slot of a plugin host.
//!
//! A [`Context`] hands out small integer handles, stores plugins under them,
//! and queues the handles of removed plugins for first-in, first-out reuse.
use vstd::prelude::*;

pub mod allocator;
pub mod context;

pub use allocator::{AllocatorState, ContextError, IdAllocator, PluginIndex, START_REUSING_IDS};
pub use context::Context;

verus! {

} // verus!
