//! Capacities of bounded channels.
use vstd::prelude::*;

verus! {

/// Events of one target.
pub const PER_TARGET_CAPACITY: usize = 1024;

/// Events of a network observer, which may take in many tabs.
pub const NETWORK_OBSERVE_CAP: usize = 4096;

/// Lifecycle events of a page, a few for each navigation.
pub const PAGE_LIFECYCLE_CAPACITY: usize = 64;

/// Console messages of a page.
pub const CONSOLE_CAP: usize = 512;

/// Exceptions of a page.
pub const EXCEPTION_CAP: usize = 512;

/// Lifecycle commands of a session, one for each change of state.
pub const SESSION_LIFECYCLE_CAPACITY: usize = 64;

/// Chunks of a heap snapshot on their way to disk.
pub const HEAP_CHUNK_DRAIN_CAPACITY: usize = 1024;

/// Bytes of a trace that are read at once.
pub const TRACING_IO_READ_CHUNK_BYTES: i64 = 65_536;

} // verus!
