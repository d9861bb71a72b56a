//! A virtual-file-system adapter for an embedded relational database engine
//! running inside a sandboxed, per-origin browser storage facility.
//!
//! The engine performs all durable I/O through a pluggable backend: a table
//! of synchronous operations (open, read, write, lock, sync, ...) returning
//! numeric status codes. This crate holds the verified core of such a
//! backend: the status-code taxonomy, the advisory lock state machine, the
//! all-or-nothing transfer rules of the storage bridge, the header-prefixed
//! heap allocator, the wall-clock conversion, the descriptor lifecycle, and
//! an in-memory host so the whole stack can be exercised in-process.
//!
//! The unverified foreign-function shell that hands these decisions to a
//! real host lives outside this library.

use vstd::prelude::*;

pub mod bridge;
pub mod heap;
pub mod lock;
pub mod memvfs;
pub mod status;
pub mod time;
pub mod vfs;

verus! {

} // verus!
