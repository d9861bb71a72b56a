//! The backend descriptor and its registration lifecycle.
//!
//! The descriptor is the immutable-after-registration record the engine
//! reads: the backend's name, the size it must reserve for one file handle,
//! and the longest path the backend accepts. The operation entry points the
//! engine calls through live in the unverified shell; what is modeled here
//! is the record they are registered with, and the process-scoped lifecycle
//! window — built and registered once at start, torn down once at the end —
//! outside of which no operation may run.

use vstd::prelude::*;
use crate::status::Status;

verus! {

/// Longest path the backend accepts, terminator excluded.
pub const MAX_PATHNAME: i32 = 1024;

/// Version of the descriptor layout the backend implements.
pub const VFS_VERSION: i32 = 1;

/// The backend's registered name.
pub open spec fn spec_backend_name() -> Seq<u8> {
    seq![111u8, 112u8, 102u8, 115u8]
}

/// The capability record the engine keeps for this backend.
pub struct VfsDescriptor {
    /// Descriptor layout version.
    pub version: i32,
    /// Name under which the engine can select the backend.
    pub name: Vec<u8>,
    /// Longest path accepted, terminator excluded.
    pub max_pathname: i32,
    /// Bytes the engine reserves for one open file handle.
    pub handle_size: i32,
}

impl VfsDescriptor {
    /// A descriptor carries exactly the fixed constants of this backend and
    /// a positive handle size.
    pub open spec fn wf(&self) -> bool {
        &&& self.version == VFS_VERSION
        &&& self.max_pathname == MAX_PATHNAME
        &&& self.handle_size > 0
        &&& self.name@ == spec_backend_name()
    }

    /// Build the descriptor. The handle size is what the shell measures for
    /// its handle struct; everything else is fixed.
    pub fn build(handle_size: i32) -> (d: VfsDescriptor)
        requires
            handle_size > 0,
        ensures
            d.wf(),
            d.handle_size == handle_size,
    {
        let mut name: Vec<u8> = Vec::new();
        name.push(111);
        name.push(112);
        name.push(102);
        name.push(115);
        proof {
            assert(name@ =~= spec_backend_name());
        }
        VfsDescriptor { version: VFS_VERSION, name, max_pathname: MAX_PATHNAME, handle_size }
    }
}

/// Process-scoped registration state: which descriptor, if any, is the
/// engine's active storage backend.
pub struct Registry {
    active: Option<VfsDescriptor>,
}

impl Registry {
    /// Whether a backend is currently registered.
    pub closed spec fn is_registered(&self) -> bool {
        self.active is Some
    }

    /// The registered descriptor is always well formed.
    pub closed spec fn wf(&self) -> bool {
        self.active matches Some(d) ==> d.wf()
    }

    /// The descriptor on record.
    pub closed spec fn spec_descriptor(&self) -> VfsDescriptor
        recommends
            self.is_registered(),
    {
        self.active->0
    }

    /// Before start-up nothing is registered.
    pub fn new() -> (r: Registry)
        ensures
            !r.is_registered(),
            r.wf(),
    {
        Registry { active: None }
    }

    /// Register `d` as the engine's storage backend. Called exactly once at
    /// process start; the registered descriptor is never mutated afterwards.
    pub fn register(&mut self, d: VfsDescriptor) -> (s: Status)
        requires
            !old(self).is_registered(),
            old(self).wf(),
            d.wf(),
        ensures
            s is Okay,
            final(self).is_registered(),
            final(self).wf(),
            final(self).spec_descriptor() == d,
    {
        self.active = Some(d);
        Status::Okay
    }

    /// Release the process-wide descriptor record. Safe whether or not any
    /// file was ever opened; the caller must not tear down while a file
    /// handle is still outstanding.
    pub fn teardown(&mut self)
        requires
            old(self).is_registered(),
            old(self).wf(),
        ensures
            !final(self).is_registered(),
            final(self).wf(),
    {
        self.active = None;
    }
}

} // verus!
