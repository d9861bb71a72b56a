//! The advisory lock state machine of one open file handle.
//!
//! A handle carries one of five lock strengths, strictly ordered. A lock
//! request at or below the current level is an idempotent success and needs
//! no host round trip; a genuine escalation is decided by the host primitive
//! and either jumps the handle directly to the requested level or reports
//! contention and leaves the handle untouched. An unlock releases down to
//! the requested level and never reports contention.

use vstd::prelude::*;
use crate::status::Status;

verus! {

/// The five advisory lock strengths, in increasing order of exclusivity.
#[derive(Clone, Copy, PartialEq, Eq, Structural, Debug)]
pub enum LockLevel {
    /// No lock is held.
    NoLock,
    /// Several handles may read.
    Shared,
    /// One handle intends to write; readers may remain.
    Reserved,
    /// A writer is waiting for readers to drain.
    Pending,
    /// Exactly one handle may touch the file.
    Exclusive,
}

impl LockLevel {
    /// Numeric rank realizing the order
    /// `NoLock < Shared < Reserved < Pending < Exclusive`;
    /// the ranks are also the codes the engine uses for the levels.
    pub open spec fn spec_rank(self) -> int {
        match self {
            LockLevel::NoLock => 0,
            LockLevel::Shared => 1,
            LockLevel::Reserved => 2,
            LockLevel::Pending => 3,
            LockLevel::Exclusive => 4,
        }
    }

    /// `self` is at most `other` in the lock order.
    pub open spec fn spec_le(self, other: LockLevel) -> bool {
        self.spec_rank() <= other.spec_rank()
    }

    /// `self` is strictly below `other` in the lock order.
    pub open spec fn spec_lt(self, other: LockLevel) -> bool {
        self.spec_rank() < other.spec_rank()
    }

    /// The engine's numeric code for this level.
    pub fn rank(self) -> (r: u8)
        ensures
            r == self.spec_rank(),
    {
        match self {
            LockLevel::NoLock => 0,
            LockLevel::Shared => 1,
            LockLevel::Reserved => 2,
            LockLevel::Pending => 3,
            LockLevel::Exclusive => 4,
        }
    }

    /// Decode the engine's numeric code for a level.
    pub fn from_code(c: i32) -> (l: Option<LockLevel>)
        ensures
            match l {
                Some(v) => v.spec_rank() == c,
                None => !(0 <= c <= 4),
            },
    {
        if c == 0 {
            Some(LockLevel::NoLock)
        } else if c == 1 {
            Some(LockLevel::Shared)
        } else if c == 2 {
            Some(LockLevel::Reserved)
        } else if c == 3 {
            Some(LockLevel::Pending)
        } else if c == 4 {
            Some(LockLevel::Exclusive)
        } else {
            None
        }
    }

    /// Compare two levels in the lock order.
    pub fn le(self, other: LockLevel) -> (b: bool)
        ensures
            b == self.spec_le(other),
    {
        self.rank() <= other.rank()
    }

    /// Strict comparison in the lock order.
    pub fn lt(self, other: LockLevel) -> (b: bool)
        ensures
            b == self.spec_lt(other),
    {
        self.rank() < other.rank()
    }
}

/// What the host lock primitive answered when asked to acquire a level.
#[derive(Clone, Copy, PartialEq, Eq, Structural, Debug)]
pub enum HostLockOutcome {
    /// The host granted the requested level.
    Granted,
    /// The host refused; some other context holds a conflicting lock.
    Denied,
}

/// One open file: the opaque host descriptor and the current advisory lock
/// level. The adapter mutates only the level, through `lock` and `unlock`.
#[derive(Clone, Copy, PartialEq, Eq, Structural, Debug)]
pub struct FileHandle {
    /// The descriptor the host returned from its open primitive.
    pub fd: i32,
    /// The advisory lock strength this handle currently holds.
    pub level: LockLevel,
}

/// One lock-protocol request: the inputs of a `lock` or `unlock` call,
/// host answer included.
#[derive(Clone, Copy, PartialEq, Eq, Structural, Debug)]
pub enum LockOp {
    /// Escalate to `target`; `host` is what the host would answer if asked.
    Lock { target: LockLevel, host: HostLockOutcome },
    /// Release down to `target`; `rc` is the host release return code.
    Unlock { target: LockLevel, rc: i32 },
}

/// Transition of one `lock` call: an idempotent success when the level
/// already satisfies the request, otherwise a direct jump to `target` when
/// the host grants it, otherwise contention with the handle untouched.
pub open spec fn spec_lock(h: FileHandle, target: LockLevel, host: HostLockOutcome) -> (
    FileHandle,
    Status,
) {
    if target.spec_le(h.level) {
        (h, Status::Okay)
    } else if host is Granted {
        (FileHandle { fd: h.fd, level: target }, Status::Okay)
    } else {
        (h, Status::Busy)
    }
}

/// Transition of one `unlock` call: a release down to `target` when the
/// handle holds more, a no-op success otherwise; a failed host release is a
/// genuine I/O fault and leaves the level untouched.
pub open spec fn spec_unlock(h: FileHandle, target: LockLevel, rc: i32) -> (FileHandle, Status) {
    if h.level.spec_le(target) {
        (h, Status::Okay)
    } else if rc == 0 {
        (FileHandle { fd: h.fd, level: target }, Status::Okay)
    } else {
        (h, Status::IoErr)
    }
}

/// Transition of one lock-protocol request.
pub open spec fn spec_lock_op(h: FileHandle, op: LockOp) -> (FileHandle, Status) {
    match op {
        LockOp::Lock { target, host } => spec_lock(h, target, host),
        LockOp::Unlock { target, rc } => spec_unlock(h, target, rc),
    }
}

/// The handle after a whole sequence of lock-protocol requests.
pub open spec fn spec_lock_ops(h: FileHandle, ops: Seq<LockOp>) -> FileHandle
    decreases ops.len(),
{
    if ops.len() == 0 {
        h
    } else {
        spec_lock_ops(spec_lock_op(h, ops[0]).0, ops.subrange(1, ops.len() as int))
    }
}

impl FileHandle {
    /// A freshly opened handle holds no lock.
    pub fn new(fd: i32) -> (h: FileHandle)
        ensures
            h.fd == fd,
            h.level == LockLevel::NoLock,
    {
        FileHandle { fd, level: LockLevel::NoLock }
    }

    /// Whether escalating to `target` needs a host round trip at all: only a
    /// request strictly above the current level does.
    pub fn lock_needs_host(&self, target: LockLevel) -> (b: bool)
        ensures
            b == self.level.spec_lt(target),
    {
        self.level.lt(target)
    }

    /// Escalate this handle to `target`, given the host's answer for the
    /// levels above the current one. A request the current level already
    /// satisfies succeeds unchanged whatever the host answered; contention
    /// is reported as busy, never as an I/O fault, and mutates nothing.
    pub fn lock(&mut self, target: LockLevel, host: HostLockOutcome) -> (s: Status)
        ensures
            *final(self) == spec_lock(*old(self), target, host).0,
            s == spec_lock(*old(self), target, host).1,
            final(self).fd == old(self).fd,
            old(self).level.spec_le(final(self).level),
            s is Busy ==> *final(self) == *old(self),
            s is Okay || s is Busy,
            target.spec_le(old(self).level) ==> s is Okay && *final(self) == *old(self),
    {
        if target.le(self.level) {
            Status::Okay
        } else {
            match host {
                HostLockOutcome::Granted => {
                    self.level = target;
                    Status::Okay
                },
                HostLockOutcome::Denied => Status::Busy,
            }
        }
    }

    /// Release this handle down to `target`; `rc` is the host release
    /// return code when one is owed. A request at or above the current
    /// level is a no-op success with no host round trip.
    pub fn unlock(&mut self, target: LockLevel, rc: i32) -> (s: Status)
        ensures
            *final(self) == spec_unlock(*old(self), target, rc).0,
            s == spec_unlock(*old(self), target, rc).1,
            final(self).fd == old(self).fd,
            final(self).level.spec_le(old(self).level),
            s is Okay || s is IoErr,
            !(s is Okay) ==> *final(self) == *old(self),
            old(self).level.spec_le(target) ==> s is Okay && *final(self) == *old(self),
    {
        if self.level.le(target) {
            Status::Okay
        } else if rc == 0 {
            self.level = target;
            Status::Okay
        } else {
            Status::IoErr
        }
    }

    /// True exactly when this handle holds the reserved level or stronger.
    pub fn check_reserved(&self) -> (b: bool)
        ensures
            b == LockLevel::Reserved.spec_le(self.level),
    {
        LockLevel::Reserved.le(self.level)
    }
}

/// Lock monotonicity, one step: after any single request the level is one of
/// the five defined strengths, a level change only comes from a successful
/// call, a lock request never lowers the level, and an unlock request never
/// raises it.
pub proof fn lemma_level_follows_request(h: FileHandle, op: LockOp)
    ensures
        0 <= spec_lock_op(h, op).0.level.spec_rank() <= 4,
        spec_lock_op(h, op).0.level != h.level ==> spec_lock_op(h, op).1 is Okay,
        op matches LockOp::Lock { .. } ==> h.level.spec_le(spec_lock_op(h, op).0.level),
        op matches LockOp::Unlock { .. } ==> spec_lock_op(h, op).0.level.spec_le(h.level),
        spec_lock_op(h, op).0.fd == h.fd,
{
}

/// Lock monotonicity, whole histories: after any sequence of lock and unlock
/// requests the handle's level is still one of the five defined strengths
/// and the descriptor is untouched.
pub proof fn lemma_level_bounded_over_history(h: FileHandle, ops: Seq<LockOp>)
    ensures
        0 <= spec_lock_ops(h, ops).level.spec_rank() <= 4,
        spec_lock_ops(h, ops).fd == h.fd,
    decreases ops.len(),
{
    if ops.len() > 0 {
        lemma_level_follows_request(h, ops[0]);
        lemma_level_bounded_over_history(
            spec_lock_op(h, ops[0]).0,
            ops.subrange(1, ops.len() as int),
        );
    }
}

/// Lock idempotence: when the current level already satisfies the request,
/// the call succeeds and changes nothing, and its outcome is the same
/// whatever the host would have answered — no host round trip is observable
/// as a state change.
pub proof fn lemma_lock_idempotent(
    h: FileHandle,
    target: LockLevel,
    o1: HostLockOutcome,
    o2: HostLockOutcome,
)
    requires
        target.spec_le(h.level),
    ensures
        spec_lock(h, target, o1) == spec_lock(h, target, o2),
        spec_lock(h, target, o1).0 == h,
        spec_lock(h, target, o1).1 is Okay,
{
}

/// Busy is recoverable: a lock call that reports contention has not moved
/// the handle's stored level.
pub proof fn lemma_busy_preserves_level(h: FileHandle, target: LockLevel, host: HostLockOutcome)
    ensures
        spec_lock(h, target, host).1 is Busy ==> spec_lock(h, target, host).0 == h,
{
}

} // verus!
