//! Status codes returned to the engine.
//!
//! The taxonomy has exactly three classes: success, lock contention
//! (recoverable; the engine's own backoff policy handles it), and an I/O
//! fault (unrecoverable at this layer). There is no fatal class: the adapter
//! runs embedded in a host process it must not crash, so every unexpected
//! host failure is normalized to the I/O fault code.

use vstd::prelude::*;

verus! {

/// Numeric code the engine reads for a successful operation.
pub const STATUS_OK: i32 = 0;

/// Numeric code for lock contention; tells the engine to retry or escalate.
pub const STATUS_BUSY: i32 = 5;

/// Numeric code for an I/O fault, including short transfers.
pub const STATUS_IOERR: i32 = 10;

/// Result class of one adapter operation.
#[derive(Clone, Copy, PartialEq, Eq, Structural, Debug)]
pub enum Status {
    /// The operation completed as requested.
    Okay,
    /// A lock could not be acquired; the caller may retry.
    Busy,
    /// An I/O fault; never retried at this layer.
    IoErr,
}

impl Status {
    /// The numeric code the engine sees for this status.
    pub open spec fn spec_code(self) -> i32 {
        match self {
            Status::Okay => STATUS_OK,
            Status::Busy => STATUS_BUSY,
            Status::IoErr => STATUS_IOERR,
        }
    }

    /// Encode the status as the engine's numeric code.
    pub fn code(self) -> (c: i32)
        ensures
            c == self.spec_code(),
    {
        match self {
            Status::Okay => STATUS_OK,
            Status::Busy => STATUS_BUSY,
            Status::IoErr => STATUS_IOERR,
        }
    }

    /// True exactly on success.
    pub fn is_okay(self) -> (b: bool)
        ensures
            b == (self is Okay),
    {
        match self {
            Status::Okay => true,
            _ => false,
        }
    }
}

/// Status owed for a host primitive that reports success as zero: any
/// non-zero return is normalized to an I/O fault.
pub open spec fn spec_status_from_rc(rc: i32) -> Status {
    if rc == 0 {
        Status::Okay
    } else {
        Status::IoErr
    }
}

/// Map a host return code onto the engine taxonomy: zero is success,
/// anything else an I/O fault.
pub fn status_from_rc(rc: i32) -> (s: Status)
    ensures
        s == spec_status_from_rc(rc),
        s is Okay <==> rc == 0,
{
    if rc == 0 {
        Status::Okay
    } else {
        Status::IoErr
    }
}

} // verus!
