//! The storage bridge: the rules that turn one host primitive result into
//! the status the engine is owed.
//!
//! Every file operation maps onto exactly one host call. Reads and writes
//! are all-or-nothing: a short transfer is an I/O fault, never a partial
//! success, matching the engine's expectation of atomic block transfers.
//! Path normalization is the identity, but a path that does not fit the
//! caller's buffer is rejected rather than silently truncated, since
//! truncation risks opening the wrong file.

use vstd::prelude::*;
use crate::status::Status;
use crate::lock::{FileHandle, LockLevel};

verus! {

/// Sector size reported to the engine.
pub const SECTOR_SIZE: i32 = 4096;

/// Status owed for a transfer of `transferred` bytes out of `requested`:
/// success exactly on a full transfer, an I/O fault on any other count.
pub open spec fn spec_transfer_status(requested: int, transferred: int) -> Status {
    if transferred == requested {
        Status::Okay
    } else {
        Status::IoErr
    }
}

/// All-or-nothing transfer rule: a read or write succeeds exactly when the
/// host moved every requested byte; any short (or overlong) count is
/// reported as an I/O fault, never as a partial success.
pub fn transfer_status(requested: i32, transferred: i32) -> (s: Status)
    ensures
        s == spec_transfer_status(requested as int, transferred as int),
        s is Okay <==> transferred == requested,
        s is Okay || s is IoErr,
{
    if transferred == requested {
        Status::Okay
    } else {
        Status::IoErr
    }
}

/// Outcome of an open call, given the descriptor the host returned: a
/// non-negative descriptor yields a fresh unlocked handle, a negative one
/// an I/O fault and no handle.
pub fn open_outcome(fd: i32) -> (r: (Option<FileHandle>, Status))
    ensures
        fd >= 0 ==> (r.0 matches Some(h) && h.fd == fd && h.level == LockLevel::NoLock)
            && r.1 is Okay,
        fd < 0 ==> r.0 is None && r.1 is IoErr,
{
    if fd >= 0 {
        (Some(FileHandle::new(fd)), Status::Okay)
    } else {
        (None, Status::IoErr)
    }
}

/// Identity path normalization, bounded by the caller's output buffer:
/// the path is returned unchanged when it and its terminator fit in
/// `out_capacity` bytes, and rejected as an I/O fault otherwise.
pub fn full_pathname(path: &Vec<u8>, out_capacity: usize) -> (r: Result<Vec<u8>, Status>)
    ensures
        path@.len() < out_capacity ==> (r matches Ok(p) && p@ == path@),
        path@.len() >= out_capacity ==> (r matches Err(s) && s is IoErr),
{
    if out_capacity > 0 && path.len() <= out_capacity - 1 {
        let mut out: Vec<u8> = Vec::new();
        let mut i: usize = 0;
        while i < path.len()
            invariant
                i <= path@.len(),
                out@ == path@.subrange(0, i as int),
            decreases path@.len() - i,
        {
            out.push(path[i]);
            proof {
                assert(out@ =~= path@.subrange(0, i + 1));
            }
            i += 1;
        }
        proof {
            assert(out@ =~= path@);
        }
        Ok(out)
    } else {
        Err(Status::IoErr)
    }
}

/// Bytes the randomness provider hands the engine, given what the host
/// entropy source produced: the first `n` entropy bytes when the source
/// yielded at least `n`, and nothing at all otherwise. The provider fails
/// closed: it never pads short entropy with predictable data.
pub open spec fn spec_randomness(entropy: Option<Seq<u8>>, n: int) -> Seq<u8> {
    match entropy {
        Some(e) => if e.len() >= n {
            e.subrange(0, n)
        } else {
            Seq::empty()
        },
        None => Seq::empty(),
    }
}

/// Fill `n` bytes from the host entropy source. When the source is absent
/// or came up short, zero bytes are produced rather than a deterministic
/// substitute sequence.
pub fn randomness(entropy: Option<&Vec<u8>>, n: usize) -> (r: Vec<u8>)
    ensures
        r@ == spec_randomness(
            match entropy {
                Some(e) => Some(e@),
                None => None,
            },
            n as int,
        ),
        r@.len() == n || r@.len() == 0,
{
    match entropy {
        Some(e) => {
            if e.len() >= n {
                let mut out: Vec<u8> = Vec::new();
                let mut i: usize = 0;
                while i < n
                    invariant
                        i <= n,
                        n <= e@.len(),
                        out@ == e@.subrange(0, i as int),
                    decreases n - i,
                {
                    out.push(e[i]);
                    proof {
                        assert(out@ =~= e@.subrange(0, i + 1));
                    }
                    i += 1;
                }
                out
            } else {
                Vec::new()
            }
        },
        None => Vec::new(),
    }
}

/// The sandbox cannot block the calling context: sleeping is a no-op that
/// returns immediately and reports zero elapsed time.
pub fn sleep(microseconds: i32) -> (elapsed: i32)
    ensures
        elapsed == 0,
{
    let _ = microseconds;
    0
}

/// Pass-through opcode channel: the adapter interprets no opcode, and an
/// unknown one is answered with a benign success rather than a failure.
pub fn file_control(opcode: i32) -> (s: Status)
    ensures
        s is Okay,
{
    let _ = opcode;
    Status::Okay
}

/// The sector size the backend advertises.
pub fn sector_size() -> (n: i32)
    ensures
        n == SECTOR_SIZE,
{
    SECTOR_SIZE
}

/// The backend advertises no special device characteristics.
pub fn device_characteristics() -> (n: i32)
    ensures
        n == 0,
{
    0
}

/// The backend keeps no extended error detail; the query always reports
/// none available.
pub fn get_last_error() -> (n: i32)
    ensures
        n == 0,
{
    0
}

} // verus!
