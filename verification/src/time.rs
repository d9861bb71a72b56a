//! The wall-clock provider.
//!
//! The engine asks for the current instant as a Julian-day value. The host
//! clock hands back milliseconds since its epoch; the adapter anchors them
//! on the Julian-day origin, which precedes the host epoch start by
//! 2 440 587.5 days. The library counts the instant in whole milliseconds
//! of Julian time — the engine-facing day value is this count divided by
//! the milliseconds of one day, a conversion the unverified shell performs.

use vstd::prelude::*;

verus! {

/// Milliseconds between the Julian-day origin and the host epoch start:
/// 2 440 587.5 days of 86 400 000 ms each.
pub const JULIAN_EPOCH_OFFSET_MILLIS: u64 = 210_866_760_000_000;

/// Milliseconds in one day.
pub const MILLIS_PER_DAY: u64 = 86_400_000;

/// The current instant in milliseconds of Julian time, as a function of the
/// host clock reading.
pub open spec fn spec_julian_millis(host_epoch_millis: int) -> int {
    host_epoch_millis + JULIAN_EPOCH_OFFSET_MILLIS
}

/// Anchor a host clock reading on the Julian-day origin. The bound on the
/// reading only keeps the count inside the machine word; every realizable
/// clock value is far below it.
pub fn julian_millis(host_epoch_millis: u64) -> (j: u64)
    requires
        host_epoch_millis <= u64::MAX - JULIAN_EPOCH_OFFSET_MILLIS,
    ensures
        j == spec_julian_millis(host_epoch_millis as int),
{
    host_epoch_millis + JULIAN_EPOCH_OFFSET_MILLIS
}

/// Time monotonicity: under an advancing host clock, successive Julian-time
/// readings never decrease — and the host clock standing still never makes
/// them advance on their own.
pub proof fn lemma_time_monotonic(m1: int, m2: int)
    requires
        m1 <= m2,
    ensures
        spec_julian_millis(m1) <= spec_julian_millis(m2),
        m1 == m2 ==> spec_julian_millis(m1) == spec_julian_millis(m2),
{
}

} // verus!
