//! Frame pacing arithmetic for the host loop.

use vstd::prelude::*;

verus! {

pub const NANOS_PER_SEC: u64 = 1_000_000_000;

/// One frame at 60 Hz, in nanoseconds.
pub const NANOS_PER_FRAME: u32 = 16_666_666;

/// `nanos` as whole seconds and the nanoseconds left over.
pub fn split_nanos(nanos: u64) -> (r: (u64, u32))
    ensures
        r.0 == nanos / NANOS_PER_SEC,
        r.1 == nanos % NANOS_PER_SEC,
        r.1 < NANOS_PER_SEC,
{
    (nanos / NANOS_PER_SEC, (nanos % NANOS_PER_SEC) as u32)
}

/// What is left of a wait of `remaining` nanoseconds once `elapsed` have
/// passed; `None` when the wait is over.
pub fn time_left(remaining: u64, elapsed: u64) -> (r: Option<u64>)
    ensures
        r == (if remaining <= elapsed {
            None
        } else {
            Some((remaining - elapsed) as u64)
        }),
{
    if remaining <= elapsed {
        None
    } else {
        Some(remaining - elapsed)
    }
}

} // verus!
