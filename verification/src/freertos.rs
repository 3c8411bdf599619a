//! Kernel time base: the tick type and the conversion from milliseconds
//! (the kernel ticks at 1 kHz).
use vstd::prelude::*;

verus! {

/// Kernel tick count.
pub type TickType = u32;

/// Wait without limit.
pub const PORT_MAX_DELAY: TickType = 0xFFFF_FFFF;

/// Ticks of a duration in milliseconds: one tick per millisecond.
pub fn ms_to_ticks(ms: u32) -> (r: TickType)
    ensures
        r == ms,
{
    ms
}

} // verus!
