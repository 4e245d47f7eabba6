//! Due times of the waitable timer that paces the CPU limiter.
use vstd::prelude::*;

verus! {

/// The relative due time of a delay, in negative 100-nanosecond ticks (the
/// waitable-timer convention): at least one tick, at most `i64::MAX` ticks.
pub fn relative_due_time(delay_nanos: u128) -> (r: i64)
    ensures
        r == -(if delay_nanos / 100 < 1 {
            1
        } else if delay_nanos / 100 > i64::MAX {
            i64::MAX as int
        } else {
            (delay_nanos / 100) as int
        }),
{
    let ticks = delay_nanos / 100;
    let ticks = if ticks < 1 { 1 } else { ticks };
    let ticks: i64 = if ticks > 0x7FFF_FFFF_FFFF_FFFF { 0x7FFF_FFFF_FFFF_FFFF } else { ticks as i64 };
    -ticks
}

} // verus!
