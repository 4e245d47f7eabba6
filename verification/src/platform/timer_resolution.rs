//! Conversions between timer resolutions (100-nanosecond units) and
//! multimedia timer periods (milliseconds).
use vstd::prelude::*;

use crate::text::decimal;
use crate::text::decimal_string;

verus! {

/// `MMSYSERR_NOERROR`.
pub const MMSYSERR_NOERROR: u32 = 0;

/// The timer period, in whole milliseconds rounded up and at least 1, that
/// covers a resolution in 100-nanosecond units.
pub fn resolution_100ns_to_period_ms(value_100ns: u32) -> (r: u32)
    ensures
        r == if (value_100ns + 9_999) / 10_000 < 1 { 1 } else { (value_100ns + 9_999) / 10_000 },
        r >= 1,
        (r as int) * 10_000 >= value_100ns,
{
    let q = value_100ns / 10_000;
    let q = if value_100ns % 10_000 != 0 { q + 1 } else { q };
    if q < 1 { 1 } else { q }
}

/// A timer period in 100-nanosecond units, saturating at `u32::MAX`.
pub fn period_ms_to_100ns(period_ms: u32) -> (r: u32)
    ensures
        r == if period_ms as int * 10_000 > u32::MAX { u32::MAX as int } else { period_ms as int * 10_000 },
{
    if period_ms > 429_496 {
        u32::MAX
    } else {
        period_ms * 10_000
    }
}

/// `Ok` for `MMSYSERR_NOERROR`, else `<operation> failed with MMRESULT <n>.`
pub fn mm_result(operation: &str, result: u32) -> (r: Result<(), String>)
    ensures
        result == MMSYSERR_NOERROR ==> r is Ok,
        result != MMSYSERR_NOERROR ==> r is Err && r->Err_0@ == operation@ + " failed with MMRESULT "@ + decimal(
            result as nat,
        ) + "."@,
{
    if result == MMSYSERR_NOERROR {
        Ok(())
    } else {
        let mut s = String::from_str(operation);
        s.append(" failed with MMRESULT ");
        s.append(decimal_string(result as u64).as_str());
        s.append(".");
        Err(s)
    }
}

/// Law: a period converted to a resolution and back is the period (for
/// periods that do not saturate, and at least 1 ms).
pub proof fn law_period_round_trip(period_ms: u32)
    requires
        1 <= period_ms <= 429_496,
    ensures
        ({
            let res = period_ms as int * 10_000;
            (res + 9_999) / 10_000 == period_ms
        }),
{
}

} // verus!
