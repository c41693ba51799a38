//! Conversions for the RPC surface's wire types.

use vstd::prelude::*;

verus! {

/// Splits a duration into the seconds and nanoseconds fields of the wire
/// form, clamping each at its signed maximum.
pub fn duration_parts(secs: u64, nanos: u32) -> (r: (i64, i32))
    ensures
        r.0 == if secs > i64::MAX {
            i64::MAX as int
        } else {
            secs as int
        },
        r.1 == if nanos > i32::MAX {
            i32::MAX as int
        } else {
            nanos as int
        },
{
    let seconds = if secs > i64::MAX as u64 {
        i64::MAX
    } else {
        secs as i64
    };
    let nanoseconds = if nanos > i32::MAX as u32 {
        i32::MAX
    } else {
        nanos as i32
    };
    (seconds, nanoseconds)
}

} // verus!
