//! Frame timestamps from a performance counter.
use vstd::prelude::*;

verus! {

/// A performance-counter reading in nanoseconds: `counter` ticks of a clock
/// of `frequency` ticks per second, truncated to 64 bits; 0 when the
/// frequency is not positive.
pub open spec fn spec_ticks_to_nanoseconds(counter: i64, frequency: i64) -> u64 {
    if frequency > 0 {
        ((counter * 1_000_000_000) / (frequency as int)) as u64
    } else {
        0
    }
}

/// Convert a performance-counter reading to nanoseconds.
pub fn ticks_to_nanoseconds(counter: i64, frequency: i64) -> (nanoseconds: u64)
    requires
        counter >= 0,
    ensures
        nanoseconds == spec_ticks_to_nanoseconds(counter, frequency),
{
    if frequency > 0 {
        let scaled = counter as u128 * 1_000_000_000;
        (scaled / frequency as u128) as u64
    } else {
        0
    }
}

} // verus!
