use vstd::prelude::*;

verus! {

/// How long the clock waits before its next reading, in nanoseconds, when
/// the current reading is `subsec_micros` microseconds past a whole
/// second: a second, less a tenth of the lag once it is over 10 ms, so
/// that the readings drift towards 10 ms after each second.
pub fn sync_delay(subsec_micros: u32) -> (r: u64)
    requires
        subsec_micros <= 10_000_000,
    ensures
        r == if subsec_micros > 10000 { 1_000_000_000 - subsec_micros * 100 } else { 1_000_000_000 },
{
    if subsec_micros > 10000 {
        1_000_000_000 - (subsec_micros as u64) * 100
    } else {
        1_000_000_000
    }
}

} // verus!
