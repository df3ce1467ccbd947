//! Retry delays: the doubling, capped delay of the ingestion layer and the
//! fixed delay of the sink layer.

use vstd::prelude::*;

verus! {

/// First delay after a device failure, in seconds.
pub const BASE_DELAY_SECS: u64 = 5;

/// Largest delay between two attempts on the device, in seconds.
pub const MAX_DELAY_SECS: u64 = 60;

/// Delay before a sink reconnects after a transport failure, in seconds.
pub const SINK_RETRY_SECS: u64 = 10;

/// The delay that follows `delay` when one more failure comes in a row.
pub open spec fn spec_next_delay(delay: u64) -> u64 {
    if 2 * delay >= MAX_DELAY_SECS {
        MAX_DELAY_SECS
    } else {
        (2 * delay) as u64
    }
}

/// Doubles `delay`, up to the cap.
pub fn next_delay(delay: u64) -> (r: u64)
    ensures
        r == spec_next_delay(delay),
{
    if delay >= MAX_DELAY_SECS / 2 {
        MAX_DELAY_SECS
    } else {
        delay * 2
    }
}

} // verus!
