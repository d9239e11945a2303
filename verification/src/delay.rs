//! The simulated network calls of an I/O unit: short random waits.

use vstd::prelude::*;

verus! {

/// The shortest simulated network call, in milliseconds.
pub const MIN_DELAY_MS: u64 = 10;

/// The number of different lengths that a simulated network call can have,
/// one millisecond apart.
pub const DELAY_SPREAD_MS: u64 = 20;

/// The length of the call that a random number selects, in milliseconds.
pub open spec fn delay_for(random: u64) -> u64 {
    (MIN_DELAY_MS + random % DELAY_SPREAD_MS) as u64
}

/// `rand::random::<u64>()`: some number, of which nothing is known.
#[verifier::external_body]
pub(crate) fn random_u64() -> u64 {
    rand::random::<u64>()
}

/// The length of the simulated network call that `random` selects: from 10
/// up to, and not including, 30 milliseconds.
pub fn network_delay_ms(random: u64) -> (millis: u64)
    ensures
        millis == delay_for(random),
        MIN_DELAY_MS <= millis < MIN_DELAY_MS + DELAY_SPREAD_MS,
{
    MIN_DELAY_MS + random % DELAY_SPREAD_MS
}

/// Draws the length of one simulated network call.
pub fn pick_network_delay() -> (millis: u64)
    ensures
        MIN_DELAY_MS <= millis < MIN_DELAY_MS + DELAY_SPREAD_MS,
{
    network_delay_ms(random_u64())
}

/// Draws the lengths of the simulated network calls of one unit.
pub fn network_delays(calls: usize) -> (delays: Vec<u64>)
    ensures
        delays.len() == calls,
        forall|i: int|
            0 <= i < delays.len() ==> MIN_DELAY_MS <= #[trigger] delays[i] < MIN_DELAY_MS
                + DELAY_SPREAD_MS,
{
    let mut delays: Vec<u64> = Vec::new();
    let mut i: usize = 0;
    while i < calls
        invariant
            i <= calls,
            delays.len() == i,
            forall|k: int|
                0 <= k < delays.len() ==> MIN_DELAY_MS <= #[trigger] delays[k] < MIN_DELAY_MS
                    + DELAY_SPREAD_MS,
        decreases calls - i,
    {
        delays.push(pick_network_delay());
        i = i + 1;
    }
    delays
}

} // verus!
