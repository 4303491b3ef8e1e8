//! Spans on the simulated clock and the phases of a collection.

use vstd::prelude::*;

verus! {

/// Whole milliseconds in a span of microseconds, rounded down; a span too
/// long for the result type counts as the longest one it can hold.
pub open spec fn span_ms(us: int) -> u64 {
    if us / 1000 > u64::MAX {
        u64::MAX
    } else {
        (us / 1000) as u64
    }
}

/// Whole milliseconds in a span of microseconds, rounded down.
pub fn whole_ms(us: u128) -> (ms: u64)
    ensures
        ms == span_ms(us as int),
{
    let ms: u128 = us / 1000;
    if ms > u64::MAX as u128 {
        u64::MAX
    } else {
        ms as u64
    }
}

/// A longer span never has fewer whole milliseconds.
pub proof fn lemma_span_ms_monotone(shorter: int, longer: int)
    requires
        0 <= shorter <= longer,
    ensures
        span_ms(shorter) <= span_ms(longer),
{
}

/// A latency given in milliseconds, followed by less than a millisecond of
/// further work, still reads as that latency.
pub proof fn lemma_span_ms_of_latency(latency_ms: u64, extra_us: int)
    requires
        0 <= extra_us < 1000,
    ensures
        span_ms(latency_ms * 1000 + extra_us) == latency_ms,
{
}

/// How long each phase of one quorum collection took, in microseconds.
#[derive(Debug, Clone, Copy, PartialEq, Eq, Structural)]
pub struct PhaseTimings {
    /// Sending the request to every validator.
    pub broadcast_us: u128,
    /// Waiting for the threshold of shares.
    pub collection_us: u128,
    /// Reconstructing the secret from the shares.
    pub reconstruct_us: u128,
    /// Decrypting the payload with the secret.
    pub decrypt_us: u128,
    /// From the start of the broadcast to the end of the decryption.
    pub total_us: u128,
}

} // verus!
