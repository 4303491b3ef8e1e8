//! What a quorum collection measured, and the figures that a report shows.

use vstd::prelude::*;
use crate::error::QuorumError;
use crate::params::ThresholdParams;
use crate::stats::{is_maximum, is_minimum, max, min, percentile, spec_percentile};
use crate::timing::{span_ms, whole_ms, PhaseTimings};
use crate::topology::NetworkTopology;
use crate::validator::Arrival;

verus! {

/// The latency, in milliseconds, that a decryption must stay under.
pub const DEFAULT_TARGET_MS: u64 = 500;

/// What one quorum collection measured.
#[derive(Debug, Clone)]
pub struct DecryptionResult {
    pub topology: NetworkTopology,
    pub params: ThresholdParams,
    pub total_time_ms: u64,
    pub broadcast_time_ms: u64,
    pub collection_time_ms: u64,
    pub reconstruct_time_ms: u64,
    pub decrypt_time_ms: u64,
    pub shares_received: usize,
    /// Response time of each accepted validator, in arrival order.
    pub validator_response_times: Vec<u64>,
    /// Identity of each accepted validator, in arrival order.
    pub accepted_validators: Vec<usize>,
}

/// A `DecryptionResult` as a mathematical value.
pub struct DecryptionOutcome {
    pub topology: NetworkTopology,
    pub params: ThresholdParams,
    pub total_time_ms: u64,
    pub broadcast_time_ms: u64,
    pub collection_time_ms: u64,
    pub reconstruct_time_ms: u64,
    pub decrypt_time_ms: u64,
    pub shares_received: usize,
    pub validator_response_times: Seq<u64>,
    pub accepted_validators: Seq<usize>,
}

impl View for DecryptionResult {
    type V = DecryptionOutcome;

    open spec fn view(&self) -> DecryptionOutcome {
        DecryptionOutcome {
            topology: self.topology,
            params: self.params,
            total_time_ms: self.total_time_ms,
            broadcast_time_ms: self.broadcast_time_ms,
            collection_time_ms: self.collection_time_ms,
            reconstruct_time_ms: self.reconstruct_time_ms,
            decrypt_time_ms: self.decrypt_time_ms,
            shares_received: self.shares_received,
            validator_response_times: self.validator_response_times@,
            accepted_validators: self.accepted_validators@,
        }
    }
}

/// The result of a collection in which the given answers were accepted, in
/// that order, and whose phases took the given times.
pub open spec fn outcome_of(
    topology: NetworkTopology,
    params: ThresholdParams,
    timings: PhaseTimings,
    accepted: Seq<Arrival>,
) -> DecryptionOutcome {
    DecryptionOutcome {
        topology,
        params,
        total_time_ms: span_ms(timings.total_us as int),
        broadcast_time_ms: span_ms(timings.broadcast_us as int),
        collection_time_ms: span_ms(timings.collection_us as int),
        reconstruct_time_ms: span_ms(timings.reconstruct_us as int),
        decrypt_time_ms: span_ms(timings.decrypt_us as int),
        shares_received: accepted.len() as usize,
        validator_response_times: accepted.map_values(|a: Arrival| span_ms(a.elapsed_us as int)),
        accepted_validators: accepted.map_values(|a: Arrival| a.validator),
    }
}

/// The figures of one quorum collection that a report shows.
#[derive(Debug, Clone, Copy, PartialEq, Eq, Structural)]
pub struct LatencyReport {
    pub topology: NetworkTopology,
    pub total_validators: usize,
    pub threshold: usize,
    pub broadcast_ms: u64,
    pub collection_ms: u64,
    pub reconstruct_ms: u64,
    pub decrypt_ms: u64,
    pub total_ms: u64,
    pub shares_received: usize,
    pub fastest_ms: u64,
    pub slowest_ms: u64,
    pub p99_ms: u64,
    pub target_ms: u64,
    pub meets_target: bool,
}

impl DecryptionResult {
    /// Puts a result together from the accepted answers and the phase times.
    pub fn assemble(
        topology: NetworkTopology,
        params: ThresholdParams,
        timings: PhaseTimings,
        accepted: &[Arrival],
    ) -> (result: DecryptionResult)
        ensures
            result@ == outcome_of(topology, params, timings, accepted@),
    {
        let mut validator_response_times: Vec<u64> = Vec::new();
        let mut accepted_validators: Vec<usize> = Vec::new();
        let mut i: usize = 0;
        while i < accepted.len()
            invariant
                i <= accepted.len(),
                validator_response_times@ == accepted@.take(i as int).map_values(
                    |a: Arrival| span_ms(a.elapsed_us as int),
                ),
                accepted_validators@ == accepted@.take(i as int).map_values(
                    |a: Arrival| a.validator,
                ),
            decreases accepted.len() - i,
        {
            validator_response_times.push(whole_ms(accepted[i].elapsed_us));
            accepted_validators.push(accepted[i].validator);
            proof {
                let next = accepted@[i as int];
                assert(accepted@.take(i + 1) =~= accepted@.take(i as int).push(next));
            }
            i += 1;
        }
        proof {
            assert(accepted@.take(i as int) =~= accepted@);
        }
        DecryptionResult {
            topology,
            params,
            total_time_ms: whole_ms(timings.total_us),
            broadcast_time_ms: whole_ms(timings.broadcast_us),
            collection_time_ms: whole_ms(timings.collection_us),
            reconstruct_time_ms: whole_ms(timings.reconstruct_us),
            decrypt_time_ms: whole_ms(timings.decrypt_us),
            shares_received: accepted.len(),
            validator_response_times,
            accepted_validators,
        }
    }

    /// The total latency is under `target_ms`.
    pub open spec fn spec_meets(&self, target_ms: u64) -> bool {
        self.total_time_ms < target_ms
    }

    /// The total latency is under the default target of 500 ms.
    pub open spec fn spec_meets_target(&self) -> bool {
        self.spec_meets(DEFAULT_TARGET_MS)
    }

    /// `report` shows the figures of this result, held against `target_ms`:
    /// the phase times and counts as they are, the fastest, the slowest and
    /// the 99th percentile of the response times, and whether the total is
    /// under the target.
    pub open spec fn spec_report_matches(&self, target_ms: u64, report: LatencyReport) -> bool {
        &&& report.topology == self.topology
        &&& report.total_validators == self.params.total_validators
        &&& report.threshold == self.params.threshold
        &&& report.broadcast_ms == self.broadcast_time_ms
        &&& report.collection_ms == self.collection_time_ms
        &&& report.reconstruct_ms == self.reconstruct_time_ms
        &&& report.decrypt_ms == self.decrypt_time_ms
        &&& report.total_ms == self.total_time_ms
        &&& report.shares_received == self.shares_received
        &&& is_minimum(self.validator_response_times@, report.fastest_ms)
        &&& is_maximum(self.validator_response_times@, report.slowest_ms)
        &&& Ok::<u64, QuorumError>(report.p99_ms) == spec_percentile(
            self.validator_response_times@,
            99,
        )
        &&& report.target_ms == target_ms
        &&& report.meets_target == self.spec_meets(target_ms)
    }

    #[verifier::when_used_as_spec(spec_meets)]
    pub fn meets(&self, target_ms: u64) -> (r: bool)
        ensures
            r == self.spec_meets(target_ms),
    {
        self.total_time_ms < target_ms
    }

    #[verifier::when_used_as_spec(spec_meets_target)]
    pub fn meets_target(&self) -> (r: bool)
        ensures
            r == self.spec_meets_target(),
            r == (self.total_time_ms < 500),
    {
        self.total_time_ms < DEFAULT_TARGET_MS
    }

    /// The 99th percentile of the recorded response times.
    pub fn p99_latency(&self) -> (r: Result<u64, QuorumError>)
        ensures
            r == spec_percentile(self.validator_response_times@, 99),
            r is Err <==> self.validator_response_times@.len() == 0,
    {
        percentile(self.validator_response_times.as_slice(), 99)
    }

    /// The figures that a report of this result shows, against `target_ms`.
    pub fn report(&self, target_ms: u64) -> (r: Result<LatencyReport, QuorumError>)
        ensures
            match r {
                Ok(report) => self.spec_report_matches(target_ms, report),
                Err(e) => e == QuorumError::EmptyInput && self.validator_response_times@.len()
                    == 0,
            },
    {
        let times = self.validator_response_times.as_slice();
        let fastest_ms = match min(times) {
            Ok(m) => m,
            Err(e) => { return Err(e); },
        };
        let slowest_ms = match max(times) {
            Ok(m) => m,
            Err(e) => { return Err(e); },
        };
        let p99_ms = match percentile(times, 99) {
            Ok(m) => m,
            Err(e) => { return Err(e); },
        };
        Ok(
            LatencyReport {
                topology: self.topology,
                total_validators: self.params.total_validators,
                threshold: self.params.threshold,
                broadcast_ms: self.broadcast_time_ms,
                collection_ms: self.collection_time_ms,
                reconstruct_ms: self.reconstruct_time_ms,
                decrypt_ms: self.decrypt_time_ms,
                total_ms: self.total_time_ms,
                shares_received: self.shares_received,
                fastest_ms,
                slowest_ms,
                p99_ms,
                target_ms,
                meets_target: self.total_time_ms < target_ms,
            },
        )
    }
}

} // verus!
