//! Errors of quorum collection and latency statistics.

use vstd::prelude::*;

verus! {

/// What can go wrong while setting up or running a quorum collection.
#[derive(Debug, Clone, Copy, PartialEq, Eq, Structural)]
pub enum QuorumError {
    /// The threshold is zero or larger than the validator population.
    InvalidThreshold,
    /// The topology name is not a recognized deployment scenario.
    UnknownTopology,
    /// Fewer than `threshold` validators responded within the allowed wait.
    QuorumNotReached,
    /// A statistic was requested over zero samples.
    EmptyInput,
}

impl QuorumError {
    /// Whether a benchmark run may go on after this error.
    ///
    /// Only a missed quorum is recoverable: it is recorded as a failed trial.
    pub open spec fn spec_is_recoverable(&self) -> bool {
        *self == QuorumError::QuorumNotReached
    }

    #[verifier::when_used_as_spec(spec_is_recoverable)]
    pub fn is_recoverable(&self) -> (r: bool)
        ensures
            r == self.spec_is_recoverable(),
    {
        match self {
            QuorumError::QuorumNotReached => true,
            _ => false,
        }
    }

    /// A short human-readable description of the error.
    pub fn description(&self) -> (r: &'static str)
        ensures
            r@ == match *self {
                QuorumError::InvalidThreshold => "threshold out of range"@,
                QuorumError::UnknownTopology => "unknown network topology"@,
                QuorumError::QuorumNotReached => "quorum not reached"@,
                QuorumError::EmptyInput => "no samples to summarize"@,
            },
    {
        match self {
            QuorumError::InvalidThreshold => "threshold out of range",
            QuorumError::UnknownTopology => "unknown network topology",
            QuorumError::QuorumNotReached => "quorum not reached",
            QuorumError::EmptyInput => "no samples to summarize",
        }
    }
}

} // verus!
