//! Parameters of a threshold decryption and the costs of the work around it.

use vstd::prelude::*;
use crate::error::QuorumError;

verus! {

/// Size in bytes of the placeholder share that every validator holds.
pub const SHARE_SIZE_BYTES: usize = 32;

/// Parameters of a threshold decryption: how many validators there are and how
/// many of their shares are needed.
#[derive(Debug, Clone, Copy, PartialEq, Eq, Structural)]
pub struct ThresholdParams {
    pub total_validators: usize,
    pub threshold: usize,
    pub share_size_bytes: usize,
}

impl ThresholdParams {
    /// `1 <= threshold <= total_validators`.
    pub open spec fn spec_is_valid(&self) -> bool {
        1 <= self.threshold <= self.total_validators
    }

    /// The production setting: 67 of 100 validators.
    pub fn ecliptica_default() -> (p: Self)
        ensures
            p == (ThresholdParams { total_validators: 100, threshold: 67, share_size_bytes: 32 }),
            p.spec_is_valid(),
    {
        Self { total_validators: 100, threshold: 67, share_size_bytes: 32 }
    }

    /// A small test network: 7 of 10 validators.
    pub fn small_testnet() -> (p: Self)
        ensures
            p == (ThresholdParams { total_validators: 10, threshold: 7, share_size_bytes: 32 }),
            p.spec_is_valid(),
    {
        Self { total_validators: 10, threshold: 7, share_size_bytes: 32 }
    }

    #[verifier::when_used_as_spec(spec_is_valid)]
    pub fn is_valid(&self) -> (r: bool)
        ensures
            r == self.spec_is_valid(),
    {
        1 <= self.threshold && self.threshold <= self.total_validators
    }

    /// Checks the threshold against the population.
    pub fn validate(&self) -> (r: Result<(), QuorumError>)
        ensures
            r == if self.spec_is_valid() {
                Ok::<(), QuorumError>(())
            } else {
                Err::<(), QuorumError>(QuorumError::InvalidThreshold)
            },
    {
        if self.is_valid() {
            Ok(())
        } else {
            Err(QuorumError::InvalidThreshold)
        }
    }
}

/// Fixed costs, in microseconds of simulated time, of the work that surrounds
/// the network delay.
#[derive(Debug, Clone, Copy, PartialEq, Eq, Structural)]
pub struct CostModel {
    /// Time a validator spends decrypting its share before it answers.
    pub share_decrypt_us: u64,
    /// Time the coordinator spends reconstructing the secret from the shares.
    pub reconstruct_us: u64,
    /// Time the coordinator spends decrypting the payload with the secret.
    pub payload_decrypt_us: u64,
}

impl CostModel {
    /// 200 microseconds per share decryption; reconstruction and payload
    /// decryption cost nothing.
    pub open spec fn spec_standard() -> CostModel {
        CostModel { share_decrypt_us: 200, reconstruct_us: 0, payload_decrypt_us: 0 }
    }

    #[verifier::when_used_as_spec(spec_standard)]
    pub fn standard() -> (c: Self)
        ensures
            c == Self::spec_standard(),
    {
        Self { share_decrypt_us: 200, reconstruct_us: 0, payload_decrypt_us: 0 }
    }
}

} // verus!
