//! Simulated validators: each answers a request after a fixed latency.

use vstd::prelude::*;
use rand::rngs::StdRng;
use rand::{Rng, SeedableRng};
use crate::order::Ranked;
use crate::params::{CostModel, SHARE_SIZE_BYTES};
use crate::topology::NetworkTopology;

verus! {

/// Multiplier that spreads validator identities over the seed space.
pub const SEED_STRIDE: u64 = 0x9E37_79B9_7F4A_7C15;

/// The value that a generator seeded with `seed` draws first from the
/// inclusive range `min_ms..=max_ms`.
pub uninterp spec fn seeded_latency(seed: u64, min_ms: u64, max_ms: u64) -> u64;

/// Seeds a `rand::rngs::StdRng` with `SeedableRng::seed_from_u64` and draws one
/// value from it with `Rng::gen_range` over the inclusive range.
///
/// Trusted: the generator is a deterministic function of its seed, so the
/// draw is a function of the three arguments; and `gen_range` returns a value
/// of the range it is given. It panics on an empty range, which `requires`
/// excludes.
#[verifier::external_body]
fn draw_latency(seed: u64, min_ms: u64, max_ms: u64) -> (latency_ms: u64)
    requires
        min_ms <= max_ms,
    ensures
        latency_ms == seeded_latency(seed, min_ms, max_ms),
        min_ms <= latency_ms <= max_ms,
{
    StdRng::seed_from_u64(seed).gen_range(min_ms..=max_ms)
}

/// The seed of the generator from which validator `id` draws its latency.
///
/// Every validator has a generator of its own, so its latency depends on the
/// run's seed and on its identity, not on how many validators there are.
pub open spec fn validator_seed(seed: u64, id: usize) -> u64 {
    seed ^ (id as u64).wrapping_add(1).wrapping_mul(SEED_STRIDE)
}

/// The share that every simulated validator holds: zero bytes.
pub open spec fn placeholder_share() -> Seq<u8> {
    Seq::new(SHARE_SIZE_BYTES as nat, |i: int| 0u8)
}

/// Simulated time, in microseconds after the request went out, at which a
/// validator with the given network latency has answered: the latency, then
/// the decryption of its share.
pub open spec fn completion_us(latency_ms: u64, costs: CostModel) -> int {
    latency_ms * 1000 + costs.share_decrypt_us
}

/// A simulated validator: it holds a share and answers a decryption request
/// after a latency that is fixed when it is made.
#[derive(Debug, Clone)]
pub struct Validator {
    pub id: usize,
    pub share: Vec<u8>,
    pub response_latency_ms: u64,
    /// An offline validator never answers.
    pub offline: bool,
}

/// A `Validator` as a mathematical value.
pub struct ValidatorView {
    pub id: usize,
    pub share: Seq<u8>,
    pub response_latency_ms: u64,
    pub offline: bool,
}

impl View for Validator {
    type V = ValidatorView;

    open spec fn view(&self) -> ValidatorView {
        ValidatorView {
            id: self.id,
            share: self.share@,
            response_latency_ms: self.response_latency_ms,
            offline: self.offline,
        }
    }
}

impl ValidatorView {
    /// Whether the validator answers at all.
    pub open spec fn is_responsive(self) -> bool {
        !self.offline
    }

    /// When the validator's answer arrives, under the given costs.
    pub open spec fn arrival(self, costs: CostModel) -> Arrival {
        Arrival {
            elapsed_us: completion_us(self.response_latency_ms, costs) as u128,
            validator: self.id,
        }
    }
}

/// The validator with the given identity and latency: it holds the
/// placeholder share and is not offline.
pub open spec fn fixed_validator(id: usize, response_latency_ms: u64) -> ValidatorView {
    ValidatorView { id, share: placeholder_share(), response_latency_ms, offline: false }
}

/// Validator `id` of a population that is drawn for `topology` from `seed`.
pub open spec fn seeded_validator(
    id: usize,
    topology: NetworkTopology,
    seed: u64,
) -> ValidatorView {
    fixed_validator(
        id,
        seeded_latency(
            validator_seed(seed, id),
            topology.spec_latency_ms().0,
            topology.spec_latency_ms().1,
        ),
    )
}

/// A validator's answer to a decryption request.
#[derive(Debug, Clone)]
pub struct Response {
    pub validator_id: usize,
    pub share: Vec<u8>,
    /// Microseconds between the request and the answer.
    pub elapsed_us: u128,
}

/// The moment at which a validator's answer reaches the coordinator.
#[derive(Debug, Clone, Copy, PartialEq, Eq, Structural)]
pub struct Arrival {
    /// Microseconds after the request went out.
    pub elapsed_us: u128,
    pub validator: usize,
}

impl Ranked for Arrival {
    /// Earlier answers come first; of two that arrive at the same time, the
    /// one from the validator that was asked first.
    open spec fn spec_at_most(self, other: Self) -> bool {
        self.elapsed_us < other.elapsed_us || (self.elapsed_us == other.elapsed_us
            && self.validator <= other.validator)
    }

    fn at_most(&self, other: &Self) -> (r: bool) {
        self.elapsed_us < other.elapsed_us || (self.elapsed_us == other.elapsed_us
            && self.validator <= other.validator)
    }

    proof fn lemma_total_order() {
    }
}

impl Validator {
    /// A validator of the given topology. Its latency is drawn uniformly from
    /// the topology's range by a generator seeded from `seed` and `id`.
    pub fn new(id: usize, topology: &NetworkTopology, seed: u64) -> (v: Validator)
        ensures
            v@ == seeded_validator(id, *topology, seed),
            topology.spec_latency_ms().0 <= v.response_latency_ms <= topology.spec_latency_ms().1,
    {
        let (min_ms, max_ms) = topology.latency_ms();
        let own_seed = seed ^ (id as u64).wrapping_add(1).wrapping_mul(SEED_STRIDE);
        let response_latency_ms = draw_latency(own_seed, min_ms, max_ms);
        Self::with_latency(id, response_latency_ms)
    }

    /// A validator with a latency chosen by the caller.
    pub fn with_latency(id: usize, response_latency_ms: u64) -> (v: Validator)
        ensures
            v@ == fixed_validator(id, response_latency_ms),
    {
        let share = vec![0u8; SHARE_SIZE_BYTES];
        assert(share@ =~= placeholder_share());
        Validator { id, share, response_latency_ms, offline: false }
    }

    /// Whether the validator answers at all.
    pub fn is_responsive(&self) -> (r: bool)
        ensures
            r == self@.is_responsive(),
    {
        !self.offline
    }

    /// When the validator's answer arrives, under the given costs.
    pub fn arrival(&self, costs: CostModel) -> (a: Arrival)
        ensures
            a == self@.arrival(costs),
            a.elapsed_us == completion_us(self.response_latency_ms, costs),
    {
        let network_us = (self.response_latency_ms as u128) * 1000;
        Arrival { elapsed_us: network_us + (costs.share_decrypt_us as u128), validator: self.id }
    }

    /// The validator's answer on the simulated clock: its identity, a copy of
    /// its share, and the time it took. An offline validator gives none.
    pub fn respond_with_share(&self, costs: CostModel) -> (r: Option<Response>)
        ensures
            r is Some <==> self@.is_responsive(),
            r matches Some(response) ==> {
                &&& response.validator_id == self.id
                &&& response.share@ == self.share@
                &&& response.elapsed_us == completion_us(self.response_latency_ms, costs)
            },
    {
        if self.offline {
            None
        } else {
            let arrival = self.arrival(costs);
            Some(
                Response {
                    validator_id: self.id,
                    share: self.share.clone(),
                    elapsed_us: arrival.elapsed_us,
                },
            )
        }
    }
}

} // verus!
