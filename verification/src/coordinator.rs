//! The coordinator of a threshold decryption and its run on the simulated clock.

use vstd::prelude::*;
use vstd::relations::sorted_by;
use crate::collector::{arrival_of, CollectorAction, QuorumCollector};
use crate::error::QuorumError;
use crate::order::{rank_order, sort_ranked};
use crate::params::{CostModel, ThresholdParams, SHARE_SIZE_BYTES};
use crate::result::{outcome_of, DecryptionOutcome, DecryptionResult};
use crate::schedule::{
    all_responsive, arrival_order, arrivals, ids_in_place, is_answer_of, lemma_arrival_order,
};
use crate::timing::PhaseTimings;
use crate::topology::NetworkTopology;
use crate::validator::{
    fixed_validator, seeded_validator, Arrival, Response, Validator, ValidatorView,
};

verus! {

/// Size in bytes of the placeholder that stands for a decrypted payload.
pub const PAYLOAD_SIZE_BYTES: usize = 256;

/// The phase times of a simulated collection in which the given answers
/// were accepted: the broadcast takes no time, the collection lasts until
/// the last accepted answer, and reconstruction and payload decryption take
/// what the cost model says.
pub open spec fn simulated_timings(costs: CostModel, accepted: Seq<Arrival>) -> PhaseTimings {
    let collection_us = accepted.last().elapsed_us;
    PhaseTimings {
        broadcast_us: 0,
        collection_us,
        reconstruct_us: costs.reconstruct_us as u128,
        decrypt_us: costs.payload_decrypt_us as u128,
        total_us: (collection_us + costs.reconstruct_us + costs.payload_decrypt_us) as u128,
    }
}

/// The population of `total` validators that is drawn for `topology` from
/// `seed`.
pub open spec fn seeded_population(total: usize, topology: NetworkTopology, seed: u64) -> Seq<
    ValidatorView,
> {
    Seq::new(total as nat, |i: int| seeded_validator(i as usize, topology, seed))
}

/// The population with one validator for each of the given latencies.
pub open spec fn fixed_population(latencies: Seq<u64>) -> Seq<ValidatorView> {
    Seq::new(latencies.len(), |i: int| fixed_validator(i as usize, latencies[i]))
}

/// Every validator of the population has a latency in the given range.
pub open spec fn latencies_within(
    population: Seq<ValidatorView>,
    min_ms: u64,
    max_ms: u64,
) -> bool {
    forall|i: int|
        0 <= i < population.len() ==> min_ms <= (#[trigger] population[i]).response_latency_ms
            <= max_ms
}

/// A `ThresholdDecryption` as a mathematical value: the setting of a
/// collection.
pub struct Coordination {
    pub topology: NetworkTopology,
    pub params: ThresholdParams,
    pub costs: CostModel,
    /// The validators, in the order in which they are asked.
    pub population: Seq<ValidatorView>,
}

impl Coordination {
    /// The threshold is valid, there are as many validators as the
    /// parameters say, and each validator's identity is its position.
    pub open spec fn wf(self) -> bool {
        &&& self.params.spec_is_valid()
        &&& self.population.len() == self.params.total_validators
        &&& ids_in_place(self.population)
    }

    /// The setting that `ThresholdDecryption::new` makes: validators drawn
    /// for the topology from the seed, and the standard costs.
    pub open spec fn seeded(
        params: ThresholdParams,
        topology: NetworkTopology,
        seed: u64,
    ) -> Coordination {
        Coordination {
            topology,
            params,
            costs: CostModel::spec_standard(),
            population: seeded_population(params.total_validators, topology, seed),
        }
    }

    /// The setting that `ThresholdDecryption::with_latencies` makes: one
    /// validator for each latency, and the standard costs.
    pub open spec fn fixed(
        topology: NetworkTopology,
        threshold: usize,
        latencies: Seq<u64>,
    ) -> Coordination {
        Coordination {
            topology,
            params: ThresholdParams {
                total_validators: latencies.len() as usize,
                threshold,
                share_size_bytes: SHARE_SIZE_BYTES,
            },
            costs: CostModel::spec_standard(),
            population: fixed_population(latencies),
        }
    }

    /// The same setting with validator `id` offline, if there is such a
    /// validator.
    pub open spec fn with_offline(self, id: usize) -> Coordination {
        if id < self.population.len() {
            Coordination {
                population: self.population.update(
                    id as int,
                    ValidatorView { offline: true, ..self.population[id as int] },
                ),
                ..self
            }
        } else {
            self
        }
    }

    /// The answers in the order in which they reach the coordinator.
    pub open spec fn arrival_order(self) -> Seq<Arrival> {
        arrival_order(self.population, self.costs)
    }

    /// Enough validators answer, and the answer that completes the quorum
    /// arrives within the allowed wait.
    pub open spec fn quorum_within(self, max_wait_ms: Option<u64>) -> bool {
        let order = self.arrival_order();
        let threshold = self.params.threshold as int;
        &&& order.len() >= threshold
        &&& max_wait_ms matches Some(limit_ms) ==> order[threshold - 1].elapsed_us <= limit_ms
            * 1000
    }

    /// The answers that a collection accepts: the first `threshold` to
    /// arrive.
    pub open spec fn accepted(self) -> Seq<Arrival> {
        self.arrival_order().take(self.params.threshold as int)
    }

    /// What one collection gives: the result if the quorum is reached within
    /// the allowed wait, `QuorumNotReached` if not.
    pub open spec fn outcome(self, max_wait_ms: Option<u64>) -> Result<
        DecryptionOutcome,
        QuorumError,
    > {
        if self.quorum_within(max_wait_ms) {
            Ok(
                outcome_of(
                    self.topology,
                    self.params,
                    simulated_timings(self.costs, self.accepted()),
                    self.accepted(),
                ),
            )
        } else {
            Err(QuorumError::QuorumNotReached)
        }
    }
}

/// Coordinates one threshold decryption over a population of simulated
/// validators: it asks all of them at once and takes the first `threshold`
/// answers.
pub struct ThresholdDecryption {
    params: ThresholdParams,
    validators: Vec<Validator>,
    topology: NetworkTopology,
    costs: CostModel,
}

impl View for ThresholdDecryption {
    type V = Coordination;

    closed spec fn view(&self) -> Coordination {
        Coordination {
            topology: self.topology,
            params: self.params,
            costs: self.costs,
            population: self.validators@.map_values(|v: Validator| v@),
        }
    }
}

impl ThresholdDecryption {
    #[verifier::type_invariant]
    spec fn inv(&self) -> bool {
        self@.wf()
    }

    /// A coordinator over `params.total_validators` validators of the given
    /// topology, whose latencies are drawn from `seed`. Fails with
    /// `InvalidThreshold`, before any validator is made, unless
    /// `1 <= threshold <= total_validators`.
    pub fn new(params: ThresholdParams, topology: NetworkTopology, seed: u64) -> (r: Result<
        ThresholdDecryption,
        QuorumError,
    >)
        ensures
            match r {
                Ok(c) => {
                    &&& params.spec_is_valid()
                    &&& c@ == Coordination::seeded(params, topology, seed)
                    &&& c@.wf()
                    &&& all_responsive(c@.population)
                    &&& latencies_within(
                        c@.population,
                        topology.spec_latency_ms().0,
                        topology.spec_latency_ms().1,
                    )
                },
                Err(e) => e == QuorumError::InvalidThreshold && !params.spec_is_valid(),
            },
    {
        if !params.is_valid() {
            return Err(QuorumError::InvalidThreshold);
        }
        let mut validators: Vec<Validator> = Vec::new();
        let mut id: usize = 0;
        while id < params.total_validators
            invariant
                id <= params.total_validators,
                validators@.len() == id,
                forall|i: int|
                    0 <= i < id ==> {
                        &&& (#[trigger] validators@[i])@ == seeded_validator(
                            i as usize,
                            topology,
                            seed,
                        )
                        &&& topology.spec_latency_ms().0 <= validators@[i].response_latency_ms
                            <= topology.spec_latency_ms().1
                    },
            decreases params.total_validators - id,
        {
            validators.push(Validator::new(id, &topology, seed));
            id += 1;
        }
        let coordinator = ThresholdDecryption {
            params,
            validators,
            topology,
            costs: CostModel::standard(),
        };
        assert(coordinator@.population =~= seeded_population(
            params.total_validators,
            topology,
            seed,
        ));
        Ok(coordinator)
    }

    /// A coordinator for the topology of the given name. Fails with
    /// `InvalidThreshold` unless `1 <= threshold <= total_validators`, and
    /// with `UnknownTopology` if the threshold is valid but no topology has
    /// that name.
    pub fn for_topology(params: ThresholdParams, name: &str, seed: u64) -> (r: Result<
        ThresholdDecryption,
        QuorumError,
    >)
        ensures
            match r {
                Ok(c) => {
                    &&& params.spec_is_valid()
                    &&& NetworkTopology::spec_from_name(name@) == Some(c@.topology)
                    &&& c@ == Coordination::seeded(params, c@.topology, seed)
                    &&& c@.wf()
                    &&& all_responsive(c@.population)
                    &&& latencies_within(
                        c@.population,
                        c@.topology.spec_latency_ms().0,
                        c@.topology.spec_latency_ms().1,
                    )
                },
                Err(e) => if !params.spec_is_valid() {
                    e == QuorumError::InvalidThreshold
                } else {
                    e == QuorumError::UnknownTopology && NetworkTopology::spec_from_name(name@)
                        is None
                },
            },
    {
        if !params.is_valid() {
            return Err(QuorumError::InvalidThreshold);
        }
        match NetworkTopology::from_name(name) {
            Ok(topology) => Self::new(params, topology, seed),
            Err(e) => Err(e),
        }
    }

    /// A coordinator over one validator for each of the given latencies, in
    /// that order. Fails with `InvalidThreshold` unless
    /// `1 <= threshold <= latencies.len()`.
    pub fn with_latencies(topology: NetworkTopology, threshold: usize, latencies: &[u64]) -> (r:
        Result<ThresholdDecryption, QuorumError>)
        ensures
            match r {
                Ok(c) => {
                    &&& 1 <= threshold <= latencies@.len()
                    &&& c@ == Coordination::fixed(topology, threshold, latencies@)
                    &&& c@.wf()
                    &&& all_responsive(c@.population)
                },
                Err(e) => e == QuorumError::InvalidThreshold && !(1 <= threshold
                    <= latencies@.len()),
            },
    {
        let params = ThresholdParams {
            total_validators: latencies.len(),
            threshold,
            share_size_bytes: SHARE_SIZE_BYTES,
        };
        if !params.is_valid() {
            return Err(QuorumError::InvalidThreshold);
        }
        let mut validators: Vec<Validator> = Vec::new();
        let mut id: usize = 0;
        while id < latencies.len()
            invariant
                id <= latencies@.len(),
                validators@.len() == id,
                forall|i: int|
                    0 <= i < id ==> (#[trigger] validators@[i])@ == fixed_validator(
                        i as usize,
                        latencies@[i],
                    ),
            decreases latencies@.len() - id,
        {
            validators.push(Validator::with_latency(id, latencies[id]));
            id += 1;
        }
        let coordinator = ThresholdDecryption {
            params,
            validators,
            topology,
            costs: CostModel::standard(),
        };
        assert(coordinator@.population =~= fixed_population(latencies@));
        Ok(coordinator)
    }

    /// The same coordinator with other costs for the work that surrounds the
    /// network delay.
    pub fn with_costs(self, costs: CostModel) -> (c: ThresholdDecryption)
        ensures
            c@ == (Coordination { costs, ..self@ }),
            c@.wf(),
    {
        proof {
            use_type_invariant(&self);
        }
        let ThresholdDecryption { params, validators, topology, costs: _ } = self;
        ThresholdDecryption { params, validators, topology, costs }
    }

    /// The same coordinator with validator `id` taken offline: it no longer
    /// answers. An `id` that no validator has changes nothing.
    pub fn with_offline(self, id: usize) -> (c: ThresholdDecryption)
        ensures
            c@ == self@.with_offline(id),
            c@.wf(),
    {
        proof {
            use_type_invariant(&self);
        }
        let ghost before = self@.population;
        let ThresholdDecryption { params, mut validators, topology, costs } = self;
        assert(before == validators@.map_values(|v: Validator| v@));
        if id < validators.len() {
            let replacement = Validator {
                id: validators[id].id,
                share: validators[id].share.clone(),
                response_latency_ms: validators[id].response_latency_ms,
                offline: true,
            };
            validators.set(id, replacement);
        }
        proof {
            let after = validators@.map_values(|v: Validator| v@);
            assert forall|i: int| 0 <= i < after.len() implies (#[trigger] after[i]).id == i by {
                assert(before[i].id == i);
            }
        }
        let coordinator = ThresholdDecryption { params, validators, topology, costs };
        proof {
            if id < before.len() {
                assert(coordinator@.population =~= before.update(
                    id as int,
                    ValidatorView { offline: true, ..before[id as int] },
                ));
            } else {
                assert(coordinator@.population =~= before);
            }
        }
        coordinator
    }

    /// The parameters of the decryption.
    pub fn params(&self) -> (p: ThresholdParams)
        ensures
            p == self@.params,
            p.spec_is_valid(),
            self@.wf(),
    {
        proof {
            use_type_invariant(self);
        }
        self.params
    }

    /// The topology that the validators belong to.
    pub fn topology(&self) -> (t: NetworkTopology)
        ensures
            t == self@.topology,
    {
        self.topology
    }

    /// The costs of the work that surrounds the network delay.
    pub fn costs(&self) -> (c: CostModel)
        ensures
            c == self@.costs,
    {
        self.costs
    }

    /// The validators, in the order in which they are asked.
    pub fn validators(&self) -> (v: &[Validator])
        ensures
            v@.map_values(|x: Validator| x@) == self@.population,
            self@.wf(),
    {
        proof {
            use_type_invariant(self);
        }
        self.validators.as_slice()
    }

    /// Stands for the reconstruction of the secret from the accepted shares:
    /// the result is a placeholder of zero bytes.
    pub fn reconstruct_secret(&self, shares: &[Response]) -> (secret: Vec<u8>)
        ensures
            secret@ == Seq::new(SHARE_SIZE_BYTES as nat, |i: int| 0u8),
    {
        let secret = vec![0u8; SHARE_SIZE_BYTES];
        assert(secret@ =~= Seq::new(SHARE_SIZE_BYTES as nat, |i: int| 0u8));
        secret
    }

    /// Stands for the decryption of the payload with the secret: the result
    /// is a placeholder of zero bytes.
    pub fn decrypt_payload(&self, secret: &[u8]) -> (payload: Vec<u8>)
        ensures
            payload@ == Seq::new(PAYLOAD_SIZE_BYTES as nat, |i: int| 0u8),
    {
        let payload = vec![0u8; PAYLOAD_SIZE_BYTES];
        assert(payload@ =~= Seq::new(PAYLOAD_SIZE_BYTES as nat, |i: int| 0u8));
        payload
    }

    /// Runs one threshold decryption on the simulated clock and says how
    /// long it took.
    ///
    /// All validators are asked at time zero. Their answers are taken in the
    /// order in which they arrive, and the collection stops at the answer
    /// that completes the quorum; later answers are not waited for. Then the
    /// secret is reconstructed and the payload decrypted. If fewer than
    /// `threshold` validators answer, or the quorum is not complete after
    /// `max_wait_ms`, the result is `QuorumNotReached`.
    pub fn decrypt_transaction(&self, max_wait_ms: Option<u64>) -> (r: Result<
        DecryptionResult,
        QuorumError,
    >)
        ensures
            self@.wf(),
            match r {
                Ok(result) => self@.outcome(max_wait_ms) == Ok::<DecryptionOutcome, QuorumError>(
                    result@,
                ),
                Err(e) => self@.outcome(max_wait_ms) == Err::<DecryptionOutcome, QuorumError>(e),
            },
            r is Ok <==> self@.quorum_within(max_wait_ms),
            r matches Ok(result) ==> {
                &&& result.shares_received == self@.params.threshold
                &&& result.validator_response_times@.len() == self@.params.threshold
                &&& result.accepted_validators@.len() == self@.params.threshold
            },
            r matches Err(e) ==> e == QuorumError::QuorumNotReached,
            all_responsive(self@.population) && max_wait_ms is None ==> r is Ok,
    {
        proof {
            use_type_invariant(self);
            lemma_arrival_order(self@.population, self.costs);
        }
        let costs = self.costs;
        let threshold = self.params.threshold;

        // Broadcast: every validator is asked at time zero.
        let mut under_way: Vec<Arrival> = Vec::new();
        let mut asked: usize = 0;
        while asked < self.validators.len()
            invariant
                asked <= self.validators@.len(),
                self@.population.len() == self.validators@.len(),
                under_way@ == arrivals(self@.population.take(asked as int), costs),
            decreases self.validators@.len() - asked,
        {
            let validator = &self.validators[asked];
            if validator.is_responsive() {
                under_way.push(validator.arrival(costs));
            }
            proof {
                let so_far = self@.population.take(asked + 1);
                assert(so_far.drop_last() =~= self@.population.take(asked as int));
                assert(so_far.last() == validator@);
            }
            asked += 1;
        }
        proof {
            assert(self@.population.take(asked as int) =~= self@.population);
        }

        // Collection: answers are taken as they arrive, until the quorum is
        // complete or the wait is over.
        let order = sort_ranked(under_way.as_slice());
        let mut collector = match QuorumCollector::new(self.topology, self.params) {
            Ok(collector) => collector,
            Err(e) => { return Err(e); },
        };
        let mut waiting = true;
        let mut taken: usize = 0;
        let mut collection_us: u128 = 0;
        let ghost mut overdue = false;
        while waiting && taken < order.len()
            invariant
                self@.wf(),
                self@.population == self.validators@.map_values(|v: Validator| v@),
                self@.costs == costs,
                order@ == self@.arrival_order(),
                sorted_by(order@, rank_order::<Arrival>()),
                forall|j: int|
                    0 <= j < order@.len() ==> is_answer_of(
                        self@.population,
                        costs,
                        #[trigger] order@[j],
                    ),
                taken <= order@.len(),
                collector@.wf(),
                collector@.params == self@.params,
                collector@.topology == self@.topology,
                collector@.accepted == order@.take(taken as int),
                waiting ==> !collector@.is_complete(),
                taken > 0 ==> collection_us == order@[taken - 1].elapsed_us,
                max_wait_ms matches Some(limit_ms) ==> forall|j: int|
                    0 <= j < taken ==> (#[trigger] order@[j]).elapsed_us <= limit_ms * 1000,
                overdue ==> {
                    &&& !waiting
                    &&& taken < order@.len()
                    &&& !collector@.is_complete()
                    &&& max_wait_ms matches Some(limit_ms) && order@[taken as int].elapsed_us
                        > limit_ms * 1000
                },
                !waiting && !overdue ==> collector@.is_complete(),
            decreases order@.len() - taken + if waiting { 1int } else { 0int },
        {
            let arrival = order[taken];
            let in_time = match max_wait_ms {
                Some(limit_ms) => arrival.elapsed_us <= (limit_ms as u128) * 1000,
                None => true,
            };
            if !in_time {
                waiting = false;
                proof {
                    overdue = true;
                }
            } else {
                match self.validators[arrival.validator].respond_with_share(costs) {
                    Some(response) => {
                        proof {
                            assert(arrival_of(response) == arrival);
                            assert(order@.take(taken + 1) =~= order@.take(taken as int).push(
                                arrival,
                            ));
                        }
                        let step = collector.on_response(response);
                        collector = step.0;
                        collection_us = arrival.elapsed_us;
                        taken += 1;
                        if step.1 == CollectorAction::QuorumReached {
                            waiting = false;
                        }
                    },
                    None => {
                        return Err(QuorumError::QuorumNotReached);
                    },
                }
            }
        }
        proof {
            if collector@.is_complete() {
                assert(taken == threshold);
                assert(order@.take(taken as int).last() == order@[taken - 1]);
            } else if overdue && order@.len() >= threshold && taken < threshold - 1 {
                let late = order@[taken as int];
                assert(rank_order::<Arrival>()(late, order@[threshold - 1]));
            }
        }
        if !collector.is_complete() {
            return Err(QuorumError::QuorumNotReached);
        }
        // Reconstruction and payload decryption.
        let secret = self.reconstruct_secret(collector.responses());
        let _payload = self.decrypt_payload(secret.as_slice());
        let reconstruct_us = costs.reconstruct_us as u128;
        let decrypt_us = costs.payload_decrypt_us as u128;
        let timings = PhaseTimings {
            broadcast_us: 0,
            collection_us,
            reconstruct_us,
            decrypt_us,
            total_us: collection_us + reconstruct_us + decrypt_us,
        };
        collector.finish(timings)
    }
}

} // verus!
