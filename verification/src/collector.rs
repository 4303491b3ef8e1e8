//! The decisions of a quorum collection, apart from the waiting.

use vstd::prelude::*;
use crate::error::QuorumError;
use crate::params::ThresholdParams;
use crate::result::{outcome_of, DecryptionResult};
use crate::timing::PhaseTimings;
use crate::topology::NetworkTopology;
use crate::validator::{Arrival, Response};

verus! {

/// What the coordinator does after it has handed an answer to the collector.
#[derive(Debug, Clone, Copy, PartialEq, Eq, Structural)]
pub enum CollectorAction {
    /// Fewer than `threshold` answers are in: wait for the next one.
    AwaitNext,
    /// The quorum is complete: stop waiting, later answers are not needed.
    QuorumReached,
}

/// The state of a collection as a mathematical value.
pub struct CollectorState {
    pub topology: NetworkTopology,
    pub params: ThresholdParams,
    /// The accepted answers, in arrival order.
    pub accepted: Seq<Arrival>,
    /// The share that came with each accepted answer.
    pub shares: Seq<Seq<u8>>,
}

impl CollectorState {
    /// A collection in which nothing has arrived yet.
    pub open spec fn start(topology: NetworkTopology, params: ThresholdParams) -> CollectorState {
        CollectorState { topology, params, accepted: Seq::empty(), shares: Seq::empty() }
    }

    /// As many answers are in as the threshold asks for.
    pub open spec fn is_complete(self) -> bool {
        self.accepted.len() >= self.params.threshold
    }

    /// The state after one more answer has arrived. An answer that arrives
    /// when the quorum is already complete is discarded.
    pub open spec fn record(self, arrival: Arrival, share: Seq<u8>) -> CollectorState {
        if self.is_complete() {
            self
        } else {
            CollectorState {
                accepted: self.accepted.push(arrival),
                shares: self.shares.push(share),
                ..self
            }
        }
    }

    /// The state after the given answers have arrived, in that order.
    pub open spec fn record_all(
        self,
        arrivals: Seq<Arrival>,
        shares: Seq<Seq<u8>>,
    ) -> CollectorState
        decreases arrivals.len(),
    {
        if arrivals.len() == 0 {
            self
        } else {
            self.record_all(arrivals.drop_last(), shares.drop_last()).record(
                arrivals.last(),
                shares.last(),
            )
        }
    }

    /// What the coordinator does in this state.
    pub open spec fn action(self) -> CollectorAction {
        if self.is_complete() {
            CollectorAction::QuorumReached
        } else {
            CollectorAction::AwaitNext
        }
    }

    /// The threshold is valid, no more answers were accepted than it asks
    /// for, and every accepted answer came with a share.
    pub open spec fn wf(self) -> bool {
        &&& self.params.spec_is_valid()
        &&& self.accepted.len() <= self.params.threshold
        &&& self.shares.len() == self.accepted.len()
    }
}

/// The arrival that a response reports.
pub open spec fn arrival_of(response: Response) -> Arrival {
    Arrival { elapsed_us: response.elapsed_us, validator: response.validator_id }
}

/// Gathers the answers of the validators, in the order in which they arrive,
/// until the threshold is met.
///
/// The collector decides; whoever drives it waits for the answers and hands
/// each one over as it comes.
pub struct QuorumCollector {
    topology: NetworkTopology,
    params: ThresholdParams,
    responses: Vec<Response>,
}

impl View for QuorumCollector {
    type V = CollectorState;

    closed spec fn view(&self) -> CollectorState {
        CollectorState {
            topology: self.topology,
            params: self.params,
            accepted: self.responses@.map_values(|r: Response| arrival_of(r)),
            shares: self.responses@.map_values(|r: Response| r.share@),
        }
    }
}

impl QuorumCollector {
    #[verifier::type_invariant]
    spec fn inv(&self) -> bool {
        &&& self.params.spec_is_valid()
        &&& self.responses@.len() <= self.params.threshold
    }

    /// A collector for a quorum of `params.threshold` answers out of
    /// `params.total_validators`.
    pub fn new(topology: NetworkTopology, params: ThresholdParams) -> (r: Result<
        QuorumCollector,
        QuorumError,
    >)
        ensures
            match r {
                Ok(collector) => params.spec_is_valid() && collector@ == CollectorState::start(
                    topology,
                    params,
                ) && collector@.wf(),
                Err(e) => e == QuorumError::InvalidThreshold && !params.spec_is_valid(),
            },
    {
        if !params.is_valid() {
            return Err(QuorumError::InvalidThreshold);
        }
        let collector = QuorumCollector { topology, params, responses: Vec::new() };
        assert(collector@.accepted =~= Seq::empty());
        assert(collector@.shares =~= Seq::empty());
        Ok(collector)
    }

    /// Whether the quorum is complete.
    pub fn is_complete(&self) -> (r: bool)
        ensures
            r == self@.is_complete(),
            self@.wf(),
    {
        proof {
            use_type_invariant(self);
        }
        self.responses.len() >= self.params.threshold
    }

    /// How many answers have been accepted.
    pub fn accepted_count(&self) -> (r: usize)
        ensures
            r == self@.accepted.len(),
            r <= self@.params.threshold,
            self@.wf(),
    {
        proof {
            use_type_invariant(self);
        }
        self.responses.len()
    }

    /// The accepted answers, in arrival order.
    pub fn responses(&self) -> (r: &[Response])
        ensures
            r@.map_values(|x: Response| arrival_of(x)) == self@.accepted,
            r@.map_values(|x: Response| x.share@) == self@.shares,
            self@.wf(),
    {
        proof {
            use_type_invariant(self);
        }
        self.responses.as_slice()
    }

    /// Takes the next answer and gives the state that follows. The answer is
    /// accepted unless the quorum is already complete; the action says
    /// whether to go on waiting.
    pub fn on_response(self, response: Response) -> (next: (QuorumCollector, CollectorAction))
        ensures
            next.0@ == self@.record(arrival_of(response), response.share@),
            next.1 == next.0@.action(),
            next.0@.wf(),
    {
        proof {
            use_type_invariant(&self);
        }
        let ghost before = self.responses@;
        let QuorumCollector { topology, params, mut responses } = self;
        if responses.len() < params.threshold {
            responses.push(response);
            proof {
                assert(responses@.map_values(|r: Response| arrival_of(r)) =~= before.map_values(
                    |r: Response| arrival_of(r),
                ).push(arrival_of(response)));
                assert(responses@.map_values(|r: Response| r.share@) =~= before.map_values(
                    |r: Response| r.share@,
                ).push(response.share@));
            }
        }
        let action = if responses.len() >= params.threshold {
            CollectorAction::QuorumReached
        } else {
            CollectorAction::AwaitNext
        };
        (QuorumCollector { topology, params, responses }, action)
    }

    /// Ends the collection. With a complete quorum this gives the result,
    /// with the phase times that the driver measured; otherwise the quorum
    /// was not reached.
    pub fn finish(self, timings: PhaseTimings) -> (r: Result<DecryptionResult, QuorumError>)
        ensures
            match r {
                Ok(result) => self@.is_complete() && result@ == outcome_of(
                    self@.topology,
                    self@.params,
                    timings,
                    self@.accepted,
                ),
                Err(e) => e == QuorumError::QuorumNotReached && !self@.is_complete(),
            },
    {
        proof {
            use_type_invariant(&self);
        }
        if self.responses.len() < self.params.threshold {
            return Err(QuorumError::QuorumNotReached);
        }
        let mut accepted: Vec<Arrival> = Vec::new();
        let mut i: usize = 0;
        while i < self.responses.len()
            invariant
                i <= self.responses@.len(),
                accepted@ == self.responses@.take(i as int).map_values(
                    |r: Response| arrival_of(r),
                ),
            decreases self.responses@.len() - i,
        {
            let response = &self.responses[i];
            accepted.push(
                Arrival { elapsed_us: response.elapsed_us, validator: response.validator_id },
            );
            proof {
                assert(self.responses@.take(i + 1) =~= self.responses@.take(i as int).push(
                    self.responses@[i as int],
                ));
            }
            i += 1;
        }
        proof {
            assert(self.responses@.take(i as int) =~= self.responses@);
        }
        Ok(DecryptionResult::assemble(self.topology, self.params, timings, accepted.as_slice()))
    }
}

/// However many answers arrive, a collection accepts the first `threshold`
/// of them, in the order in which they came, and no more; it is complete
/// exactly when that many have arrived.
pub proof fn lemma_collector_takes_first(
    topology: NetworkTopology,
    params: ThresholdParams,
    arrivals: Seq<Arrival>,
    shares: Seq<Seq<u8>>,
)
    requires
        params.spec_is_valid(),
        shares.len() == arrivals.len(),
    ensures
        ({
            let end = CollectorState::start(topology, params).record_all(arrivals, shares);
            let kept = if arrivals.len() <= params.threshold {
                arrivals.len() as int
            } else {
                params.threshold as int
            };
            &&& end.wf()
            &&& end.topology == topology
            &&& end.params == params
            &&& end.accepted == arrivals.take(kept)
            &&& end.shares == shares.take(kept)
            &&& end.is_complete() <==> arrivals.len() >= params.threshold
        }),
    decreases arrivals.len(),
{
    let start = CollectorState::start(topology, params);
    if arrivals.len() == 0 {
        assert(arrivals.take(0) =~= start.accepted);
        assert(shares.take(0) =~= start.shares);
    } else {
        let earlier = arrivals.drop_last();
        let earlier_shares = shares.drop_last();
        lemma_collector_takes_first(topology, params, earlier, earlier_shares);
        let before = start.record_all(earlier, earlier_shares);
        let end = before.record(arrivals.last(), shares.last());
        if earlier.len() < params.threshold {
            assert(end.accepted =~= arrivals.take(arrivals.len() as int));
            assert(end.shares =~= shares.take(arrivals.len() as int));
        } else {
            assert(earlier.take(params.threshold as int) =~= arrivals.take(
                params.threshold as int,
            ));
            assert(earlier_shares.take(params.threshold as int) =~= shares.take(
                params.threshold as int,
            ));
        }
    }
}

} // verus!
