//! What holds of every quorum collection and of every benchmark run.

use vstd::prelude::*;
use crate::benchmark::{
    is_verdict_of, record_for, record_of_trials, spec_over_by, total_latencies, AggregateMetric,
    BenchmarkPlan, TrialRecord, Verdict,
};
use crate::collector::{lemma_collector_takes_first, CollectorState};
use crate::coordinator::{latencies_within, Coordination};
use crate::error::QuorumError;
use crate::order::{lemma_ranked, rank_order, ranked};
use crate::params::{CostModel, ThresholdParams};
use crate::result::DecryptionOutcome;
use crate::schedule::{all_responsive, is_answer_of, lemma_arrival_order, lemma_arrivals};
use crate::stats::{percentile_index, total};
use crate::timing::span_ms;
use crate::topology::NetworkTopology;
use crate::validator::{completion_us, Arrival, ValidatorView};

verus! {

/// Validator `a` answers before validator `b`: its latency is lower, or the
/// same and it was asked first.
pub open spec fn answers_before(population: Seq<ValidatorView>, a: int, b: int) -> bool {
    population[a].response_latency_ms < population[b].response_latency_ms || (
    population[a].response_latency_ms == population[b].response_latency_ms && a < b)
}

/// The time that validator `v` takes to answer, in whole milliseconds.
pub open spec fn response_time_ms(c: Coordination, v: int) -> u64 {
    span_ms(completion_us(c.population[v].response_latency_ms, c.costs))
}

/// A collection that succeeds accepts exactly `threshold` answers, never
/// more and never fewer; one that fails has missed the quorum; and a
/// collection succeeds whenever every validator answers and the wait is not
/// limited.
pub proof fn lemma_quorum_is_exact(c: Coordination, max_wait_ms: Option<u64>)
    requires
        c.wf(),
    ensures
        c.outcome(max_wait_ms) matches Ok(outcome) ==> {
            &&& outcome.shares_received == c.params.threshold
            &&& outcome.validator_response_times.len() == c.params.threshold
            &&& outcome.accepted_validators.len() == c.params.threshold
            &&& outcome.shares_received <= c.params.total_validators
        },
        c.outcome(max_wait_ms) matches Err(e) ==> e == QuorumError::QuorumNotReached,
        all_responsive(c.population) && max_wait_ms is None ==> c.outcome(max_wait_ms) is Ok,
{
    lemma_arrival_order(c.population, c.costs);
}

/// The accepted validators are the fastest ones, fastest first: they are
/// validators that answer, each answers before the one accepted after it,
/// and every validator that answers but is not accepted answers after all of
/// them. Each recorded response time is that of the validator accepted in
/// that place.
pub proof fn lemma_accepted_are_fastest(c: Coordination, max_wait_ms: Option<u64>)
    requires
        c.wf(),
        c.outcome(max_wait_ms) is Ok,
    ensures
        ({
            let outcome = c.outcome(max_wait_ms)->Ok_0;
            let accepted = outcome.accepted_validators;
            &&& forall|i: int|
                0 <= i < accepted.len() ==> 0 <= #[trigger] accepted[i] < c.population.len()
                    && c.population[accepted[i] as int].is_responsive()
            &&& forall|i: int, j: int|
                0 <= i < j < accepted.len() ==> answers_before(
                    c.population,
                    #[trigger] accepted[i] as int,
                    #[trigger] accepted[j] as int,
                )
            &&& forall|i: int, v: int|
                0 <= i < accepted.len() && 0 <= v < c.population.len()
                    && c.population[v].is_responsive() && !accepted.contains(v as usize)
                    ==> #[trigger] answers_before(c.population, accepted[i] as int, v)
            &&& forall|i: int|
                0 <= i < accepted.len() ==> #[trigger] outcome.validator_response_times[i]
                    == response_time_ms(c, accepted[i] as int)
        }),
{
    let population = c.population;
    let order = c.arrival_order();
    let k = c.params.threshold as int;
    let outcome = c.outcome(max_wait_ms)->Ok_0;
    let accepted = outcome.accepted_validators;
    lemma_arrival_order(population, c.costs);
    assert forall|i: int| 0 <= i < accepted.len() implies 0 <= #[trigger] accepted[i]
        < population.len() && population[accepted[i] as int].is_responsive() by {
        assert(is_answer_of(population, c.costs, order[i]));
    }
    assert forall|i: int, j: int| 0 <= i < j < accepted.len() implies answers_before(
        population,
        #[trigger] accepted[i] as int,
        #[trigger] accepted[j] as int,
    ) by {
        assert(is_answer_of(population, c.costs, order[i]));
        assert(is_answer_of(population, c.costs, order[j]));
        assert(rank_order::<Arrival>()(order[i], order[j]));
        assert(order[i].validator != order[j].validator);
    }
    assert forall|i: int, v: int|
        0 <= i < accepted.len() && 0 <= v < population.len() && population[v].is_responsive()
            && !accepted.contains(v as usize) implies #[trigger] answers_before(
        population,
        accepted[i] as int,
        v,
    ) by {
        let a = population[v].arrival(c.costs);
        assert(order.contains(a));
        let p = choose|p: int| 0 <= p < order.len() && order[p] == a;
        assert(is_answer_of(population, c.costs, order[i]));
        if p < k {
            assert(accepted[p] == order[p].validator);
            assert(accepted.contains(v as usize));
        }
        assert(rank_order::<Arrival>()(order[i], order[p]));
        assert(order[i].validator != order[p].validator);
    }
    assert forall|i: int|
        0 <= i < accepted.len() implies #[trigger] outcome.validator_response_times[i]
        == response_time_ms(c, accepted[i] as int) by {
        assert(is_answer_of(population, c.costs, order[i]));
    }
}

/// A sequence of `n` different numbers below `n` holds every number below
/// `n`.
pub proof fn lemma_all_ids_present(ids: Seq<int>, n: int)
    requires
        ids.len() == n,
        forall|i: int| 0 <= i < n ==> 0 <= #[trigger] ids[i] < n,
        forall|i: int, j: int|
            0 <= i < n && 0 <= j < n && i != j ==> #[trigger] ids[i] != #[trigger] ids[j],
    ensures
        forall|v: int| 0 <= v < n ==> ids.contains(v),
{
    assert(ids.no_duplicates());
    let present = ids.to_set();
    ids.unique_seq_to_set();
    let all = Set::new(|v: int| 0 <= v < n);
    assert(present.subset_of(all)) by {
        assert forall|v: int| present.contains(v) implies all.contains(v) by {
            let i = choose|i: int| 0 <= i < ids.len() && ids[i] == v;
        }
    }
    vstd::set_lib::lemma_int_range(0, n);
    assert(all =~= vstd::set_lib::set_int_range(0, n));
    vstd::set_lib::lemma_subset_equality(present, all);
    assert forall|v: int| 0 <= v < n implies ids.contains(v) by {
        assert(all.contains(v));
        assert(present.contains(v));
    }
}

/// With a threshold of all validators, the collection succeeds only if every
/// validator answers; then every validator is accepted, and the collection
/// lasts until the slowest one has answered.
pub proof fn lemma_full_threshold_waits_for_all(c: Coordination, max_wait_ms: Option<u64>)
    requires
        c.wf(),
        c.params.threshold == c.params.total_validators,
    ensures
        c.outcome(max_wait_ms) is Ok ==> all_responsive(c.population),
        c.outcome(max_wait_ms) matches Ok(outcome) ==> {
            &&& forall|v: usize|
                v < c.population.len() ==> #[trigger] outcome.accepted_validators.contains(v)
            &&& forall|v: int|
                0 <= v < c.population.len() ==> #[trigger] response_time_ms(c, v)
                    <= outcome.collection_time_ms
        },
{
    let population = c.population;
    let order = c.arrival_order();
    let n = population.len() as int;
    lemma_arrival_order(population, c.costs);
    lemma_arrivals(population, c.costs);
    if c.outcome(max_wait_ms) is Ok {
        let outcome = c.outcome(max_wait_ms)->Ok_0;
        let ids = order.map_values(|a: Arrival| a.validator as int);
        assert(order.len() == n);
        assert(order.take(n) =~= order);
        // Every place in the order is taken by a different validator, so
        // none of the n validators is missing.
        lemma_all_ids_present(ids, n);
        assert forall|v: usize| v < n implies #[trigger] outcome.accepted_validators.contains(
            v,
        ) by {
            assert(ids.contains(v as int));
            let p = choose|p: int| 0 <= p < ids.len() && ids[p] == v as int;
            assert(outcome.accepted_validators[p] == v);
        }
        assert forall|i: int| 0 <= i < n implies (#[trigger] population[i]).is_responsive() by {
            assert(ids.contains(i));
            let p = choose|p: int| 0 <= p < ids.len() && ids[p] == i;
            assert(is_answer_of(population, c.costs, order[p]));
        }
        assert forall|v: int| 0 <= v < n implies #[trigger] response_time_ms(c, v)
            <= outcome.collection_time_ms by {
            let a = population[v].arrival(c.costs);
            assert(order.contains(a));
            let p = choose|p: int| 0 <= p < order.len() && order[p] == a;
            if p < n - 1 {
                assert(rank_order::<Arrival>()(order[p], order[n - 1]));
            }
        }
    }
}

/// With a threshold of one, the collection ends with the first answer: the
/// accepted validator is the one that answers before all others, and the
/// collection lasts as long as its answer takes.
pub proof fn lemma_threshold_one_takes_fastest(c: Coordination, fastest: int)
    requires
        c.wf(),
        c.params.threshold == 1,
        0 <= fastest < c.population.len(),
        c.population[fastest].is_responsive(),
        forall|v: int|
            0 <= v < c.population.len() && v != fastest && (
            #[trigger] c.population[v]).is_responsive() ==> answers_before(
                c.population,
                fastest,
                v,
            ),
    ensures
        c.outcome(None) is Ok,
        ({
            let outcome = c.outcome(None)->Ok_0;
            &&& outcome.shares_received == 1
            &&& outcome.accepted_validators == seq![fastest as usize]
            &&& outcome.collection_time_ms == response_time_ms(c, fastest)
        }),
{
    let population = c.population;
    let order = c.arrival_order();
    lemma_arrival_order(population, c.costs);
    let a = population[fastest].arrival(c.costs);
    assert(order.contains(a));
    let p = choose|p: int| 0 <= p < order.len() && order[p] == a;
    assert(is_answer_of(population, c.costs, order[0]));
    if p != 0 {
        assert(rank_order::<Arrival>()(order[0], order[p]));
        assert(order[0].validator != order[p].validator);
        assert(answers_before(population, fastest, order[0].validator as int));
        assert(false);
    }
    let outcome = c.outcome(None)->Ok_0;
    assert(order.take(1) =~= seq![order[0]]);
    assert(outcome.accepted_validators =~= seq![fastest as usize]);
}

/// If every validator's latency lies in a range, then so does what a
/// collection measures: each recorded response time and the collection time
/// are at least the lowest latency, and the total is at most the highest
/// latency plus all the costs.
pub proof fn lemma_times_follow_latencies(
    c: Coordination,
    max_wait_ms: Option<u64>,
    min_ms: u64,
    max_ms: u64,
)
    requires
        c.wf(),
        latencies_within(c.population, min_ms, max_ms),
        c.outcome(max_wait_ms) is Ok,
    ensures
        ({
            let outcome = c.outcome(max_wait_ms)->Ok_0;
            let all_costs_us = c.costs.share_decrypt_us + c.costs.reconstruct_us
                + c.costs.payload_decrypt_us;
            &&& forall|i: int|
                0 <= i < outcome.validator_response_times.len() ==> min_ms
                    <= #[trigger] outcome.validator_response_times[i]
            &&& min_ms <= outcome.collection_time_ms <= outcome.total_time_ms
            &&& outcome.total_time_ms <= span_ms(max_ms * 1000 + all_costs_us)
            &&& outcome.broadcast_time_ms == 0
        }),
{
    let order = c.arrival_order();
    let k = c.params.threshold as int;
    lemma_arrival_order(c.population, c.costs);
    let outcome = c.outcome(max_wait_ms)->Ok_0;
    assert forall|i: int| 0 <= i < k implies min_ms * 1000 <= (#[trigger] order[i]).elapsed_us
        <= max_ms * 1000 + c.costs.share_decrypt_us by {
        assert(is_answer_of(c.population, c.costs, order[i]));
    }
    assert(order.take(k).last() == order[k - 1]);
    assert forall|i: int| 0 <= i < outcome.validator_response_times.len() implies min_ms
        <= #[trigger] outcome.validator_response_times[i] by {
        assert(min_ms * 1000 <= order[i].elapsed_us);
    }
}

/// On the local network a collection with the standard costs takes at most
/// five milliseconds, whatever the threshold and however the latencies were
/// drawn, and so meets the target of 500 ms.
pub proof fn lemma_local_network_meets_target(c: Coordination)
    requires
        c.wf(),
        c.costs == CostModel::spec_standard(),
        latencies_within(
            c.population,
            NetworkTopology::LocalLAN.spec_latency_ms().0,
            NetworkTopology::LocalLAN.spec_latency_ms().1,
        ),
        all_responsive(c.population),
    ensures
        c.outcome(None) is Ok,
        1 <= c.outcome(None)->Ok_0.total_time_ms <= 5,
        c.outcome(None)->Ok_0.total_time_ms < 500,
{
    lemma_quorum_is_exact(c, None);
    lemma_times_follow_latencies(c, None, 1, 5);
}

/// The simulated collection accepts what the collector accepts when it is
/// handed the answers in their order of arrival: with no limit on the wait,
/// the quorum is reached exactly if the collector ends complete, and the
/// accepted answers are the ones the collector kept.
pub proof fn lemma_simulation_drives_collector(c: Coordination, shares: Seq<Seq<u8>>)
    requires
        c.wf(),
        shares.len() == c.arrival_order().len(),
    ensures
        ({
            let end = CollectorState::start(c.topology, c.params).record_all(
                c.arrival_order(),
                shares,
            );
            &&& end.is_complete() <==> c.quorum_within(None)
            &&& c.quorum_within(None) ==> end.accepted == c.accepted()
        }),
{
    lemma_collector_takes_first(c.topology, c.params, c.arrival_order(), shares);
}

/// Two runs for the same parameters and topology from the same seed have
/// the same validators, with the same latencies, and their collections give
/// the same result.
pub proof fn lemma_same_seed_same_run(
    first: Coordination,
    second: Coordination,
    params: ThresholdParams,
    topology: NetworkTopology,
    seed: u64,
    max_wait_ms: Option<u64>,
)
    requires
        first == Coordination::seeded(params, topology, seed),
        second == Coordination::seeded(params, topology, seed),
    ensures
        first.population == second.population,
        forall|i: int|
            0 <= i < first.population.len() ==> (#[trigger] first.population[i]).response_latency_ms
                == second.population[i].response_latency_ms,
        first.outcome(max_wait_ms) == second.outcome(max_wait_ms),
{
}

/// The sum of `n` samples that are all `x` is `n * x`.
pub proof fn lemma_total_of_equal_samples(n: nat, x: u64)
    ensures
        total(Seq::new(n, |i: int| x)) == n * x,
    decreases n,
{
    let samples = Seq::new(n, |i: int| x);
    if n > 0 {
        assert(samples.drop_last() =~= Seq::new((n - 1) as nat, |i: int| x));
        lemma_total_of_equal_samples((n - 1) as nat, x);
        assert(n * x == (n - 1) * x + x) by (nonlinear_arith);
    }
}

/// Trials that all give the same result add up to that result: whichever
/// statistic is chosen, the aggregate is the total latency of the one
/// result, and the set passes exactly if that is under the target.
pub proof fn lemma_equal_trials_aggregate(
    topology: NetworkTopology,
    outcome: DecryptionOutcome,
    trials: usize,
    target_ms: u64,
    metric: AggregateMetric,
)
    requires
        trials > 0,
    ensures
        ({
            let record = record_of_trials(
                topology,
                Ok::<DecryptionOutcome, QuorumError>(outcome),
                trials,
                target_ms,
                metric,
            );
            &&& record.aggregate_ms == Some(outcome.total_time_ms)
            &&& record.passed == (outcome.total_time_ms < target_ms)
            &&& record.failed_trials == 0
            &&& record.results.len() == trials
        }),
{
    let x = outcome.total_time_ms;
    let n = trials as nat;
    let results = Seq::new(n, |i: int| outcome);
    let samples = total_latencies(results);
    assert(samples =~= Seq::new(n, |i: int| x));
    match metric {
        AggregateMetric::Mean => {
            lemma_total_of_equal_samples(n, x);
            assert((n * x) / (n as int) == x) by (nonlinear_arith)
                requires
                    n > 0,
            ;
        },
        AggregateMetric::Percentile(percent) => {
            lemma_ranked(samples);
            let at = percentile_index(n, percent as nat);
            let sorted = ranked(samples);
            assert(sorted.contains(sorted[at]));
            assert(samples.contains(sorted[at]));
        },
    }
}

/// A benchmark of the local network with the standard costs and no limit on
/// the wait passes any target above five milliseconds, whatever the seed:
/// with latencies between one and five milliseconds, as they are drawn for
/// that network, every trial takes at most five milliseconds.
pub proof fn lemma_local_benchmark_passes(plan: BenchmarkPlan)
    requires
        plan.params.spec_is_valid(),
        plan.trials > 0,
        plan.costs == CostModel::spec_standard(),
        plan.max_wait_ms is None,
        plan.target_ms > 5,
        latencies_within(
            Coordination::seeded(plan.params, NetworkTopology::LocalLAN, plan.seed).population,
            1,
            5,
        ),
    ensures
        record_for(plan, NetworkTopology::LocalLAN).passed,
        record_for(plan, NetworkTopology::LocalLAN).failed_trials == 0,
        record_for(plan, NetworkTopology::LocalLAN).aggregate_ms matches Some(a) && 1 <= a <= 5,
{
    let topology = NetworkTopology::LocalLAN;
    let c = Coordination::seeded(plan.params, topology, plan.seed);
    assert(c.wf());
    assert(all_responsive(c.population));
    lemma_local_network_meets_target(c);
    assert(c == (Coordination { costs: plan.costs, ..c }));
    lemma_equal_trials_aggregate(
        topology,
        c.outcome(None)->Ok_0,
        plan.trials,
        plan.target_ms,
        plan.metric,
    );
}

/// The records of a run leave no choice of verdict.
pub proof fn lemma_verdict_is_determined(
    records: Seq<TrialRecord>,
    target_ms: u64,
    first: Verdict,
    second: Verdict,
)
    requires
        is_verdict_of(records, target_ms, first),
        is_verdict_of(records, target_ms, second),
    ensures
        first == second,
{
    match (first, second) {
        (
            Verdict::Fail { topology: t1, over_by_ms: o1 },
            Verdict::Fail { topology: t2, over_by_ms: o2 },
        ) => {
            let k1 = choose|k: int|
                {
                    &&& 0 <= k < records.len()
                    &&& !(#[trigger] records[k]).passed
                    &&& forall|j: int| 0 <= j < k ==> (#[trigger] records[j]).passed
                    &&& t1 == records[k].topology
                    &&& o1 == spec_over_by(records[k].aggregate_ms, target_ms)
                };
            let k2 = choose|k: int|
                {
                    &&& 0 <= k < records.len()
                    &&& !(#[trigger] records[k]).passed
                    &&& forall|j: int| 0 <= j < k ==> (#[trigger] records[j]).passed
                    &&& t2 == records[k].topology
                    &&& o2 == spec_over_by(records[k].aggregate_ms, target_ms)
                };
            if k1 < k2 {
                assert(records[k1].passed);
            } else if k2 < k1 {
                assert(records[k2].passed);
            }
        },
        _ => {},
    }
}

} // verus!
