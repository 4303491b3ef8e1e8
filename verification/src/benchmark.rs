//! Repeated trials over several topologies, and the verdict against a latency target.

use vstd::prelude::*;
use crate::coordinator::{Coordination, ThresholdDecryption};
use crate::error::QuorumError;
use crate::params::{CostModel, ThresholdParams};
use crate::result::{DecryptionOutcome, DecryptionResult, DEFAULT_TARGET_MS};
use crate::stats::{mean, percentile, spec_mean, spec_percentile};
use crate::topology::NetworkTopology;

verus! {

/// Number of collections that are run for each topology unless the
/// configuration says otherwise.
pub const DEFAULT_TRIALS: usize = 5;

/// The statistic over the trials of a topology that is held against the
/// latency target.
#[derive(Debug, Clone, Copy, PartialEq, Eq, Structural)]
pub enum AggregateMetric {
    /// The mean of the total latencies, rounded down.
    Mean,
    /// The given percentile of the total latencies.
    Percentile(u8),
}

/// What a benchmark run is asked to do.
#[derive(Debug, Clone)]
pub struct BenchmarkConfig {
    pub topologies: Vec<NetworkTopology>,
    pub params: ThresholdParams,
    pub trials: usize,
    pub target_ms: u64,
    pub seed: u64,
    pub costs: CostModel,
    pub metric: AggregateMetric,
    pub max_wait_ms: Option<u64>,
}

/// A `BenchmarkConfig` as a mathematical value.
pub struct BenchmarkPlan {
    pub topologies: Seq<NetworkTopology>,
    pub params: ThresholdParams,
    pub trials: usize,
    pub target_ms: u64,
    pub seed: u64,
    pub costs: CostModel,
    pub metric: AggregateMetric,
    pub max_wait_ms: Option<u64>,
}

impl View for BenchmarkConfig {
    type V = BenchmarkPlan;

    open spec fn view(&self) -> BenchmarkPlan {
        BenchmarkPlan {
            topologies: self.topologies@,
            params: self.params,
            trials: self.trials,
            target_ms: self.target_ms,
            seed: self.seed,
            costs: self.costs,
            metric: self.metric,
            max_wait_ms: self.max_wait_ms,
        }
    }
}

/// The trials of one topology and what they add up to.
#[derive(Debug, Clone)]
pub struct TrialSet {
    pub topology: NetworkTopology,
    /// The error that kept the coordinator from being set up, if any; no
    /// trial was run then.
    pub skipped: Option<QuorumError>,
    /// The results of the trials that reached the quorum, in the order in
    /// which they were run.
    pub results: Vec<DecryptionResult>,
    /// How many trials did not reach the quorum.
    pub failed_trials: usize,
    /// The chosen statistic over the total latencies of `results`, if there
    /// are any.
    pub aggregate_ms: Option<u64>,
    /// No trial failed and the aggregate is under the target.
    pub passed: bool,
}

/// A `TrialSet` as a mathematical value.
pub struct TrialRecord {
    pub topology: NetworkTopology,
    pub skipped: Option<QuorumError>,
    pub results: Seq<DecryptionOutcome>,
    pub failed_trials: usize,
    pub aggregate_ms: Option<u64>,
    pub passed: bool,
}

impl View for TrialSet {
    type V = TrialRecord;

    open spec fn view(&self) -> TrialRecord {
        TrialRecord {
            topology: self.topology,
            skipped: self.skipped,
            results: self.results@.map_values(|r: DecryptionResult| r@),
            failed_trials: self.failed_trials,
            aggregate_ms: self.aggregate_ms,
            passed: self.passed,
        }
    }
}

/// Whether the benchmark met its latency target.
#[derive(Debug, Clone, Copy, PartialEq, Eq, Structural)]
pub enum Verdict {
    /// Every topology passed.
    Pass,
    /// Some topology did not pass. `topology` is the first such; `over_by_ms`
    /// says by how much its aggregate missed the target, if it has an
    /// aggregate and that is not under the target.
    Fail { topology: NetworkTopology, over_by_ms: Option<u64> },
}

/// What a benchmark run found.
#[derive(Debug, Clone)]
pub struct BenchmarkSummary {
    /// One entry for each configured topology, in the configured order.
    pub sets: Vec<TrialSet>,
    pub target_ms: u64,
    pub verdict: Verdict,
}

/// The total latency of each result.
pub open spec fn total_latencies(results: Seq<DecryptionOutcome>) -> Seq<u64> {
    results.map_values(|r: DecryptionOutcome| r.total_time_ms)
}

/// The chosen statistic over the samples, or `EmptyInput` when there are
/// none.
pub open spec fn spec_aggregate(samples: Seq<u64>, metric: AggregateMetric) -> Result<
    u64,
    QuorumError,
> {
    match metric {
        AggregateMetric::Mean => spec_mean(samples),
        AggregateMetric::Percentile(percent) => spec_percentile(samples, percent),
    }
}

/// By how much an aggregate misses the target, if it does.
pub open spec fn spec_over_by(aggregate_ms: Option<u64>, target_ms: u64) -> Option<u64> {
    match aggregate_ms {
        Some(a) => if a >= target_ms {
            Some((a - target_ms) as u64)
        } else {
            None
        },
        None => None,
    }
}

/// What one collection of a freshly made coordinator gives: the validators
/// are drawn for the topology from the seed.
pub open spec fn seeded_outcome(
    params: ThresholdParams,
    topology: NetworkTopology,
    seed: u64,
    costs: CostModel,
    max_wait_ms: Option<u64>,
) -> Result<DecryptionOutcome, QuorumError> {
    if params.spec_is_valid() {
        let coordination = Coordination { costs, ..Coordination::seeded(params, topology, seed) };
        coordination.outcome(max_wait_ms)
    } else {
        Err(QuorumError::InvalidThreshold)
    }
}

/// The record of `trials` trials that all gave `outcome`.
pub open spec fn record_of_trials(
    topology: NetworkTopology,
    outcome: Result<DecryptionOutcome, QuorumError>,
    trials: usize,
    target_ms: u64,
    metric: AggregateMetric,
) -> TrialRecord {
    match outcome {
        Ok(result) => {
            let results = Seq::new(trials as nat, |i: int| result);
            let aggregate_ms = match spec_aggregate(total_latencies(results), metric) {
                Ok(a) => Some(a),
                Err(_) => None,
            };
            TrialRecord {
                topology,
                skipped: None,
                results,
                failed_trials: 0,
                aggregate_ms,
                passed: aggregate_ms matches Some(a) && a < target_ms,
            }
        },
        Err(e) => TrialRecord {
            topology,
            skipped: if e == QuorumError::QuorumNotReached {
                None
            } else {
                Some(e)
            },
            results: Seq::empty(),
            failed_trials: if e == QuorumError::QuorumNotReached {
                trials
            } else {
                0
            },
            aggregate_ms: None,
            passed: false,
        },
    }
}

/// The record that a benchmark run makes for one of its topologies.
pub open spec fn record_for(plan: BenchmarkPlan, topology: NetworkTopology) -> TrialRecord {
    record_of_trials(
        topology,
        seeded_outcome(plan.params, topology, plan.seed, plan.costs, plan.max_wait_ms),
        plan.trials,
        plan.target_ms,
        plan.metric,
    )
}

/// `verdict` is the verdict over the records: a pass if all of them passed,
/// else a failure that names the first that did not.
pub open spec fn is_verdict_of(
    records: Seq<TrialRecord>,
    target_ms: u64,
    verdict: Verdict,
) -> bool {
    match verdict {
        Verdict::Pass => forall|k: int| 0 <= k < records.len() ==> (#[trigger] records[k]).passed,
        Verdict::Fail { topology, over_by_ms } => exists|k: int|
            {
                &&& 0 <= k < records.len()
                &&& !(#[trigger] records[k]).passed
                &&& forall|j: int| 0 <= j < k ==> (#[trigger] records[j]).passed
                &&& topology == records[k].topology
                &&& over_by_ms == spec_over_by(records[k].aggregate_ms, target_ms)
            },
    }
}

impl TrialSet {
    /// The mean of the total latencies of the trials that reached the
    /// quorum, rounded down.
    pub fn average_latency(&self) -> (r: Result<u64, QuorumError>)
        ensures
            r == spec_mean(total_latencies(self@.results)),
            r is Err <==> self@.results.len() == 0,
            r matches Err(e) ==> e == QuorumError::EmptyInput,
    {
        aggregate(self.results.as_slice(), AggregateMetric::Mean)
    }

    /// The given percentile of the total latencies of the trials that
    /// reached the quorum.
    pub fn percentile_latency(&self, percent: u8) -> (r: Result<u64, QuorumError>)
        ensures
            r == spec_percentile(total_latencies(self@.results), percent),
            r is Err <==> self@.results.len() == 0,
            r matches Err(e) ==> e == QuorumError::EmptyInput,
    {
        aggregate(self.results.as_slice(), AggregateMetric::Percentile(percent))
    }
}

impl BenchmarkConfig {
    /// The standard run: every topology, 67 of 100 validators, five trials
    /// each, the mean held against 500 ms, standard costs, no limit on the
    /// wait.
    pub fn standard(seed: u64) -> (config: BenchmarkConfig)
        ensures
            config@ == (BenchmarkPlan {
                topologies: seq![
                    NetworkTopology::LocalLAN,
                    NetworkTopology::Geographic,
                    NetworkTopology::Adversarial,
                ],
                params: ThresholdParams {
                    total_validators: 100,
                    threshold: 67,
                    share_size_bytes: 32,
                },
                trials: 5,
                target_ms: 500,
                seed,
                costs: CostModel::spec_standard(),
                metric: AggregateMetric::Mean,
                max_wait_ms: None,
            }),
    {
        BenchmarkConfig {
            topologies: NetworkTopology::all(),
            params: ThresholdParams::ecliptica_default(),
            trials: DEFAULT_TRIALS,
            target_ms: DEFAULT_TARGET_MS,
            seed,
            costs: CostModel::standard(),
            metric: AggregateMetric::Mean,
            max_wait_ms: None,
        }
    }
}

/// The chosen statistic over the total latencies of the results.
pub fn aggregate(results: &[DecryptionResult], metric: AggregateMetric) -> (r: Result<
    u64,
    QuorumError,
>)
    ensures
        r == spec_aggregate(
            total_latencies(results@.map_values(|x: DecryptionResult| x@)),
            metric,
        ),
        r is Err <==> results@.len() == 0,
        r matches Err(e) ==> e == QuorumError::EmptyInput,
{
    let ghost outcomes = results@.map_values(|x: DecryptionResult| x@);
    let mut totals: Vec<u64> = Vec::new();
    let mut i: usize = 0;
    while i < results.len()
        invariant
            i <= results@.len(),
            outcomes == results@.map_values(|x: DecryptionResult| x@),
            totals@ == total_latencies(outcomes.take(i as int)),
        decreases results@.len() - i,
    {
        totals.push(results[i].total_time_ms);
        proof {
            assert(outcomes.take(i + 1) =~= outcomes.take(i as int).push(outcomes[i as int]));
            assert(totals@ =~= total_latencies(outcomes.take(i + 1)));
        }
        i += 1;
    }
    proof {
        assert(outcomes.take(i as int) =~= outcomes);
    }
    match metric {
        AggregateMetric::Mean => mean(totals.as_slice()),
        AggregateMetric::Percentile(percent) => percentile(totals.as_slice(), percent),
    }
}

/// By how much an aggregate misses the target, if it does.
pub fn over_by(aggregate_ms: Option<u64>, target_ms: u64) -> (r: Option<u64>)
    ensures
        r == spec_over_by(aggregate_ms, target_ms),
{
    match aggregate_ms {
        Some(a) => if a >= target_ms {
            Some(a - target_ms)
        } else {
            None
        },
        None => None,
    }
}

/// The verdict over the trial sets: a pass if all of them passed, else a
/// failure that names the first that did not.
pub fn verdict_of(sets: &[TrialSet], target_ms: u64) -> (verdict: Verdict)
    ensures
        is_verdict_of(sets@.map_values(|s: TrialSet| s@), target_ms, verdict),
{
    let ghost records = sets@.map_values(|s: TrialSet| s@);
    let mut k: usize = 0;
    while k < sets.len()
        invariant
            k <= sets@.len(),
            records == sets@.map_values(|s: TrialSet| s@),
            forall|j: int| 0 <= j < k ==> (#[trigger] records[j]).passed,
        decreases sets@.len() - k,
    {
        if !sets[k].passed {
            let verdict = Verdict::Fail {
                topology: sets[k].topology,
                over_by_ms: over_by(sets[k].aggregate_ms, target_ms),
            };
            assert(!records[k as int].passed);
            return verdict;
        }
        k += 1;
    }
    Verdict::Pass
}

/// Runs `trials` collections on the coordinator and adds them up.
///
/// A trial that does not reach the quorum is counted and the run goes on.
/// The set passes if no trial failed and the chosen statistic over the total
/// latencies is under `target_ms`.
pub fn run_trials(
    coordinator: &ThresholdDecryption,
    trials: usize,
    target_ms: u64,
    metric: AggregateMetric,
    max_wait_ms: Option<u64>,
) -> (set: TrialSet)
    ensures
        set@ == record_of_trials(
            coordinator@.topology,
            coordinator@.outcome(max_wait_ms),
            trials,
            target_ms,
            metric,
        ),
{
    let ghost outcome = coordinator@.outcome(max_wait_ms);
    let mut results: Vec<DecryptionResult> = Vec::new();
    let mut failed_trials: usize = 0;
    let mut trial: usize = 0;
    while trial < trials
        invariant
            trial <= trials,
            outcome == coordinator@.outcome(max_wait_ms),
            outcome matches Ok(result) ==> failed_trials == 0 && results@.map_values(
                |r: DecryptionResult| r@,
            ) == Seq::new(trial as nat, |i: int| result),
            outcome is Err ==> failed_trials == trial && results@.len() == 0,
        decreases trials - trial,
    {
        match coordinator.decrypt_transaction(max_wait_ms) {
            Ok(result) => {
                let ghost before = results@.map_values(|r: DecryptionResult| r@);
                results.push(result);
                proof {
                    assert(results@.map_values(|r: DecryptionResult| r@) =~= before.push(result@));
                    assert(before.push(result@) =~= Seq::new(
                        (trial + 1) as nat,
                        |i: int| outcome->Ok_0,
                    ));
                }
            },
            Err(_) => {
                failed_trials += 1;
            },
        }
        trial += 1;
    }
    let aggregate_ms = match aggregate(results.as_slice(), metric) {
        Ok(a) => Some(a),
        Err(_) => None,
    };
    let passed = failed_trials == 0 && match aggregate_ms {
        Some(a) => a < target_ms,
        None => false,
    };
    proof {
        if outcome is Err {
            assert(results@.map_values(|r: DecryptionResult| r@) =~= Seq::empty());
        }
    }
    TrialSet {
        topology: coordinator.topology(),
        skipped: None,
        results,
        failed_trials,
        aggregate_ms,
        passed,
    }
}

/// Runs the benchmark: for each configured topology a coordinator is made
/// from the seed and `trials` collections are run on it; then the verdict is
/// drawn.
///
/// A topology whose coordinator cannot be set up is skipped, with the error
/// on record, and does not pass. A configuration with no trials has nothing
/// to add up: the run fails with `EmptyInput`.
pub fn run_threshold_benchmark(config: &BenchmarkConfig) -> (r: Result<
    BenchmarkSummary,
    QuorumError,
>)
    ensures
        match r {
            Ok(summary) => {
                &&& config.trials > 0
                &&& summary.target_ms == config.target_ms
                &&& summary.sets@.len() == config.topologies@.len()
                &&& forall|i: int|
                    0 <= i < summary.sets@.len() ==> (#[trigger] summary.sets@[i])@ == record_for(
                        config@,
                        config.topologies@[i],
                    )
                &&& is_verdict_of(
                    summary.sets@.map_values(|s: TrialSet| s@),
                    config.target_ms,
                    summary.verdict,
                )
            },
            Err(e) => e == QuorumError::EmptyInput && config.trials == 0,
        },
{
    if config.trials == 0 {
        return Err(QuorumError::EmptyInput);
    }
    let mut sets: Vec<TrialSet> = Vec::new();
    let mut i: usize = 0;
    while i < config.topologies.len()
        invariant
            i <= config.topologies@.len(),
            sets@.len() == i,
            forall|j: int|
                0 <= j < i ==> (#[trigger] sets@[j])@ == record_for(
                    config@,
                    config.topologies@[j],
                ),
        decreases config.topologies@.len() - i,
    {
        let topology = config.topologies[i];
        let set = match ThresholdDecryption::new(config.params, topology, config.seed) {
            Ok(coordinator) => {
                let coordinator = coordinator.with_costs(config.costs);
                run_trials(
                    &coordinator,
                    config.trials,
                    config.target_ms,
                    config.metric,
                    config.max_wait_ms,
                )
            },
            Err(e) => {
                let skipped = TrialSet {
                    topology,
                    skipped: Some(e),
                    results: Vec::new(),
                    failed_trials: 0,
                    aggregate_ms: None,
                    passed: false,
                };
                assert(skipped@.results =~= Seq::empty());
                skipped
            },
        };
        sets.push(set);
        i += 1;
    }
    let verdict = verdict_of(sets.as_slice(), config.target_ms);
    Ok(BenchmarkSummary { sets, target_ms: config.target_ms, verdict })
}

} // verus!
