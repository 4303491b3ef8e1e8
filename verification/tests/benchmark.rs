use quorum_bench::benchmark::{
    aggregate, over_by, run_threshold_benchmark, run_trials, verdict_of, AggregateMetric,
    BenchmarkConfig, TrialSet, Verdict,
};
use quorum_bench::coordinator::ThresholdDecryption;
use quorum_bench::error::QuorumError;
use quorum_bench::params::{CostModel, ThresholdParams};
use quorum_bench::result::DecryptionResult;
use quorum_bench::timing::PhaseTimings;
use quorum_bench::topology::NetworkTopology;

fn result_with_total(total_ms: u64) -> DecryptionResult {
    let mut result = DecryptionResult::assemble(
        NetworkTopology::LocalLAN,
        ThresholdParams { total_validators: 1, threshold: 1, share_size_bytes: 32 },
        PhaseTimings {
            broadcast_us: 0,
            collection_us: 0,
            reconstruct_us: 0,
            decrypt_us: 0,
            total_us: 0,
        },
        &[],
    );
    result.total_time_ms = total_ms;
    result
}

fn set(topology: NetworkTopology, aggregate_ms: Option<u64>, passed: bool) -> TrialSet {
    TrialSet {
        topology,
        skipped: None,
        results: Vec::new(),
        failed_trials: 0,
        aggregate_ms,
        passed,
    }
}

#[test]
fn standard_configuration() {
    let config = BenchmarkConfig::standard(11);
    assert_eq!(config.topologies, NetworkTopology::all());
    assert_eq!(config.params, ThresholdParams::ecliptica_default());
    assert_eq!(config.trials, 5);
    assert_eq!(config.target_ms, 500);
    assert_eq!(config.seed, 11);
    assert_eq!(config.costs, CostModel::standard());
    assert_eq!(config.metric, AggregateMetric::Mean);
    assert_eq!(config.max_wait_ms, None);
}

#[test]
fn aggregate_is_mean_or_percentile_of_total_latencies() {
    let results: Vec<DecryptionResult> =
        [40u64, 10, 30, 21].iter().map(|t| result_with_total(*t)).collect();
    assert_eq!(aggregate(&results, AggregateMetric::Mean), Ok(25));
    assert_eq!(aggregate(&results, AggregateMetric::Percentile(0)), Ok(10));
    assert_eq!(aggregate(&results, AggregateMetric::Percentile(50)), Ok(30));
    assert_eq!(aggregate(&results, AggregateMetric::Percentile(99)), Ok(40));
    assert_eq!(aggregate(&[], AggregateMetric::Mean), Err(QuorumError::EmptyInput));
    assert_eq!(aggregate(&[], AggregateMetric::Percentile(99)), Err(QuorumError::EmptyInput));
}

#[test]
fn margin_over_the_target() {
    assert_eq!(over_by(Some(612), 500), Some(112));
    assert_eq!(over_by(Some(500), 500), Some(0));
    assert_eq!(over_by(Some(499), 500), None);
    assert_eq!(over_by(None, 500), None);
}

#[test]
fn verdict_names_the_first_topology_that_did_not_pass() {
    let sets = vec![
        set(NetworkTopology::LocalLAN, Some(3), true),
        set(NetworkTopology::Geographic, Some(650), false),
        set(NetworkTopology::Adversarial, Some(700), false),
    ];
    assert_eq!(
        verdict_of(&sets, 500),
        Verdict::Fail { topology: NetworkTopology::Geographic, over_by_ms: Some(150) }
    );
    let sets = vec![
        set(NetworkTopology::LocalLAN, Some(3), true),
        set(NetworkTopology::Geographic, Some(120), true),
    ];
    assert_eq!(verdict_of(&sets, 500), Verdict::Pass);
    assert_eq!(verdict_of(&[], 500), Verdict::Pass);
    let sets = vec![set(NetworkTopology::Adversarial, None, false)];
    assert_eq!(
        verdict_of(&sets, 500),
        Verdict::Fail { topology: NetworkTopology::Adversarial, over_by_ms: None }
    );
}

#[test]
fn trials_of_one_coordinator_agree() {
    let coordinator =
        ThresholdDecryption::with_latencies(NetworkTopology::Geographic, 2, &[80, 60, 70]).unwrap();
    let set = run_trials(&coordinator, 4, 500, AggregateMetric::Mean, None);
    assert_eq!(set.topology, NetworkTopology::Geographic);
    assert_eq!(set.skipped, None);
    assert_eq!(set.results.len(), 4);
    assert_eq!(set.failed_trials, 0);
    for result in &set.results {
        assert_eq!(result.total_time_ms, 70);
        assert_eq!(result.accepted_validators, vec![1, 2]);
    }
    assert_eq!(set.aggregate_ms, Some(70));
    assert!(set.passed);
    let strict = run_trials(&coordinator, 4, 70, AggregateMetric::Percentile(99), None);
    assert_eq!(strict.aggregate_ms, Some(70));
    assert!(!strict.passed);
}

#[test]
fn missed_quorums_are_counted_as_failed_trials() {
    let coordinator =
        ThresholdDecryption::with_latencies(NetworkTopology::Geographic, 2, &[80, 60, 70])
            .unwrap()
            .with_offline(1)
            .with_offline(2);
    let set = run_trials(&coordinator, 3, 500, AggregateMetric::Mean, None);
    assert_eq!(set.results.len(), 0);
    assert_eq!(set.failed_trials, 3);
    assert_eq!(set.aggregate_ms, None);
    assert!(!set.passed);
    assert_eq!(set.skipped, None);
}

#[test]
fn no_trials_leave_nothing_to_add_up() {
    let coordinator =
        ThresholdDecryption::with_latencies(NetworkTopology::Geographic, 2, &[80, 60, 70]).unwrap();
    let set = run_trials(&coordinator, 0, 500, AggregateMetric::Mean, None);
    assert_eq!(set.results.len(), 0);
    assert_eq!(set.aggregate_ms, None);
    assert!(!set.passed);
    let mut config = BenchmarkConfig::standard(1);
    config.trials = 0;
    assert!(matches!(run_threshold_benchmark(&config), Err(QuorumError::EmptyInput)));
}

#[test]
fn local_network_passes_the_standard_target() {
    let mut config = BenchmarkConfig::standard(2024);
    config.topologies = vec![NetworkTopology::LocalLAN];
    let summary = run_threshold_benchmark(&config).unwrap();
    assert_eq!(summary.verdict, Verdict::Pass);
    assert_eq!(summary.target_ms, 500);
    assert_eq!(summary.sets.len(), 1);
    let set = &summary.sets[0];
    assert_eq!(set.topology, NetworkTopology::LocalLAN);
    assert_eq!(set.results.len(), 5);
    assert!(set.passed);
    let aggregate_ms = set.aggregate_ms.unwrap();
    assert!(aggregate_ms >= 1 && aggregate_ms <= 5);
    for result in &set.results {
        assert_eq!(result.shares_received, 67);
        assert_eq!(result.total_time_ms, aggregate_ms);
    }
}

#[test]
fn full_run_is_a_function_of_the_seed() {
    let first = run_threshold_benchmark(&BenchmarkConfig::standard(5)).unwrap();
    let second = run_threshold_benchmark(&BenchmarkConfig::standard(5)).unwrap();
    assert_eq!(first.verdict, second.verdict);
    assert_eq!(first.sets.len(), 3);
    for (a, b) in first.sets.iter().zip(second.sets.iter()) {
        assert_eq!(a.topology, b.topology);
        assert_eq!(a.aggregate_ms, b.aggregate_ms);
        assert_eq!(a.passed, b.passed);
        assert_eq!(a.failed_trials, 0);
        assert_eq!(a.results.len(), 5);
    }
    let order: Vec<NetworkTopology> = first.sets.iter().map(|s| s.topology).collect();
    assert_eq!(order, NetworkTopology::all());
    let (lan, geo, adv) = (
        first.sets[0].aggregate_ms.unwrap(),
        first.sets[1].aggregate_ms.unwrap(),
        first.sets[2].aggregate_ms.unwrap(),
    );
    assert!(lan <= 5);
    assert!(geo >= 50 && geo <= 200);
    assert!(adv >= 100 && adv <= 500);
    assert!(first.sets[0].passed && first.sets[1].passed);
}

#[test]
fn topologies_do_not_share_randomness() {
    let mut alone = BenchmarkConfig::standard(77);
    alone.topologies = vec![NetworkTopology::Adversarial];
    let alone = run_threshold_benchmark(&alone).unwrap();
    let all = run_threshold_benchmark(&BenchmarkConfig::standard(77)).unwrap();
    assert_eq!(alone.sets[0].aggregate_ms, all.sets[2].aggregate_ms);
    assert_eq!(
        alone.sets[0].results[0].accepted_validators,
        all.sets[2].results[0].accepted_validators
    );
}

#[test]
fn a_tight_target_fails_with_topology_and_margin() {
    let mut config = BenchmarkConfig::standard(5);
    config.target_ms = 50;
    let summary = run_threshold_benchmark(&config).unwrap();
    let geographic = summary.sets[1].aggregate_ms.unwrap();
    assert_eq!(
        summary.verdict,
        Verdict::Fail {
            topology: NetworkTopology::Geographic,
            over_by_ms: Some(geographic - 50)
        }
    );
    assert!(summary.sets[0].passed);
    assert!(!summary.sets[1].passed);
    assert!(!summary.sets[2].passed);
}

#[test]
fn invalid_parameters_skip_every_topology() {
    let mut config = BenchmarkConfig::standard(5);
    config.params.threshold = 101;
    let summary = run_threshold_benchmark(&config).unwrap();
    assert_eq!(summary.sets.len(), 3);
    for set in &summary.sets {
        assert_eq!(set.skipped, Some(QuorumError::InvalidThreshold));
        assert_eq!(set.results.len(), 0);
        assert_eq!(set.failed_trials, 0);
        assert!(!set.passed);
    }
    assert_eq!(
        summary.verdict,
        Verdict::Fail { topology: NetworkTopology::LocalLAN, over_by_ms: None }
    );
}

#[test]
fn a_short_wait_fails_the_slow_topologies() {
    let mut config = BenchmarkConfig::standard(5);
    config.max_wait_ms = Some(20);
    let summary = run_threshold_benchmark(&config).unwrap();
    assert!(summary.sets[0].passed);
    assert_eq!(summary.sets[1].failed_trials, 5);
    assert_eq!(summary.sets[1].aggregate_ms, None);
    assert_eq!(
        summary.verdict,
        Verdict::Fail { topology: NetworkTopology::Geographic, over_by_ms: None }
    );
}

#[test]
fn run_without_topologies_passes_trivially() {
    let mut config = BenchmarkConfig::standard(5);
    config.topologies = Vec::new();
    let summary = run_threshold_benchmark(&config).unwrap();
    assert_eq!(summary.sets.len(), 0);
    assert_eq!(summary.verdict, Verdict::Pass);
}

#[test]
fn statistics_of_a_trial_set_come_from_its_results() {
    let mut trials = set(NetworkTopology::Geographic, None, false);
    assert_eq!(trials.average_latency(), Err(QuorumError::EmptyInput));
    assert_eq!(trials.percentile_latency(99), Err(QuorumError::EmptyInput));
    trials.results = [120u64, 80, 101].iter().map(|t| result_with_total(*t)).collect();
    assert_eq!(trials.average_latency(), Ok(100));
    assert_eq!(trials.percentile_latency(0), Ok(80));
    assert_eq!(trials.percentile_latency(50), Ok(101));
    assert_eq!(trials.percentile_latency(99), Ok(120));
}
