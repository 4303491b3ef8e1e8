use quorum_bench::coordinator::ThresholdDecryption;
use quorum_bench::error::QuorumError;
use quorum_bench::params::{CostModel, ThresholdParams};
use quorum_bench::timing::whole_ms;
use quorum_bench::topology::NetworkTopology;
use quorum_bench::validator::{Validator, SEED_STRIDE};
use rand::rngs::StdRng;
use rand::{Rng, SeedableRng};

fn fixed(threshold: usize, latencies: &[u64]) -> ThresholdDecryption {
    ThresholdDecryption::with_latencies(NetworkTopology::Geographic, threshold, latencies).unwrap()
}

fn params(total_validators: usize, threshold: usize) -> ThresholdParams {
    ThresholdParams { total_validators, threshold, share_size_bytes: 32 }
}

#[test]
fn fastest_three_of_five_in_rising_order() {
    let result = fixed(3, &[50, 10, 30, 5, 40]).decrypt_transaction(None).unwrap();
    assert_eq!(result.accepted_validators, vec![3, 1, 2]);
    assert_eq!(result.validator_response_times, vec![5, 10, 30]);
    assert_eq!(result.shares_received, 3);
}

#[test]
fn accepted_set_does_not_depend_on_construction_order() {
    let a = fixed(3, &[50, 10, 30, 5, 40]).decrypt_transaction(None).unwrap();
    let b = fixed(3, &[5, 40, 50, 30, 10]).decrypt_transaction(None).unwrap();
    assert_eq!(a.validator_response_times, b.validator_response_times);
    assert_eq!(b.accepted_validators, vec![0, 4, 3]);
    assert_eq!(a.total_time_ms, b.total_time_ms);
}

#[test]
fn phase_times_of_a_collection() {
    let result = fixed(3, &[50, 10, 30, 5, 40]).decrypt_transaction(None).unwrap();
    assert_eq!(result.broadcast_time_ms, 0);
    assert_eq!(result.collection_time_ms, 30);
    assert_eq!(result.reconstruct_time_ms, 0);
    assert_eq!(result.decrypt_time_ms, 0);
    assert_eq!(result.total_time_ms, 30);
    assert_eq!(result.topology, NetworkTopology::Geographic);
    assert_eq!(result.params, params(5, 3));
}

#[test]
fn costs_add_to_the_clock_in_microseconds() {
    let costs = CostModel { share_decrypt_us: 1500, reconstruct_us: 700, payload_decrypt_us: 900 };
    let result =
        fixed(3, &[50, 10, 30, 5, 40]).with_costs(costs).decrypt_transaction(None).unwrap();
    assert_eq!(result.validator_response_times, vec![6, 11, 31]);
    assert_eq!(result.collection_time_ms, 31);
    assert_eq!(result.reconstruct_time_ms, 0);
    assert_eq!(result.decrypt_time_ms, 0);
    // 30 000 + 1 500 + 700 + 900 microseconds
    assert_eq!(result.total_time_ms, 33);
}

#[test]
fn whole_phases_show_in_the_breakdown() {
    let costs =
        CostModel { share_decrypt_us: 0, reconstruct_us: 2_000, payload_decrypt_us: 3_999 };
    let result = fixed(1, &[7]).with_costs(costs).decrypt_transaction(None).unwrap();
    assert_eq!(result.collection_time_ms, 7);
    assert_eq!(result.reconstruct_time_ms, 2);
    assert_eq!(result.decrypt_time_ms, 3);
    assert_eq!(result.total_time_ms, 12);
}

#[test]
fn responses_received_equals_threshold() {
    for total in 1..=12usize {
        let latencies: Vec<u64> = (0..total as u64).map(|i| (i * 7919) % 101).collect();
        for threshold in 1..=total {
            let result = fixed(threshold, &latencies).decrypt_transaction(None).unwrap();
            assert_eq!(result.shares_received, threshold);
            assert_eq!(result.validator_response_times.len(), threshold);
            assert_eq!(result.accepted_validators.len(), threshold);
        }
    }
}

#[test]
fn threshold_of_all_waits_for_the_slowest() {
    let result = fixed(5, &[50, 10, 30, 5, 40]).decrypt_transaction(None).unwrap();
    assert_eq!(result.accepted_validators, vec![3, 1, 2, 4, 0]);
    assert_eq!(result.collection_time_ms, 50);
    assert_eq!(result.shares_received, 5);
}

#[test]
fn threshold_of_one_ends_with_the_fastest() {
    let result = fixed(1, &[50, 10, 30, 5, 40]).decrypt_transaction(None).unwrap();
    assert_eq!(result.accepted_validators, vec![3]);
    assert_eq!(result.validator_response_times, vec![5]);
    assert_eq!(result.collection_time_ms, 5);
    assert_eq!(result.total_time_ms, 5);
}

#[test]
fn equal_latencies_are_taken_in_the_order_asked() {
    let result = fixed(2, &[10, 10, 10]).decrypt_transaction(None).unwrap();
    assert_eq!(result.accepted_validators, vec![0, 1]);
    let result = fixed(3, &[20, 10, 20, 10]).decrypt_transaction(None).unwrap();
    assert_eq!(result.accepted_validators, vec![1, 3, 0]);
}

#[test]
fn invalid_threshold_is_rejected() {
    let topology = NetworkTopology::LocalLAN;
    assert!(matches!(
        ThresholdDecryption::new(params(5, 0), topology, 1),
        Err(QuorumError::InvalidThreshold)
    ));
    assert!(matches!(
        ThresholdDecryption::new(params(5, 6), topology, 1),
        Err(QuorumError::InvalidThreshold)
    ));
    assert!(matches!(
        ThresholdDecryption::new(params(0, 0), topology, 1),
        Err(QuorumError::InvalidThreshold)
    ));
    assert!(matches!(
        ThresholdDecryption::with_latencies(topology, 0, &[1, 2]),
        Err(QuorumError::InvalidThreshold)
    ));
    assert!(matches!(
        ThresholdDecryption::with_latencies(topology, 3, &[1, 2]),
        Err(QuorumError::InvalidThreshold)
    ));
    assert!(matches!(
        ThresholdDecryption::with_latencies(topology, 1, &[]),
        Err(QuorumError::InvalidThreshold)
    ));
    assert!(ThresholdDecryption::new(params(5, 5), topology, 1).is_ok());
    assert!(ThresholdDecryption::new(params(5, 1), topology, 1).is_ok());
}

#[test]
fn offline_validators_are_passed_over() {
    let coordinator = fixed(3, &[50, 10, 30, 5, 40]).with_offline(3);
    let result = coordinator.decrypt_transaction(None).unwrap();
    assert_eq!(result.accepted_validators, vec![1, 2, 4]);
    assert_eq!(result.validator_response_times, vec![10, 30, 40]);
    assert_eq!(result.collection_time_ms, 40);
}

#[test]
fn too_few_responsive_validators_miss_the_quorum() {
    let coordinator =
        fixed(3, &[50, 10, 30, 5, 40]).with_offline(0).with_offline(1).with_offline(2);
    assert!(matches!(coordinator.decrypt_transaction(None), Err(QuorumError::QuorumNotReached)));
    let coordinator = fixed(5, &[50, 10, 30, 5, 40]).with_offline(4);
    assert!(matches!(coordinator.decrypt_transaction(None), Err(QuorumError::QuorumNotReached)));
}

#[test]
fn taking_no_validator_offline_changes_nothing() {
    let coordinator = fixed(3, &[50, 10, 30, 5, 40]).with_offline(5);
    let result = coordinator.decrypt_transaction(None).unwrap();
    assert_eq!(result.accepted_validators, vec![3, 1, 2]);
}

#[test]
fn quorum_must_be_complete_within_the_wait() {
    let coordinator = fixed(3, &[50, 10, 30, 5, 40]);
    // The third answer arrives 30.2 ms after the request.
    assert!(matches!(
        coordinator.decrypt_transaction(Some(30)),
        Err(QuorumError::QuorumNotReached)
    ));
    assert!(matches!(
        coordinator.decrypt_transaction(Some(0)),
        Err(QuorumError::QuorumNotReached)
    ));
    let result = coordinator.decrypt_transaction(Some(31)).unwrap();
    assert_eq!(result.accepted_validators, vec![3, 1, 2]);
    let exact = fixed(3, &[50, 10, 30, 5, 40]).with_costs(CostModel {
        share_decrypt_us: 0,
        reconstruct_us: 0,
        payload_decrypt_us: 0,
    });
    assert!(exact.decrypt_transaction(Some(30)).is_ok());
    assert!(exact.decrypt_transaction(Some(29)).is_err());
}

#[test]
fn repeated_collections_agree() {
    let coordinator = fixed(3, &[50, 10, 30, 5, 40]);
    let first = coordinator.decrypt_transaction(None).unwrap();
    let second = coordinator.decrypt_transaction(None).unwrap();
    assert_eq!(first.accepted_validators, second.accepted_validators);
    assert_eq!(first.validator_response_times, second.validator_response_times);
    assert_eq!(first.total_time_ms, second.total_time_ms);
}

#[test]
fn seeded_latencies_lie_in_the_topology_range() {
    for topology in NetworkTopology::all() {
        let (min_ms, max_ms) = topology.latency_ms();
        for seed in [0u64, 1, 42, u64::MAX] {
            let coordinator = ThresholdDecryption::new(params(50, 34), topology, seed).unwrap();
            assert_eq!(coordinator.validators().len(), 50);
            for (position, validator) in coordinator.validators().iter().enumerate() {
                assert_eq!(validator.id, position);
                assert!(min_ms <= validator.response_latency_ms);
                assert!(validator.response_latency_ms <= max_ms);
                assert_eq!(validator.share, vec![0u8; 32]);
                assert!(!validator.offline);
            }
        }
    }
}

#[test]
fn seeded_latency_is_the_first_draw_of_the_validators_generator() {
    let seed = 0xDEC0DEu64;
    let coordinator =
        ThresholdDecryption::new(params(20, 14), NetworkTopology::Adversarial, seed).unwrap();
    for validator in coordinator.validators() {
        let own_seed = seed ^ (validator.id as u64).wrapping_add(1).wrapping_mul(SEED_STRIDE);
        let expected: u64 = StdRng::seed_from_u64(own_seed).gen_range(100..=500);
        assert_eq!(validator.response_latency_ms, expected);
    }
    let alone = Validator::new(7, &NetworkTopology::Adversarial, seed);
    assert_eq!(alone.response_latency_ms, coordinator.validators()[7].response_latency_ms);
}

#[test]
fn same_seed_gives_the_same_run() {
    let make = |seed| {
        ThresholdDecryption::new(params(100, 67), NetworkTopology::Geographic, seed).unwrap()
    };
    let (a, b) = (make(2024), make(2024));
    let latencies = |c: &ThresholdDecryption| -> Vec<u64> {
        c.validators().iter().map(|v| v.response_latency_ms).collect()
    };
    assert_eq!(latencies(&a), latencies(&b));
    let (ra, rb) = (a.decrypt_transaction(None).unwrap(), b.decrypt_transaction(None).unwrap());
    assert_eq!(ra.accepted_validators, rb.accepted_validators);
    assert_eq!(ra.validator_response_times, rb.validator_response_times);
    assert_eq!(ra.total_time_ms, rb.total_time_ms);
    assert_eq!(ra.collection_time_ms, rb.collection_time_ms);
    assert_ne!(latencies(&a), latencies(&make(2025)));
}

#[test]
fn seeded_run_accepts_the_fastest_validators() {
    let coordinator =
        ThresholdDecryption::new(params(100, 67), NetworkTopology::Geographic, 99).unwrap();
    let result = coordinator.decrypt_transaction(None).unwrap();
    let mut keyed: Vec<(u64, usize)> =
        coordinator.validators().iter().map(|v| (v.response_latency_ms, v.id)).collect();
    keyed.sort();
    let expected_ids: Vec<usize> = keyed.iter().take(67).map(|k| k.1).collect();
    let expected_times: Vec<u64> = keyed.iter().take(67).map(|k| k.0).collect();
    assert_eq!(result.accepted_validators, expected_ids);
    assert_eq!(result.validator_response_times, expected_times);
    assert_eq!(result.collection_time_ms, keyed[66].0);
    assert_eq!(result.total_time_ms, keyed[66].0);
}

#[test]
fn local_topology_meets_the_target() {
    let coordinator =
        ThresholdDecryption::new(params(100, 67), NetworkTopology::LocalLAN, 7).unwrap();
    let result = coordinator.decrypt_transaction(None).unwrap();
    assert!(result.total_time_ms >= 1 && result.total_time_ms <= 5);
    assert!(result.meets_target());
    assert!(result.meets(500));
    assert!(!result.meets(1));
}

#[test]
fn adversarial_topology_is_slow_but_repeatable() {
    let run = || {
        ThresholdDecryption::new(params(100, 67), NetworkTopology::Adversarial, 7)
            .unwrap()
            .decrypt_transaction(None)
            .unwrap()
    };
    let (a, b) = (run(), run());
    assert!(a.total_time_ms >= 100 && a.total_time_ms <= 500);
    assert_eq!(a.total_time_ms, b.total_time_ms);
    assert_eq!(a.meets_target(), b.meets_target());
}

#[test]
fn validator_answers_after_latency_and_share_decryption() {
    let validator = Validator::with_latency(4, 25);
    let response = validator.respond_with_share(CostModel::standard()).unwrap();
    assert_eq!(response.validator_id, 4);
    assert_eq!(response.share, vec![0u8; 32]);
    assert_eq!(response.elapsed_us, 25_200);
    let arrival = validator.arrival(CostModel::standard());
    assert_eq!((arrival.elapsed_us, arrival.validator), (25_200, 4));
    assert!(validator.is_responsive());
}

#[test]
fn longest_latency_does_not_overflow_the_clock() {
    let costs = CostModel {
        share_decrypt_us: u64::MAX,
        reconstruct_us: u64::MAX,
        payload_decrypt_us: u64::MAX,
    };
    let result = fixed(1, &[u64::MAX]).with_costs(costs).decrypt_transaction(None).unwrap();
    assert_eq!(result.total_time_ms, u64::MAX);
    assert_eq!(result.collection_time_ms, u64::MAX);
    assert_eq!(result.reconstruct_time_ms, u64::MAX / 1000);
    let result = fixed(1, &[u64::MAX]).decrypt_transaction(None).unwrap();
    assert_eq!(result.total_time_ms, u64::MAX);
}

#[test]
fn whole_ms_rounds_down_and_saturates() {
    assert_eq!(whole_ms(0), 0);
    assert_eq!(whole_ms(999), 0);
    assert_eq!(whole_ms(1_000), 1);
    assert_eq!(whole_ms(30_200), 30);
    assert_eq!(whole_ms(u128::MAX), u64::MAX);
    assert_eq!(whole_ms(u64::MAX as u128 * 1000 + 999), u64::MAX);
}

#[test]
fn placeholder_secret_and_payload() {
    let coordinator = fixed(1, &[1]);
    let secret = coordinator.reconstruct_secret(&[]);
    assert_eq!(secret, vec![0u8; 32]);
    assert_eq!(coordinator.decrypt_payload(&secret), vec![0u8; 256]);
}

#[test]
fn coordinator_reports_its_settings() {
    let coordinator = fixed(2, &[3, 4, 5]);
    assert_eq!(coordinator.params(), params(3, 2));
    assert_eq!(coordinator.topology(), NetworkTopology::Geographic);
    assert_eq!(coordinator.costs(), CostModel::standard());
    let costs = CostModel { share_decrypt_us: 1, reconstruct_us: 2, payload_decrypt_us: 3 };
    assert_eq!(coordinator.with_costs(costs).costs(), costs);
}

#[test]
fn coordinator_by_topology_name() {
    let coordinator = ThresholdDecryption::for_topology(params(10, 7), "adversarial", 3).unwrap();
    assert_eq!(coordinator.topology(), NetworkTopology::Adversarial);
    assert_eq!(coordinator.validators().len(), 10);
    let direct = ThresholdDecryption::new(params(10, 7), NetworkTopology::Adversarial, 3).unwrap();
    for (a, b) in coordinator.validators().iter().zip(direct.validators()) {
        assert_eq!(a.response_latency_ms, b.response_latency_ms);
    }
    assert!(matches!(
        ThresholdDecryption::for_topology(params(10, 7), "orbital", 3),
        Err(QuorumError::UnknownTopology)
    ));
    assert!(matches!(
        ThresholdDecryption::for_topology(params(10, 0), "orbital", 3),
        Err(QuorumError::InvalidThreshold)
    ));
    assert!(matches!(
        ThresholdDecryption::for_topology(params(10, 11), "local", 3),
        Err(QuorumError::InvalidThreshold)
    ));
}
