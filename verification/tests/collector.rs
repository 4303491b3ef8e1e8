use quorum_bench::collector::{CollectorAction, QuorumCollector};
use quorum_bench::error::QuorumError;
use quorum_bench::params::ThresholdParams;
use quorum_bench::result::DecryptionResult;
use quorum_bench::timing::PhaseTimings;
use quorum_bench::topology::NetworkTopology;
use quorum_bench::validator::{Arrival, Response};

fn params(total_validators: usize, threshold: usize) -> ThresholdParams {
    ThresholdParams { total_validators, threshold, share_size_bytes: 32 }
}

fn response(validator_id: usize, elapsed_us: u128) -> Response {
    Response { validator_id, share: vec![validator_id as u8; 32], elapsed_us }
}

fn timings(collection_us: u128) -> PhaseTimings {
    PhaseTimings {
        broadcast_us: 1_100,
        collection_us,
        reconstruct_us: 2_900,
        decrypt_us: 999,
        total_us: 1_100 + collection_us + 2_900 + 999,
    }
}

#[test]
fn collector_stops_at_the_threshold() {
    let collector = QuorumCollector::new(NetworkTopology::LocalLAN, params(4, 2)).unwrap();
    assert!(!collector.is_complete());
    assert_eq!(collector.accepted_count(), 0);
    let (collector, action) = collector.on_response(response(2, 3_000));
    assert_eq!(action, CollectorAction::AwaitNext);
    assert_eq!(collector.accepted_count(), 1);
    let (collector, action) = collector.on_response(response(0, 4_000));
    assert_eq!(action, CollectorAction::QuorumReached);
    assert!(collector.is_complete());
    assert_eq!(collector.accepted_count(), 2);
}

#[test]
fn late_answers_are_discarded() {
    let collector = QuorumCollector::new(NetworkTopology::LocalLAN, params(4, 2)).unwrap();
    let (collector, _) = collector.on_response(response(2, 3_000));
    let (collector, _) = collector.on_response(response(0, 4_000));
    let (collector, action) = collector.on_response(response(1, 5_000));
    assert_eq!(action, CollectorAction::QuorumReached);
    assert_eq!(collector.accepted_count(), 2);
    let ids: Vec<usize> = collector.responses().iter().map(|r| r.validator_id).collect();
    assert_eq!(ids, vec![2, 0]);
    let result = collector.finish(timings(4_000)).unwrap();
    assert_eq!(result.accepted_validators, vec![2, 0]);
    assert_eq!(result.shares_received, 2);
}

#[test]
fn answers_are_kept_in_arrival_order_with_their_shares() {
    let collector = QuorumCollector::new(NetworkTopology::LocalLAN, params(3, 3)).unwrap();
    let (collector, _) = collector.on_response(response(1, 9_000));
    let (collector, _) = collector.on_response(response(2, 2_000));
    let (collector, _) = collector.on_response(response(0, 5_500));
    let kept = collector.responses();
    assert_eq!(kept[0].share, vec![1u8; 32]);
    assert_eq!(kept[1].share, vec![2u8; 32]);
    assert_eq!(kept[2].elapsed_us, 5_500);
}

#[test]
fn finish_gives_the_measured_phases_in_milliseconds() {
    let collector = QuorumCollector::new(NetworkTopology::Adversarial, params(3, 2)).unwrap();
    let (collector, _) = collector.on_response(response(1, 120_700));
    let (collector, _) = collector.on_response(response(2, 480_999));
    let result = collector.finish(timings(481_500)).unwrap();
    assert_eq!(result.topology, NetworkTopology::Adversarial);
    assert_eq!(result.params, params(3, 2));
    assert_eq!(result.broadcast_time_ms, 1);
    assert_eq!(result.collection_time_ms, 481);
    assert_eq!(result.reconstruct_time_ms, 2);
    assert_eq!(result.decrypt_time_ms, 0);
    assert_eq!(result.total_time_ms, 486);
    assert_eq!(result.validator_response_times, vec![120, 480]);
    assert_eq!(result.accepted_validators, vec![1, 2]);
    assert_eq!(result.shares_received, 2);
}

#[test]
fn finish_before_the_quorum_is_a_missed_quorum() {
    let collector = QuorumCollector::new(NetworkTopology::LocalLAN, params(4, 2)).unwrap();
    assert!(matches!(collector.finish(timings(0)), Err(QuorumError::QuorumNotReached)));
    let collector = QuorumCollector::new(NetworkTopology::LocalLAN, params(4, 2)).unwrap();
    let (collector, _) = collector.on_response(response(3, 1));
    assert!(matches!(collector.finish(timings(1)), Err(QuorumError::QuorumNotReached)));
}

#[test]
fn collector_needs_a_valid_threshold() {
    assert!(matches!(
        QuorumCollector::new(NetworkTopology::LocalLAN, params(4, 0)),
        Err(QuorumError::InvalidThreshold)
    ));
    assert!(matches!(
        QuorumCollector::new(NetworkTopology::LocalLAN, params(4, 5)),
        Err(QuorumError::InvalidThreshold)
    ));
}

#[test]
fn assembled_result_lists_times_and_identities() {
    let accepted =
        [Arrival { elapsed_us: 1_999, validator: 9 }, Arrival { elapsed_us: 2_000, validator: 4 }];
    let result = DecryptionResult::assemble(
        NetworkTopology::Geographic,
        params(10, 2),
        timings(2_000),
        &accepted,
    );
    assert_eq!(result.validator_response_times, vec![1, 2]);
    assert_eq!(result.accepted_validators, vec![9, 4]);
    assert_eq!(result.shares_received, 2);
    assert_eq!(result.collection_time_ms, 2);
}

#[test]
fn report_of_a_result() {
    let collector = QuorumCollector::new(NetworkTopology::Geographic, params(5, 3)).unwrap();
    let (collector, _) = collector.on_response(response(4, 60_000));
    let (collector, _) = collector.on_response(response(0, 75_000));
    let (collector, _) = collector.on_response(response(2, 499_000));
    let result = collector.finish(timings(499_000)).unwrap();
    assert_eq!(result.total_time_ms, 503);
    assert!(!result.meets_target());
    assert!(result.meets(504));
    assert_eq!(result.p99_latency(), Ok(499));
    let report = result.report(500).unwrap();
    assert_eq!(report.topology, NetworkTopology::Geographic);
    assert_eq!((report.total_validators, report.threshold, report.shares_received), (5, 3, 3));
    assert_eq!((report.fastest_ms, report.slowest_ms, report.p99_ms), (60, 499, 499));
    assert_eq!(report.total_ms, 503);
    assert_eq!(report.collection_ms, 499);
    assert_eq!((report.broadcast_ms, report.reconstruct_ms, report.decrypt_ms), (1, 2, 0));
    assert_eq!(report.target_ms, 500);
    assert!(!report.meets_target);
    assert!(result.report(504).unwrap().meets_target);
}

#[test]
fn target_is_a_strict_bound() {
    let accepted = [Arrival { elapsed_us: 500_000, validator: 0 }];
    let at_target = DecryptionResult::assemble(
        NetworkTopology::Geographic,
        params(1, 1),
        PhaseTimings {
            broadcast_us: 0,
            collection_us: 500_000,
            reconstruct_us: 0,
            decrypt_us: 0,
            total_us: 500_000,
        },
        &accepted,
    );
    assert_eq!(at_target.total_time_ms, 500);
    assert!(!at_target.meets_target());
    let mut under = at_target.clone();
    under.total_time_ms = 499;
    assert!(under.meets_target());
}

#[test]
fn report_without_response_times_is_empty_input() {
    let empty = DecryptionResult::assemble(
        NetworkTopology::LocalLAN,
        params(1, 1),
        timings(0),
        &[],
    );
    assert_eq!(empty.p99_latency(), Err(QuorumError::EmptyInput));
    assert!(matches!(empty.report(500), Err(QuorumError::EmptyInput)));
}
