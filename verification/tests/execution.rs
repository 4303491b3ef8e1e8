use quorum_bench::clock::{narrow, Stopwatch};
use quorum_bench::execution::{
    execution_models, fastest, run_execution_benchmark, EncryptedCounter, EncryptedState,
    ExecutionBreakdown, ExecutionModel, ExecutionResult,
};
use sha3::digest::{ExtendableOutput, Update, XofReader};
use sha3::Shake256;

const KEY: &[u8] = b"test_encryption_key_32_bytes!!!";

fn shake256_32(data: &[u8]) -> [u8; 32] {
    let mut hasher = Shake256::default();
    hasher.update(data);
    let mut out = [0u8; 32];
    hasher.finalize_xof().read(&mut out);
    out
}

fn result_with_total(total_time_us: u64) -> ExecutionResult {
    ExecutionResult::tee(0, 0, total_time_us)
}

#[test]
fn encryption_is_exclusive_or_with_the_repeated_key() {
    let ciphertext = EncryptedState::encrypt(&[0x00, 0xff, 0x0f, 0xaa, 0x55], &[0x0f, 0xf0]);
    assert_eq!(ciphertext, vec![0x0f, 0x0f, 0x00, 0x5a, 0x5a]);
    assert_eq!(EncryptedState::encrypt(&[], &[]), Vec::<u8>::new());
    assert_eq!(EncryptedState::encrypt(&[7, 8], &[0]), vec![7, 8]);
}

#[test]
fn commitment_is_shake256_of_the_ciphertext() {
    let state = EncryptedState::new(&[], KEY);
    let empty: [u8; 32] = [
        0x46, 0xb9, 0xdd, 0x2b, 0x0b, 0xa8, 0x8d, 0x13, 0x23, 0x3b, 0x3f, 0xeb, 0x74, 0x3e, 0xeb,
        0x24, 0x3f, 0xcd, 0x52, 0xea, 0x62, 0xb8, 0x1b, 0x82, 0xb5, 0x0c, 0x27, 0x64, 0x6e, 0xd5,
        0x76, 0x2f,
    ];
    assert_eq!(state.commitment, empty);
    assert_eq!(state.ciphertext, Vec::<u8>::new());
    let state = EncryptedState::new(b"plaintext", KEY);
    assert_eq!(state.commitment, shake256_32(&state.ciphertext));
    assert_ne!(state.commitment, empty);
    assert_eq!(state.encryption_key, KEY.to_vec());
    assert_eq!(state.ciphertext, EncryptedState::encrypt(b"plaintext", KEY));
}

#[test]
fn counter_holds_its_initial_value() {
    for value in [0u64, 1, 255, 0x0123_4567_89ab_cdef, u64::MAX] {
        let counter = EncryptedCounter::new(value, KEY);
        assert_eq!(counter.value(KEY), value);
        assert_eq!(counter.state().ciphertext.len(), 8);
        assert_eq!(
            counter.state().ciphertext,
            EncryptedState::encrypt(&value.to_le_bytes(), KEY)
        );
        assert_eq!(counter.decrypt(&counter.state().ciphertext, KEY), value.to_le_bytes().to_vec());
    }
}

#[test]
fn client_side_increment_adds_one_and_proves_it() {
    let mut counter = EncryptedCounter::new(41, KEY);
    let result = counter.increment(ExecutionModel::ClientSideZK, KEY);
    assert_eq!(counter.value(KEY), 42);
    assert_eq!(result.model, ExecutionModel::ClientSideZK);
    assert!(result.success);
    assert_eq!(result.proof_size_bytes, 30_000);
    assert_eq!(result.breakdown.network_us, 0);
    assert_eq!(counter.state().commitment, shake256_32(&counter.state().ciphertext));
}

#[test]
fn enclave_increment_adds_one_without_a_proof() {
    let mut counter = EncryptedCounter::new(255, KEY);
    let result = counter.increment(ExecutionModel::TEEBased, KEY);
    assert_eq!(counter.value(KEY), 256);
    assert_eq!(result.model, ExecutionModel::TEEBased);
    assert!(result.success);
    assert_eq!(result.proof_size_bytes, 0);
    assert_eq!(result.breakdown.encryption_us, 0);
    assert_eq!(result.breakdown.proof_gen_us, 0);
    assert_eq!(result.breakdown.network_us, 0);
}

#[test]
fn multi_party_increment_leaves_the_state_and_books_link_latency() {
    let mut counter = EncryptedCounter::new(5, KEY);
    let before = counter.state().clone();
    let result = counter.increment(ExecutionModel::MPCBased, KEY);
    assert_eq!(counter.value(KEY), 5);
    assert_eq!(counter.state().ciphertext, before.ciphertext);
    assert_eq!(counter.state().commitment, before.commitment);
    assert_eq!(result.model, ExecutionModel::MPCBased);
    assert!(result.success);
    assert_eq!(result.proof_size_bytes, 0);
    assert_eq!(result.breakdown.proof_gen_us, 0);
    assert_eq!(result.breakdown.network_us, result.breakdown.execution_us);
    assert!(result.breakdown.execution_us >= 500);
    assert!(result.total_time_us >= 500);
}

#[test]
fn increments_follow_one_another() {
    let mut counter = EncryptedCounter::new(u64::MAX - 2, KEY);
    counter.increment_client_zk(KEY);
    counter.increment_tee(KEY);
    assert_eq!(counter.value(KEY), u64::MAX);
    counter.increment_mpc(KEY);
    assert_eq!(counter.value(KEY), u64::MAX);
}

#[test]
fn placeholders_have_their_sizes() {
    let counter = EncryptedCounter::new(0, KEY);
    assert_eq!(counter.generate_zk_proof(0, 1), vec![0u8; 30_000]);
    assert_eq!(counter.tee_attest(), vec![0u8; 1024]);
    assert_eq!(counter.secret_share_state(KEY, 3, 5), vec![vec![0u8; 32]; 5]);
    assert_eq!(counter.secret_share_state(KEY, 1, 2), vec![vec![0u8; 32]; 5]);
    assert_eq!(counter.reconstruct_from_shares(&[]), vec![0u8; 8]);
}

#[test]
fn results_are_assembled_field_by_field() {
    let r = ExecutionResult::client_zk(1, 2, 3, 4, 11, 30_000);
    assert_eq!(
        r,
        ExecutionResult {
            model: ExecutionModel::ClientSideZK,
            success: true,
            total_time_us: 11,
            breakdown: ExecutionBreakdown {
                decryption_us: 1,
                execution_us: 2,
                encryption_us: 3,
                proof_gen_us: 4,
                network_us: 0,
            },
            proof_size_bytes: 30_000,
        }
    );
    let r = ExecutionResult::tee(5, 6, 12);
    assert_eq!(
        r.breakdown,
        ExecutionBreakdown {
            decryption_us: 5,
            execution_us: 6,
            encryption_us: 0,
            proof_gen_us: 0,
            network_us: 0,
        }
    );
    assert_eq!((r.model, r.total_time_us, r.proof_size_bytes), (ExecutionModel::TEEBased, 12, 0));
    let r = ExecutionResult::mpc(7, 8, 9, 25);
    assert_eq!(
        r.breakdown,
        ExecutionBreakdown {
            decryption_us: 7,
            execution_us: 8,
            encryption_us: 9,
            proof_gen_us: 0,
            network_us: 8,
        }
    );
    assert_eq!((r.model, r.total_time_us, r.proof_size_bytes), (ExecutionModel::MPCBased, 25, 0));
}

#[test]
fn overhead_target_is_a_strict_multiple_of_the_plaintext_time() {
    assert!(result_with_total(99).meets_target(10));
    assert!(!result_with_total(100).meets_target(10));
    assert!(!result_with_total(0).meets_target(0));
    assert!(result_with_total(u64::MAX).meets_target(u64::MAX));
}

#[test]
fn fastest_is_the_first_of_the_least_totals() {
    let totals =
        |ts: &[u64]| -> Vec<ExecutionResult> { ts.iter().map(|t| result_with_total(*t)).collect() };
    assert_eq!(fastest(&totals(&[30, 10, 20])), Some(1));
    assert_eq!(fastest(&totals(&[10, 10, 20])), Some(0));
    assert_eq!(fastest(&totals(&[30, 20, 20])), Some(1));
    assert_eq!(fastest(&totals(&[5])), Some(0));
    assert_eq!(fastest(&[]), None);
}

#[test]
fn benchmark_runs_every_model_once() {
    assert_eq!(
        execution_models(),
        vec![ExecutionModel::ClientSideZK, ExecutionModel::TEEBased, ExecutionModel::MPCBased]
    );
    let results = run_execution_benchmark(KEY);
    let models: Vec<ExecutionModel> = results.iter().map(|r| r.model).collect();
    assert_eq!(models, execution_models());
    assert!(results.iter().all(|r| r.success));
    assert_eq!(results[0].proof_size_bytes, 30_000);
    assert!(results[2].total_time_us >= 500);
    assert!(fastest(&results).is_some());
}

#[test]
fn stopwatch_readings_do_not_go_back() {
    let watch = Stopwatch::start();
    let first = watch.elapsed_us();
    let millis = watch.elapsed_ms();
    let second = watch.elapsed_us();
    assert!(first <= second);
    assert!(first / 1000 <= millis && millis <= second / 1000);
    assert_eq!(narrow(17), 17);
    assert_eq!(narrow(u64::MAX as u128), u64::MAX);
    assert_eq!(narrow(u64::MAX as u128 + 1), u64::MAX);
}

#[test]
fn multi_party_increment_needs_no_key() {
    let mut counter = EncryptedCounter::new(u64::MAX, KEY);
    let result = counter.increment(ExecutionModel::MPCBased, &[]);
    assert_eq!(result.model, ExecutionModel::MPCBased);
    assert_eq!(counter.value(KEY), u64::MAX);
}
