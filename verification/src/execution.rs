//! Harness for encrypted contract execution under three execution models.

use vstd::prelude::*;
use vstd::bytes::{
    lemma_auto_spec_u64_to_from_le_bytes, spec_u64_from_le_bytes, spec_u64_to_le_bytes,
    u64_from_le_bytes, u64_to_le_bytes,
};
use sha3::digest::{ExtendableOutput, Update, XofReader};
use sha3::Shake256;
use crate::clock::Stopwatch;

verus! {

/// Size in bytes of the placeholder that stands for a zero-knowledge proof.
pub const ZK_PROOF_SIZE_BYTES: usize = 30_000;

/// Size in bytes of the placeholder that stands for an enclave attestation.
pub const ATTESTATION_SIZE_BYTES: usize = 1024;

/// Number of parties among which the state is shared for a multi-party
/// computation.
pub const MPC_PARTIES: usize = 5;

/// Size in bytes of the share that each party holds.
pub const MPC_SHARE_SIZE_BYTES: usize = 32;

/// Simulated latency, in microseconds, of the link to each party.
pub const MPC_LINK_LATENCY_US: u64 = 100;

/// Time, in microseconds, that an increment of a counter in the clear is
/// taken to need.
pub const PLAINTEXT_INCREMENT_US: u64 = 10;

/// A way of computing on encrypted contract state.
#[derive(Debug, Clone, Copy, PartialEq, Eq, Structural)]
pub enum ExecutionModel {
    /// The client computes in the clear and proves the step in zero
    /// knowledge.
    ClientSideZK,
    /// A trusted execution environment computes.
    TEEBased,
    /// Several parties compute on shares of the state.
    MPCBased,
}

/// Each byte of the data combined by exclusive or with the key, which is
/// repeated as often as needed.
pub open spec fn xor_with_key(data: Seq<u8>, key: Seq<u8>) -> Seq<u8> {
    Seq::new(data.len(), |i: int| data[i] ^ key[i % (key.len() as int)])
}

/// The first 32 bytes of the SHAKE256 output for the data.
pub uninterp spec fn shake256_32(data: Seq<u8>) -> Seq<u8>;

/// Hashes the data with `sha3::Shake256` (`Update::update`, then
/// `ExtendableOutput::finalize_xof` and `XofReader::read`) and returns the
/// first 32 bytes of the output.
///
/// Trusted: the output is a function of the data alone.
#[verifier::external_body]
fn commit(data: &[u8]) -> (digest: [u8; 32])
    ensures
        digest@ == shake256_32(data@),
{
    let mut hasher = Shake256::default();
    hasher.update(data);
    let mut output = [0u8; 32];
    hasher.finalize_xof().read(&mut output);
    output
}

/// Applying the same key twice gives the data back.
pub proof fn lemma_xor_round_trip(data: Seq<u8>, key: Seq<u8>)
    requires
        key.len() > 0,
    ensures
        xor_with_key(xor_with_key(data, key), key) == data,
        xor_with_key(data, key).len() == data.len(),
{
    let once = xor_with_key(data, key);
    let twice = xor_with_key(once, key);
    assert forall|i: int| 0 <= i < data.len() implies twice[i] == data[i] by {
        let d = data[i];
        let k = key[i % (key.len() as int)];
        assert((d ^ k) ^ k == d) by (bit_vector);
    }
    assert(twice =~= data);
}

/// Combines each byte of the data with the key by exclusive or.
fn xor_bytes(data: &[u8], key: &[u8]) -> (out: Vec<u8>)
    requires
        key@.len() > 0 || data@.len() == 0,
    ensures
        out@ == xor_with_key(data@, key@),
{
    let mut out: Vec<u8> = Vec::new();
    let mut i: usize = 0;
    while i < data.len()
        invariant
            i <= data@.len(),
            key@.len() > 0 || data@.len() == 0,
            out@ == Seq::new(i as nat, |j: int| data@[j] ^ key@[j % (key@.len() as int)]),
        decreases data@.len() - i,
    {
        out.push(data[i] ^ key[i % key.len()]);
        proof {
            assert(out@ =~= Seq::new(
                (i + 1) as nat,
                |j: int| data@[j] ^ key@[j % (key@.len() as int)],
            ));
        }
        i += 1;
    }
    proof {
        assert(out@ =~= xor_with_key(data@, key@));
    }
    out
}

/// A sequence of `n` zero bytes.
pub open spec fn zero_bytes(n: nat) -> Seq<u8> {
    Seq::new(n, |i: int| 0u8)
}

/// Encrypted contract state: the ciphertext, a commitment to it, and the key
/// it was encrypted with.
#[derive(Clone)]
pub struct EncryptedState {
    pub ciphertext: Vec<u8>,
    pub commitment: [u8; 32],
    pub encryption_key: Vec<u8>,
}

/// An `EncryptedState` as a mathematical value.
pub struct EncryptedStateView {
    pub ciphertext: Seq<u8>,
    pub commitment: Seq<u8>,
    pub encryption_key: Seq<u8>,
}

impl View for EncryptedState {
    type V = EncryptedStateView;

    open spec fn view(&self) -> EncryptedStateView {
        EncryptedStateView {
            ciphertext: self.ciphertext@,
            commitment: self.commitment@,
            encryption_key: self.encryption_key@,
        }
    }
}

impl EncryptedState {
    /// The state that holds the plaintext under the key.
    pub open spec fn spec_new(plaintext: Seq<u8>, key: Seq<u8>) -> EncryptedStateView {
        EncryptedStateView {
            ciphertext: xor_with_key(plaintext, key),
            commitment: shake256_32(xor_with_key(plaintext, key)),
            encryption_key: key,
        }
    }

    /// Encrypts the plaintext under the key and commits to the ciphertext.
    /// The key must not be empty unless the plaintext is.
    pub fn new(plaintext: &[u8], key: &[u8]) -> (state: EncryptedState)
        requires
            key@.len() > 0 || plaintext@.len() == 0,
        ensures
            state@ == Self::spec_new(plaintext@, key@),
    {
        let ciphertext = Self::encrypt(plaintext, key);
        let commitment = commit(ciphertext.as_slice());
        EncryptedState { ciphertext, commitment, encryption_key: vstd::slice::slice_to_vec(key) }
    }

    /// The plaintext with each byte combined with the key by exclusive or.
    pub fn encrypt(plaintext: &[u8], key: &[u8]) -> (ciphertext: Vec<u8>)
        requires
            key@.len() > 0 || plaintext@.len() == 0,
        ensures
            ciphertext@ == xor_with_key(plaintext@, key@),
    {
        xor_bytes(plaintext, key)
    }
}

/// How long each step of an execution took, in microseconds.
#[derive(Debug, Clone, Copy, PartialEq, Eq, Structural)]
pub struct ExecutionBreakdown {
    pub decryption_us: u64,
    pub execution_us: u64,
    pub encryption_us: u64,
    pub proof_gen_us: u64,
    pub network_us: u64,
}

/// What one execution measured.
#[derive(Debug, Clone, Copy, PartialEq, Eq, Structural)]
pub struct ExecutionResult {
    pub model: ExecutionModel,
    pub success: bool,
    pub total_time_us: u64,
    pub breakdown: ExecutionBreakdown,
    pub proof_size_bytes: usize,
}

/// What holds of the result of an execution under the given model, whatever
/// the clock read: the model is on record, the execution succeeded, only
/// the client-side model made a proof, and only the multi-party model spent
/// time on the network, namely all of its execution time and at least the
/// simulated latency of the links to the parties.
pub open spec fn is_execution_under(model: ExecutionModel, r: ExecutionResult) -> bool {
    &&& r.model == model
    &&& r.success
    &&& match model {
        ExecutionModel::ClientSideZK => {
            &&& r.proof_size_bytes == ZK_PROOF_SIZE_BYTES
            &&& r.breakdown.network_us == 0
        },
        ExecutionModel::TEEBased => {
            &&& r.proof_size_bytes == 0
            &&& r.breakdown.encryption_us == 0
            &&& r.breakdown.proof_gen_us == 0
            &&& r.breakdown.network_us == 0
        },
        ExecutionModel::MPCBased => {
            &&& r.proof_size_bytes == 0
            &&& r.breakdown.proof_gen_us == 0
            &&& r.breakdown.network_us == r.breakdown.execution_us
            &&& r.breakdown.execution_us >= MPC_PARTIES * MPC_LINK_LATENCY_US
            &&& r.total_time_us >= MPC_PARTIES * MPC_LINK_LATENCY_US
        },
    }
}

impl ExecutionResult {
    /// The result of a client-side execution with the given step times and
    /// proof size.
    pub fn client_zk(
        decrypt_us: u64,
        execute_us: u64,
        encrypt_us: u64,
        proof_us: u64,
        total_us: u64,
        proof_size_bytes: usize,
    ) -> (r: ExecutionResult)
        ensures
            r == (ExecutionResult {
                model: ExecutionModel::ClientSideZK,
                success: true,
                total_time_us: total_us,
                breakdown: ExecutionBreakdown {
                    decryption_us: decrypt_us,
                    execution_us: execute_us,
                    encryption_us: encrypt_us,
                    proof_gen_us: proof_us,
                    network_us: 0,
                },
                proof_size_bytes,
            }),
    {
        ExecutionResult {
            model: ExecutionModel::ClientSideZK,
            success: true,
            total_time_us: total_us,
            breakdown: ExecutionBreakdown {
                decryption_us: decrypt_us,
                execution_us: execute_us,
                encryption_us: encrypt_us,
                proof_gen_us: proof_us,
                network_us: 0,
            },
            proof_size_bytes,
        }
    }

    /// The result of an execution in an enclave: the attestation is booked
    /// as set-up time, no proof is made.
    pub fn tee(attest_us: u64, execute_us: u64, total_us: u64) -> (r: ExecutionResult)
        ensures
            r == (ExecutionResult {
                model: ExecutionModel::TEEBased,
                success: true,
                total_time_us: total_us,
                breakdown: ExecutionBreakdown {
                    decryption_us: attest_us,
                    execution_us: execute_us,
                    encryption_us: 0,
                    proof_gen_us: 0,
                    network_us: 0,
                },
                proof_size_bytes: 0,
            }),
    {
        ExecutionResult {
            model: ExecutionModel::TEEBased,
            success: true,
            total_time_us: total_us,
            breakdown: ExecutionBreakdown {
                decryption_us: attest_us,
                execution_us: execute_us,
                encryption_us: 0,
                proof_gen_us: 0,
                network_us: 0,
            },
            proof_size_bytes: 0,
        }
    }

    /// The result of a multi-party execution: sharing is booked as set-up
    /// time, reconstruction as encryption time, and the time the parties
    /// take is all network time.
    pub fn mpc(share_us: u64, compute_us: u64, reconstruct_us: u64, total_us: u64) -> (r:
        ExecutionResult)
        ensures
            r == (ExecutionResult {
                model: ExecutionModel::MPCBased,
                success: true,
                total_time_us: total_us,
                breakdown: ExecutionBreakdown {
                    decryption_us: share_us,
                    execution_us: compute_us,
                    encryption_us: reconstruct_us,
                    proof_gen_us: 0,
                    network_us: compute_us,
                },
                proof_size_bytes: 0,
            }),
    {
        ExecutionResult {
            model: ExecutionModel::MPCBased,
            success: true,
            total_time_us: total_us,
            breakdown: ExecutionBreakdown {
                decryption_us: share_us,
                execution_us: compute_us,
                encryption_us: reconstruct_us,
                proof_gen_us: 0,
                network_us: compute_us,
            },
            proof_size_bytes: 0,
        }
    }

    /// The total time is less than `max_overhead` times that of an
    /// increment in the clear.
    pub open spec fn spec_meets_target(&self, max_overhead: u64) -> bool {
        self.total_time_us < max_overhead * PLAINTEXT_INCREMENT_US
    }

    #[verifier::when_used_as_spec(spec_meets_target)]
    pub fn meets_target(&self, max_overhead: u64) -> (r: bool)
        ensures
            r == self.spec_meets_target(max_overhead),
    {
        (self.total_time_us as u128) < (max_overhead as u128) * (PLAINTEXT_INCREMENT_US as u128)
    }
}

/// A counter contract whose value is kept encrypted.
pub struct EncryptedCounter {
    state: EncryptedState,
}

impl EncryptedCounter {
    /// The encrypted state of the counter.
    pub closed spec fn spec_state(&self) -> EncryptedStateView {
        self.state@
    }

    /// The value that the counter holds when read with the key.
    pub open spec fn spec_value(&self, key: Seq<u8>) -> u64 {
        spec_u64_from_le_bytes(xor_with_key(self.spec_state().ciphertext, key))
    }

    /// The ciphertext holds the eight bytes of a 64-bit value.
    pub open spec fn wf(&self) -> bool {
        self.spec_state().ciphertext.len() == 8
    }

    #[verifier::type_invariant]
    spec fn inv(&self) -> bool {
        self.wf()
    }

    /// A counter that holds `initial_value` under the key. The key must not
    /// be empty.
    pub fn new(initial_value: u64, key: &[u8]) -> (counter: EncryptedCounter)
        requires
            key@.len() > 0,
        ensures
            counter.wf(),
            counter.spec_state() == EncryptedState::spec_new(
                spec_u64_to_le_bytes(initial_value),
                key@,
            ),
            counter.spec_value(key@) == initial_value,
    {
        let plaintext = u64_to_le_bytes(initial_value);
        let state = EncryptedState::new(plaintext.as_slice(), key);
        proof {
            lemma_xor_round_trip(plaintext@, key@);
            lemma_auto_spec_u64_to_from_le_bytes();
        }
        EncryptedCounter { state }
    }

    /// The encrypted state of the counter.
    pub fn state(&self) -> (s: &EncryptedState)
        ensures
            s@ == self.spec_state(),
            self.wf(),
    {
        proof {
            use_type_invariant(self);
        }
        &self.state
    }

    /// Reads the counter with the key.
    pub fn value(&self, key: &[u8]) -> (v: u64)
        requires
            key@.len() > 0,
        ensures
            v == self.spec_value(key@),
    {
        proof {
            use_type_invariant(self);
        }
        let plaintext = self.decrypt(self.state.ciphertext.as_slice(), key);
        u64_from_le_bytes(plaintext.as_slice())
    }

    /// The ciphertext with each byte combined with the key by exclusive or.
    pub fn decrypt(&self, ciphertext: &[u8], key: &[u8]) -> (plaintext: Vec<u8>)
        requires
            key@.len() > 0 || ciphertext@.len() == 0,
        ensures
            plaintext@ == xor_with_key(ciphertext@, key@),
    {
        xor_bytes(ciphertext, key)
    }

    /// Stands for a proof that the counter went from one value to the next:
    /// a placeholder of zero bytes.
    pub fn generate_zk_proof(&self, old_value: u64, new_value: u64) -> (proof_bytes: Vec<u8>)
        ensures
            proof_bytes@ == zero_bytes(ZK_PROOF_SIZE_BYTES as nat),
    {
        let proof_bytes = vec![0u8; ZK_PROOF_SIZE_BYTES];
        assert(proof_bytes@ =~= zero_bytes(ZK_PROOF_SIZE_BYTES as nat));
        proof_bytes
    }

    /// Stands for an enclave attestation: a placeholder of zero bytes.
    pub fn tee_attest(&self) -> (attestation: Vec<u8>)
        ensures
            attestation@ == zero_bytes(ATTESTATION_SIZE_BYTES as nat),
    {
        let attestation = vec![0u8; ATTESTATION_SIZE_BYTES];
        assert(attestation@ =~= zero_bytes(ATTESTATION_SIZE_BYTES as nat));
        attestation
    }

    /// Stands for sharing the state among the parties: one placeholder share
    /// of zero bytes for each of the five parties, whatever the arguments.
    pub fn secret_share_state(&self, key: &[u8], threshold: usize, total: usize) -> (shares: Vec<
        Vec<u8>,
    >)
        ensures
            shares@.len() == MPC_PARTIES,
            forall|i: int|
                0 <= i < shares@.len() ==> (#[trigger] shares@[i])@ == zero_bytes(
                    MPC_SHARE_SIZE_BYTES as nat,
                ),
    {
        let mut shares: Vec<Vec<u8>> = Vec::new();
        let mut party: usize = 0;
        while party < MPC_PARTIES
            invariant
                party <= MPC_PARTIES,
                shares@.len() == party,
                forall|i: int|
                    0 <= i < shares@.len() ==> (#[trigger] shares@[i])@ == zero_bytes(
                        MPC_SHARE_SIZE_BYTES as nat,
                    ),
            decreases MPC_PARTIES - party,
        {
            let share = vec![0u8; MPC_SHARE_SIZE_BYTES];
            assert(share@ =~= zero_bytes(MPC_SHARE_SIZE_BYTES as nat));
            shares.push(share);
            party += 1;
        }
        shares
    }

    /// Stands for reconstructing the result from the parties' shares: a
    /// placeholder of eight zero bytes.
    pub fn reconstruct_from_shares(&self, shares: &[Vec<u8>]) -> (result: Vec<u8>)
        ensures
            result@ == zero_bytes(8),
    {
        let result = vec![0u8; 8];
        assert(result@ =~= zero_bytes(8));
        result
    }

    /// Adds one to the counter under the given execution model and says how
    /// long the steps took.
    ///
    /// Under the client-side and the enclave model the key must not be
    /// empty, and the counter, read with the key, must be below the largest
    /// value. Under the multi-party model the state is left as it is: the
    /// parties compute on placeholder shares.
    pub fn increment(&mut self, model: ExecutionModel, key: &[u8]) -> (r: ExecutionResult)
        requires
            model != ExecutionModel::MPCBased ==> key@.len() > 0 && old(self).spec_value(key@)
                < u64::MAX,
        ensures
            final(self).wf(),
            is_execution_under(model, r),
            model != ExecutionModel::MPCBased ==> {
                &&& final(self).spec_value(key@) == old(self).spec_value(key@) + 1
                &&& final(self).spec_state() == EncryptedState::spec_new(
                    spec_u64_to_le_bytes((old(self).spec_value(key@) + 1) as u64),
                    key@,
                )
            },
            model == ExecutionModel::MPCBased ==> final(self).spec_state() == old(
                self,
            ).spec_state(),
    {
        match model {
            ExecutionModel::ClientSideZK => self.increment_client_zk(key),
            ExecutionModel::TEEBased => self.increment_tee(key),
            ExecutionModel::MPCBased => self.increment_mpc(key),
        }
    }

    /// The client decrypts the counter, adds one, encrypts the new value
    /// and makes a proof of the step.
    pub fn increment_client_zk(&mut self, key: &[u8]) -> (r: ExecutionResult)
        requires
            key@.len() > 0,
            old(self).spec_value(key@) < u64::MAX,
        ensures
            final(self).wf(),
            final(self).spec_value(key@) == old(self).spec_value(key@) + 1,
            final(self).spec_state() == EncryptedState::spec_new(
                spec_u64_to_le_bytes((old(self).spec_value(key@) + 1) as u64),
                key@,
            ),
            is_execution_under(ExecutionModel::ClientSideZK, r),
    {
        proof {
            use_type_invariant(&*self);
        }
        let total = Stopwatch::start();

        let watch = Stopwatch::start();
        let plaintext = self.decrypt(self.state.ciphertext.as_slice(), key);
        let mut value = u64_from_le_bytes(plaintext.as_slice());
        let decrypt_us = watch.elapsed_us();

        let watch = Stopwatch::start();
        value += 1;
        let execute_us = watch.elapsed_us();

        let watch = Stopwatch::start();
        let new_plaintext = u64_to_le_bytes(value);
        let state = EncryptedState::new(new_plaintext.as_slice(), key);
        proof {
            lemma_xor_round_trip(new_plaintext@, key@);
            lemma_auto_spec_u64_to_from_le_bytes();
        }
        self.state = state;
        let encrypt_us = watch.elapsed_us();

        let watch = Stopwatch::start();
        let proof_bytes = self.generate_zk_proof(value - 1, value);
        let proof_us = watch.elapsed_us();

        let total_us = total.elapsed_us();
        ExecutionResult::client_zk(
            decrypt_us,
            execute_us,
            encrypt_us,
            proof_us,
            total_us,
            proof_bytes.len(),
        )
    }

    /// The enclave attests itself, then decrypts the counter, adds one and
    /// encrypts the new value.
    pub fn increment_tee(&mut self, key: &[u8]) -> (r: ExecutionResult)
        requires
            key@.len() > 0,
            old(self).spec_value(key@) < u64::MAX,
        ensures
            final(self).wf(),
            final(self).spec_value(key@) == old(self).spec_value(key@) + 1,
            final(self).spec_state() == EncryptedState::spec_new(
                spec_u64_to_le_bytes((old(self).spec_value(key@) + 1) as u64),
                key@,
            ),
            is_execution_under(ExecutionModel::TEEBased, r),
    {
        proof {
            use_type_invariant(&*self);
        }
        let total = Stopwatch::start();

        let watch = Stopwatch::start();
        let _attestation = self.tee_attest();
        let attest_us = watch.elapsed_us();

        let watch = Stopwatch::start();
        let plaintext = self.decrypt(self.state.ciphertext.as_slice(), key);
        let mut value = u64_from_le_bytes(plaintext.as_slice());
        value += 1;
        let new_plaintext = u64_to_le_bytes(value);
        let state = EncryptedState::new(new_plaintext.as_slice(), key);
        proof {
            lemma_xor_round_trip(new_plaintext@, key@);
            lemma_auto_spec_u64_to_from_le_bytes();
        }
        self.state = state;
        let execute_us = watch.elapsed_us();

        let total_us = total.elapsed_us();
        ExecutionResult::tee(attest_us, execute_us, total_us)
    }

    /// The state is shared among the parties, each party computes on its
    /// share, and the result is reconstructed from what they return.
    ///
    /// The link to each party has a simulated latency, which is added to
    /// the measured time rather than waited for.
    pub fn increment_mpc(&mut self, key: &[u8]) -> (r: ExecutionResult)
        ensures
            final(self).wf(),
            final(self).spec_state() == old(self).spec_state(),
            is_execution_under(ExecutionModel::MPCBased, r),
    {
        proof {
            use_type_invariant(&*self);
        }
        let total = Stopwatch::start();

        let watch = Stopwatch::start();
        let shares = self.secret_share_state(key, 3, MPC_PARTIES);
        let share_us = watch.elapsed_us();

        let watch = Stopwatch::start();
        let mut link_us: u64 = 0;
        let mut computation_results: Vec<Vec<u8>> = Vec::new();
        let mut party: usize = 0;
        while party < shares.len()
            invariant
                party <= shares@.len(),
                shares@.len() == MPC_PARTIES,
                link_us == party * MPC_LINK_LATENCY_US,
                computation_results@.len() == party,
            decreases shares@.len() - party,
        {
            link_us += MPC_LINK_LATENCY_US;
            computation_results.push(shares[party].clone());
            party += 1;
        }
        let compute_us = watch.elapsed_us().saturating_add(link_us);

        let watch = Stopwatch::start();
        let _result = self.reconstruct_from_shares(computation_results.as_slice());
        let reconstruct_us = watch.elapsed_us();

        let total_us = total.elapsed_us().saturating_add(link_us);
        ExecutionResult::mpc(share_us, compute_us, reconstruct_us, total_us)
    }
}

/// The execution models, in the order in which a benchmark runs them.
pub fn execution_models() -> (models: Vec<ExecutionModel>)
    ensures
        models@ == seq![
            ExecutionModel::ClientSideZK,
            ExecutionModel::TEEBased,
            ExecutionModel::MPCBased,
        ],
{
    let mut models = Vec::new();
    models.push(ExecutionModel::ClientSideZK);
    models.push(ExecutionModel::TEEBased);
    models.push(ExecutionModel::MPCBased);
    assert(models@ =~= seq![
        ExecutionModel::ClientSideZK,
        ExecutionModel::TEEBased,
        ExecutionModel::MPCBased,
    ]);
    models
}

/// `at` is the place of the first result whose total time no other result
/// undercuts.
pub open spec fn is_fastest(results: Seq<ExecutionResult>, at: int) -> bool {
    &&& 0 <= at < results.len()
    &&& forall|i: int|
        0 <= i < results.len() ==> results[at].total_time_us <= (
        #[trigger] results[i]).total_time_us
    &&& forall|i: int|
        0 <= i < at ==> results[at].total_time_us < (#[trigger] results[i]).total_time_us
}

/// The place of the result with the least total time, the first of them if
/// there are several; none if there are no results.
pub fn fastest(results: &[ExecutionResult]) -> (r: Option<usize>)
    ensures
        match r {
            Some(at) => is_fastest(results@, at as int),
            None => results@.len() == 0,
        },
{
    if results.len() == 0 {
        return None;
    }
    let mut best: usize = 0;
    let mut i: usize = 1;
    while i < results.len()
        invariant
            1 <= i <= results@.len(),
            is_fastest(results@.take(i as int), best as int),
        decreases results@.len() - i,
    {
        if results[i].total_time_us < results[best].total_time_us {
            best = i;
        }
        proof {
            let before = results@.take(i as int);
            let now = results@.take(i + 1);
            assert forall|j: int| 0 <= j < now.len() implies now[best as int].total_time_us <= (
            #[trigger] now[j]).total_time_us by {
                if j < i {
                    assert(before[j] == now[j]);
                }
            }
            assert forall|j: int| 0 <= j < best implies now[best as int].total_time_us < (
            #[trigger] now[j]).total_time_us by {
                assert(before[j] == now[j]);
            }
        }
        i += 1;
    }
    proof {
        assert(results@.take(i as int) =~= results@);
    }
    Some(best)
}

/// Runs one increment of a fresh counter under each execution model, in the
/// order of `execution_models`, and returns what each measured. The key must
/// not be empty.
pub fn run_execution_benchmark(key: &[u8]) -> (results: Vec<ExecutionResult>)
    requires
        key@.len() > 0,
    ensures
        results@.len() == 3,
        is_execution_under(ExecutionModel::ClientSideZK, results@[0]),
        is_execution_under(ExecutionModel::TEEBased, results@[1]),
        is_execution_under(ExecutionModel::MPCBased, results@[2]),
{
    let models = execution_models();
    let mut results: Vec<ExecutionResult> = Vec::new();
    let mut i: usize = 0;
    while i < models.len()
        invariant
            i <= models@.len(),
            key@.len() > 0,
            models@ == seq![
                ExecutionModel::ClientSideZK,
                ExecutionModel::TEEBased,
                ExecutionModel::MPCBased,
            ],
            results@.len() == i,
            forall|j: int| 0 <= j < i ==> is_execution_under(models@[j], #[trigger] results@[j]),
        decreases models@.len() - i,
    {
        let mut counter = EncryptedCounter::new(0, key);
        let result = counter.increment(models[i], key);
        results.push(result);
        i += 1;
    }
    results
}

} // verus!
