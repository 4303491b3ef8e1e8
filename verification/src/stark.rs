//! Harness for the generation of STARK proofs for transactions of varying complexity.

use vstd::prelude::*;
use vstd::arithmetic::power2::{
    lemma2_to64, lemma2_to64_rest, lemma_pow2_pos, lemma_pow2_strictly_increases,
    lemma_pow2_unfold, pow2,
};
use winterfell::{FieldExtension, ProofOptions};
use crate::clock::Stopwatch;

verus! {

/// The latency, in milliseconds, that the generation of a proof must stay
/// under.
pub const PROOF_TARGET_MS: u64 = 2000;

/// Size in bytes of the placeholder that stands for a STARK proof.
pub const STARK_PROOF_SIZE_BYTES: usize = 30_000;

/// Number of columns of an execution trace.
pub const TRACE_WIDTH: usize = 4;

/// The modulus of the 128-bit proof field: `2^128 - 45 * 2^40 + 1`.
pub const FIELD_MODULUS: u128 = 340282366920938463463374557953744961537;

/// How much work a transaction asks of the prover.
#[derive(Debug, Clone, Copy, PartialEq, Eq, Structural)]
pub struct TxComplexity {
    pub num_inputs: usize,
    pub num_outputs: usize,
    pub has_contract_call: bool,
    pub encrypted_state_ops: usize,
}

/// `r` is the least power of two that is at least `n`.
pub open spec fn is_next_power_of_two(n: int, r: int) -> bool {
    &&& exists|e: nat| r == #[trigger] pow2(e)
    &&& n <= r
    &&& forall|f: nat| n <= #[trigger] pow2(f) ==> r <= pow2(f)
}

/// A number has one least power of two above or at it.
pub proof fn lemma_next_power_of_two_is_unique(n: int, a: int, b: int)
    requires
        is_next_power_of_two(n, a),
        is_next_power_of_two(n, b),
    ensures
        a == b,
{
    let ea = choose|e: nat| a == #[trigger] pow2(e);
    let eb = choose|e: nat| b == #[trigger] pow2(e);
    assert(n <= pow2(ea));
    assert(n <= pow2(eb));
}

/// Of two powers of two, the larger is at least twice the smaller.
proof fn lemma_pow2_gap(e: nat, f: nat)
    requires
        pow2(e) < pow2(f),
    ensures
        2 * pow2(e) <= pow2(f),
{
    if f <= e {
        if f < e {
            lemma_pow2_strictly_increases(f, e);
        }
    } else {
        lemma_pow2_unfold(e + 1);
        if e + 1 < f {
            lemma_pow2_strictly_increases(e + 1, f);
        }
    }
}

impl TxComplexity {
    /// The number of operations that the transaction takes: 100 for the
    /// transaction itself, 50 for each input, 30 for each output, and for a
    /// contract call 200 and 20 more for each operation on encrypted state.
    pub open spec fn spec_operation_count(&self) -> int {
        100 + self.num_inputs * 50 + self.num_outputs * 30 + if self.has_contract_call {
            200 + self.encrypted_state_ops * 20
        } else {
            0
        }
    }

    /// The least power of two at or above the operation count can be held.
    pub open spec fn spec_fits(&self) -> bool {
        self.spec_operation_count() <= usize::MAX / 2 + 1
    }

    /// A transfer with one input and two outputs.
    pub fn simple_transfer() -> (c: TxComplexity)
        ensures
            c == (TxComplexity {
                num_inputs: 1,
                num_outputs: 2,
                has_contract_call: false,
                encrypted_state_ops: 0,
            }),
            c.spec_fits(),
    {
        TxComplexity {
            num_inputs: 1,
            num_outputs: 2,
            has_contract_call: false,
            encrypted_state_ops: 0,
        }
    }

    /// A contract call with three inputs, five outputs and ten operations on
    /// encrypted state.
    pub fn complex_defi() -> (c: TxComplexity)
        ensures
            c == (TxComplexity {
                num_inputs: 3,
                num_outputs: 5,
                has_contract_call: true,
                encrypted_state_ops: 10,
            }),
            c.spec_fits(),
    {
        TxComplexity {
            num_inputs: 3,
            num_outputs: 5,
            has_contract_call: true,
            encrypted_state_ops: 10,
        }
    }

    /// The heaviest transaction that the benchmark runs: a contract call
    /// with five inputs, ten outputs and fifty operations on encrypted
    /// state.
    pub fn max_complexity() -> (c: TxComplexity)
        ensures
            c == (TxComplexity {
                num_inputs: 5,
                num_outputs: 10,
                has_contract_call: true,
                encrypted_state_ops: 50,
            }),
            c.spec_fits(),
    {
        TxComplexity {
            num_inputs: 5,
            num_outputs: 10,
            has_contract_call: true,
            encrypted_state_ops: 50,
        }
    }

    /// Whether `trace_length` can be computed for this transaction.
    #[verifier::when_used_as_spec(spec_fits)]
    pub fn fits(&self) -> (r: bool)
        ensures
            r == self.spec_fits(),
    {
        let limit: u128 = (usize::MAX / 2) as u128 + 1;
        let count: u128 = 100 + (self.num_inputs as u128) * 50 + (self.num_outputs as u128) * 30
            + if self.has_contract_call {
            200 + (self.encrypted_state_ops as u128) * 20
        } else {
            0
        };
        count <= limit
    }

    /// The length of the execution trace: the operation count, rounded up
    /// to a power of two.
    pub fn trace_length(&self) -> (length: usize)
        requires
            self.spec_fits(),
        ensures
            is_next_power_of_two(self.spec_operation_count(), length as int),
    {
        let mut ops: usize = 100;
        ops += self.num_inputs * 50;
        ops += self.num_outputs * 30;
        if self.has_contract_call {
            ops += 200 + (self.encrypted_state_ops * 20);
        }
        let mut length: usize = 1;
        let ghost mut e: nat = 0;
        proof {
            lemma2_to64();
            lemma2_to64_rest();
            assert forall|f: nat| 1 <= #[trigger] pow2(f) by {
                lemma_pow2_pos(f);
            }
        }
        while length < ops
            invariant
                ops <= usize::MAX / 2 + 1,
                length >= 1,
                length == pow2(e),
                forall|f: nat| ops <= #[trigger] pow2(f) ==> length <= pow2(f),
                usize::MAX / 2 + 1 == pow2(31) || usize::MAX / 2 + 1 == pow2(63),
            decreases usize::MAX - length,
        {
            proof {
                if usize::MAX / 2 + 1 == pow2(31) {
                    lemma_pow2_gap(e, 31);
                } else {
                    lemma_pow2_gap(e, 63);
                }
                lemma_pow2_unfold(e + 1);
                assert forall|f: nat| ops <= #[trigger] pow2(f) implies 2 * length <= pow2(f) by {
                    lemma_pow2_gap(e, f);
                }
                e = e + 1;
            }
            length = length * 2;
        }
        length
    }
}

/// Degree of the field extension in which proofs are composed.
#[derive(Debug, Clone, Copy, PartialEq, Eq, Structural)]
pub enum ExtensionDegree {
    /// Proofs are composed in the base field.
    Base,
    Quadratic,
    Cubic,
}

/// `winterfell::ProofOptions`: the parameters of a STARK proof. Nothing is
/// known of what it holds.
#[verifier::external_type_specification]
#[verifier::external_body]
pub struct ExProofOptions(ProofOptions);

/// `n` is one of the given values.
pub open spec fn is_one_of(n: usize, values: Seq<usize>) -> bool {
    values.contains(n)
}

/// The parameters are ones that the prover accepts: between 1 and 128
/// queries, a blowup factor that is a power of two from 2 to 128, a grinding
/// factor of at most 32, a folding factor of 4, 8 or 16, and a remainder
/// size that is a power of two from 32 to 1024.
pub open spec fn valid_proof_parameters(
    num_queries: usize,
    blowup_factor: usize,
    grinding_factor: u32,
    fri_folding_factor: usize,
    fri_max_remainder_size: usize,
) -> bool {
    &&& 1 <= num_queries <= 128
    &&& is_one_of(blowup_factor, seq![2, 4, 8, 16, 32, 64, 128])
    &&& grinding_factor <= 32
    &&& is_one_of(fri_folding_factor, seq![4, 8, 16])
    &&& is_one_of(fri_max_remainder_size, seq![32, 64, 128, 256, 512, 1024])
}

/// Calls `winterfell::ProofOptions::new`.
///
/// Trusted: the call returns. It panics unless the number of queries is
/// between 1 and 128, the blowup factor is a power of two between 2 and 128,
/// the grinding factor is at most 32, the folding factor is 4, 8 or 16, and
/// the remainder size is a power of two between 32 and 1024; `requires`
/// leaves those arguments out.
#[verifier::external_body]
fn proof_options(
    num_queries: usize,
    blowup_factor: usize,
    grinding_factor: u32,
    extension: ExtensionDegree,
    fri_folding_factor: usize,
    fri_max_remainder_size: usize,
) -> ProofOptions
    requires
        valid_proof_parameters(
            num_queries,
            blowup_factor,
            grinding_factor,
            fri_folding_factor,
            fri_max_remainder_size,
        ),
{
    let field_extension = match extension {
        ExtensionDegree::Base => FieldExtension::None,
        ExtensionDegree::Quadratic => FieldExtension::Quadratic,
        ExtensionDegree::Cubic => FieldExtension::Cubic,
    };
    ProofOptions::new(
        num_queries,
        blowup_factor,
        grinding_factor,
        field_extension,
        fri_folding_factor,
        fri_max_remainder_size,
    )
}

/// The canonical representative of a 128-bit value in the proof field: the
/// value itself if it is below the modulus, else the value less the modulus.
pub open spec fn field_canonical(value: u128) -> u128 {
    if value < FIELD_MODULUS {
        value
    } else {
        (value - FIELD_MODULUS) as u128
    }
}

/// Brings a value into the proof field: a value at or above the modulus
/// has the modulus taken off once, which is all that 128 bits can need.
pub fn field_value(value: u128) -> (canonical: u128)
    ensures
        canonical == field_canonical(value),
        canonical < FIELD_MODULUS,
{
    if value < FIELD_MODULUS {
        value
    } else {
        value - FIELD_MODULUS
    }
}

/// The cell of the execution trace in the given column and row, for a
/// transaction with `state_ops` operations on encrypted state: the row
/// number in the first column, 31 and 37 times the row number in the second
/// and third, and in the fourth 41 times the row number in the rows that
/// hold an operation on encrypted state, zero in the others.
pub open spec fn trace_cell(column: int, row: int, state_ops: int) -> int {
    if column == 0 {
        row
    } else if column == 1 {
        row * 31
    } else if column == 2 {
        row * 37
    } else if row < state_ops {
        row * 41
    } else {
        0
    }
}

/// `trace` is the execution trace of the given length.
pub open spec fn is_trace(trace: Seq<Vec<u128>>, length: int, state_ops: int) -> bool {
    &&& trace.len() == TRACE_WIDTH
    &&& forall|c: int| 0 <= c < trace.len() ==> (#[trigger] trace[c])@.len() == length
    &&& forall|c: int, row: int|
        0 <= c < trace.len() && 0 <= row < length ==> #[trigger] trace[c]@[row] == trace_cell(
            c,
            row,
            state_ops,
        )
}

/// What one proof benchmark measured.
#[derive(Debug, Clone, Copy, PartialEq, Eq, Structural)]
pub struct BenchmarkResults {
    pub complexity: TxComplexity,
    pub trace_length: usize,
    pub trace_generation_ms: u64,
    pub proof_generation_ms: u64,
    pub verification_ms: u64,
    pub proof_size_bytes: usize,
    pub is_valid: bool,
}

impl BenchmarkResults {
    /// The proof was generated in under two seconds.
    pub open spec fn spec_meets_target(&self) -> bool {
        self.proof_generation_ms < PROOF_TARGET_MS
    }

    #[verifier::when_used_as_spec(spec_meets_target)]
    pub fn meets_target(&self) -> (r: bool)
        ensures
            r == self.spec_meets_target(),
            r == (self.proof_generation_ms < 2000),
    {
        self.proof_generation_ms < PROOF_TARGET_MS
    }

    /// Puts a result together from what was measured.
    pub fn assemble(
        complexity: TxComplexity,
        trace_length: usize,
        trace_generation_ms: u64,
        proof_generation_ms: u64,
        verification_ms: u64,
        proof_size_bytes: usize,
        is_valid: bool,
    ) -> (r: BenchmarkResults)
        ensures
            r == (BenchmarkResults {
                complexity,
                trace_length,
                trace_generation_ms,
                proof_generation_ms,
                verification_ms,
                proof_size_bytes,
                is_valid,
            }),
    {
        BenchmarkResults {
            complexity,
            trace_length,
            trace_generation_ms,
            proof_generation_ms,
            verification_ms,
            proof_size_bytes,
            is_valid,
        }
    }
}

/// Measures the generation of a STARK proof for a transaction of a given
/// complexity.
pub struct StarkBenchmark {
    complexity: TxComplexity,
    proof_options: ProofOptions,
}

impl StarkBenchmark {
    pub closed spec fn spec_complexity(&self) -> TxComplexity {
        self.complexity
    }

    /// A benchmark with 32 queries, a blowup factor of 8, no grinding, no
    /// field extension, a folding factor of 4 and a remainder of at most 128
    /// elements.
    pub fn new(complexity: TxComplexity) -> (benchmark: StarkBenchmark)
        ensures
            benchmark.spec_complexity() == complexity,
    {
        proof {
            assert(seq![2usize, 4, 8, 16, 32, 64, 128][2] == 8);
            assert(seq![4usize, 8, 16][0] == 4);
            assert(seq![32usize, 64, 128, 256, 512, 1024][2] == 128);
        }
        let proof_options = proof_options(32, 8, 0, ExtensionDegree::Base, 4, 128);
        StarkBenchmark { complexity, proof_options }
    }

    pub fn complexity(&self) -> (c: TxComplexity)
        ensures
            c == self.spec_complexity(),
    {
        self.complexity
    }

    /// Generates the trace, the proof and the verdict on the proof, and says
    /// how long each took.
    pub fn run(&self) -> (r: BenchmarkResults)
        requires
            self.spec_complexity().spec_fits(),
        ensures
            is_run_of(self.spec_complexity(), r),
    {
        let trace_length = self.complexity.trace_length();

        let watch = Stopwatch::start();
        let trace = self.generate_trace(trace_length);
        let trace_generation_ms = watch.elapsed_ms();

        let watch = Stopwatch::start();
        let proof_bytes = self.generate_proof(trace);
        let proof_generation_ms = watch.elapsed_ms();

        let watch = Stopwatch::start();
        let is_valid = self.verify_proof(proof_bytes.as_slice());
        let verification_ms = watch.elapsed_ms();

        BenchmarkResults::assemble(
            self.complexity,
            trace_length,
            trace_generation_ms,
            proof_generation_ms,
            verification_ms,
            proof_bytes.len(),
            is_valid,
        )
    }

    /// The execution trace of the given length, as canonical values of the
    /// proof field, one vector for each column.
    pub fn generate_trace(&self, length: usize) -> (trace: Vec<Vec<u128>>)
        ensures
            is_trace(trace@, length as int, self.spec_complexity().encrypted_state_ops as int),
    {
        let state_ops = self.complexity.encrypted_state_ops;
        let mut trace: Vec<Vec<u128>> = Vec::new();
        let mut column: usize = 0;
        while column < TRACE_WIDTH
            invariant
                column <= TRACE_WIDTH,
                trace@.len() == column,
                forall|c: int| 0 <= c < trace@.len() ==> (#[trigger] trace@[c])@.len() == length,
                forall|c: int, row: int|
                    0 <= c < trace@.len() && 0 <= row < length ==> #[trigger] trace@[c]@[row]
                        == trace_cell(c, row, state_ops as int),
            decreases TRACE_WIDTH - column,
        {
            let mut cells: Vec<u128> = Vec::new();
            let mut row: usize = 0;
            while row < length
                invariant
                    row <= length,
                    column < TRACE_WIDTH,
                    cells@.len() == row,
                    forall|k: int|
                        0 <= k < row ==> #[trigger] cells@[k] == trace_cell(
                            column as int,
                            k,
                            state_ops as int,
                        ),
                decreases length - row,
            {
                let plain: u128 = if column == 0 {
                    row as u128
                } else if column == 1 {
                    (row as u128) * 31
                } else if column == 2 {
                    (row as u128) * 37
                } else if row < state_ops {
                    (row as u128) * 41
                } else {
                    0
                };
                cells.push(field_value(plain));
                row += 1;
            }
            trace.push(cells);
            column += 1;
        }
        trace
    }

    /// Stands for the generation of the proof from the trace: a placeholder
    /// of zero bytes.
    pub fn generate_proof(&self, trace: Vec<Vec<u128>>) -> (proof_bytes: Vec<u8>)
        ensures
            proof_bytes@ == Seq::new(STARK_PROOF_SIZE_BYTES as nat, |i: int| 0u8),
    {
        let proof_bytes = vec![0u8; STARK_PROOF_SIZE_BYTES];
        assert(proof_bytes@ =~= Seq::new(STARK_PROOF_SIZE_BYTES as nat, |i: int| 0u8));
        proof_bytes
    }

    /// Stands for the verification of the proof: every proof is accepted.
    pub fn verify_proof(&self, proof_bytes: &[u8]) -> (valid: bool)
        ensures
            valid,
    {
        true
    }
}

/// The transactions that the full suite runs, lightest first: a simple
/// transfer, a contract call, and the heaviest contract call.
pub open spec fn spec_scenarios() -> Seq<TxComplexity> {
    seq![
        TxComplexity {
            num_inputs: 1,
            num_outputs: 2,
            has_contract_call: false,
            encrypted_state_ops: 0,
        },
        TxComplexity {
            num_inputs: 3,
            num_outputs: 5,
            has_contract_call: true,
            encrypted_state_ops: 10,
        },
        TxComplexity {
            num_inputs: 5,
            num_outputs: 10,
            has_contract_call: true,
            encrypted_state_ops: 50,
        },
    ]
}

/// The transactions that the full suite runs, lightest first.
pub fn scenarios() -> (list: Vec<TxComplexity>)
    ensures
        list@ == spec_scenarios(),
        forall|i: int| 0 <= i < list@.len() ==> (#[trigger] list@[i]).spec_fits(),
{
    let mut list = Vec::new();
    list.push(TxComplexity::simple_transfer());
    list.push(TxComplexity::complex_defi());
    list.push(TxComplexity::max_complexity());
    assert(list@ =~= spec_scenarios());
    list
}

/// What the full suite found.
#[derive(Debug, Clone)]
pub struct SuiteSummary {
    /// One result for each scenario, in the order of `scenarios`.
    pub results: Vec<BenchmarkResults>,
    /// Every scenario met the target.
    pub all_pass: bool,
}

/// Whether every result met the target.
pub fn all_meet_target(results: &[BenchmarkResults]) -> (r: bool)
    ensures
        r == forall|i: int|
            0 <= i < results@.len() ==> (#[trigger] results@[i]).spec_meets_target(),
{
    let mut i: usize = 0;
    while i < results.len()
        invariant
            i <= results@.len(),
            forall|j: int| 0 <= j < i ==> (#[trigger] results@[j]).spec_meets_target(),
        decreases results@.len() - i,
    {
        if !results[i].meets_target() {
            return false;
        }
        i += 1;
    }
    true
}

/// What holds of the result of a benchmark run for the given transaction,
/// whatever the clock read.
pub open spec fn is_run_of(complexity: TxComplexity, r: BenchmarkResults) -> bool {
    &&& r.complexity == complexity
    &&& is_next_power_of_two(complexity.spec_operation_count(), r.trace_length as int)
    &&& r.proof_size_bytes == STARK_PROOF_SIZE_BYTES
    &&& r.is_valid
}

/// Runs the benchmark on every scenario and says whether all of them met
/// the target.
pub fn run_full_benchmark_suite() -> (summary: SuiteSummary)
    ensures
        summary.results@.len() == spec_scenarios().len(),
        forall|i: int|
            0 <= i < summary.results@.len() ==> is_run_of(
                spec_scenarios()[i],
                #[trigger] summary.results@[i],
            ),
        summary.all_pass == forall|i: int|
            0 <= i < summary.results@.len() ==> (
            #[trigger] summary.results@[i]).spec_meets_target(),
{
    let list = scenarios();
    let mut results: Vec<BenchmarkResults> = Vec::new();
    let mut i: usize = 0;
    while i < list.len()
        invariant
            i <= list@.len(),
            list@ == spec_scenarios(),
            forall|j: int| 0 <= j < list@.len() ==> (#[trigger] list@[j]).spec_fits(),
            results@.len() == i,
            forall|j: int| 0 <= j < i ==> is_run_of(list@[j], #[trigger] results@[j]),
        decreases list@.len() - i,
    {
        let benchmark = StarkBenchmark::new(list[i]);
        let result = benchmark.run();
        results.push(result);
        i += 1;
    }
    let all_pass = all_meet_target(results.as_slice());
    SuiteSummary { results, all_pass }
}

} // verus!
