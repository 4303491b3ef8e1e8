//! Percentile, minimum, maximum and mean of latency samples.

use vstd::prelude::*;
use crate::error::QuorumError;
use crate::order::{lemma_ranked, rank_order, ranked, sort_ranked};

verus! {

/// Index into the sorted samples at which a percentile is read:
/// `floor(len * percent / 100)`, held to the last index.
pub open spec fn percentile_index(len: nat, percent: nat) -> int {
    let raw = (len * percent) / 100;
    if raw >= len {
        len - 1
    } else {
        raw as int
    }
}

/// The percentile of the samples, or `EmptyInput` when there are none.
pub open spec fn spec_percentile(samples: Seq<u64>, percent: u8) -> Result<u64, QuorumError> {
    if samples.len() == 0 {
        Err(QuorumError::EmptyInput)
    } else {
        Ok(ranked(samples)[percentile_index(samples.len(), percent as nat)])
    }
}

/// `m` occurs among the samples and none is smaller.
pub open spec fn is_minimum(samples: Seq<u64>, m: u64) -> bool {
    &&& samples.contains(m)
    &&& forall|i: int| 0 <= i < samples.len() ==> m <= #[trigger] samples[i]
}

/// `m` occurs among the samples and none is larger.
pub open spec fn is_maximum(samples: Seq<u64>, m: u64) -> bool {
    &&& samples.contains(m)
    &&& forall|i: int| 0 <= i < samples.len() ==> #[trigger] samples[i] <= m
}

/// The sum of the samples.
pub open spec fn total(samples: Seq<u64>) -> int
    decreases samples.len(),
{
    if samples.len() == 0 {
        0
    } else {
        total(samples.drop_last()) + samples.last()
    }
}

/// The mean of the samples, rounded down, or `EmptyInput` when there are none.
pub open spec fn spec_mean(samples: Seq<u64>) -> Result<u64, QuorumError> {
    if samples.len() == 0 {
        Err(QuorumError::EmptyInput)
    } else {
        Ok((total(samples) / (samples.len() as int)) as u64)
    }
}

/// The sum of `n` samples lies between `n` times a lower bound and `n` times
/// an upper bound of the samples.
pub proof fn lemma_total_bounds(samples: Seq<u64>, lo: int, hi: int)
    requires
        forall|i: int| 0 <= i < samples.len() ==> lo <= #[trigger] samples[i] <= hi,
    ensures
        samples.len() * lo <= total(samples) <= samples.len() * hi,
    decreases samples.len(),
{
    if samples.len() > 0 {
        let rest = samples.drop_last();
        assert forall|i: int| 0 <= i < rest.len() implies lo <= #[trigger] rest[i] <= hi by {
            assert(rest[i] == samples[i]);
        }
        lemma_total_bounds(rest, lo, hi);
        assert(samples.len() * lo == rest.len() * lo + lo) by (nonlinear_arith)
            requires
                samples.len() == rest.len() + 1,
        ;
        assert(samples.len() * hi == rest.len() * hi + hi) by (nonlinear_arith)
            requires
                samples.len() == rest.len() + 1,
        ;
    }
}

/// The mean lies between the smallest and the largest sample.
pub proof fn lemma_mean_between_extremes(samples: Seq<u64>, lo: u64, hi: u64)
    requires
        is_minimum(samples, lo),
        is_maximum(samples, hi),
    ensures
        spec_mean(samples) is Ok,
        lo <= spec_mean(samples)->Ok_0 <= hi,
        spec_mean(samples)->Ok_0 == total(samples) / (samples.len() as int),
{
    let n = samples.len() as int;
    lemma_total_bounds(samples, lo as int, hi as int);
    let t = total(samples);
    assert(lo <= t / n <= hi) by (nonlinear_arith)
        requires
            n > 0,
            n * lo <= t <= n * hi,
    ;
}

/// A percentile is one of the samples: the one at `percentile_index` once
/// they are in nondecreasing order.
pub proof fn lemma_percentile_is_sample(samples: Seq<u64>, percent: u8)
    requires
        samples.len() > 0,
    ensures
        spec_percentile(samples, percent) is Ok,
        samples.contains(spec_percentile(samples, percent)->Ok_0),
        0 <= percentile_index(samples.len(), percent as nat) < samples.len(),
{
    lemma_ranked(samples);
    let sorted = ranked(samples);
    let at = percentile_index(samples.len(), percent as nat);
    assert(sorted.contains(sorted[at]));
}

/// Of a single sample every percentile is that sample.
pub proof fn lemma_percentile_of_one(sample: u64, percent: u8)
    ensures
        spec_percentile(seq![sample], percent) == Ok::<u64, QuorumError>(sample),
{
    lemma_percentile_is_sample(seq![sample], percent);
}

/// The percentiles 0 and 100 are the smallest and the largest sample, and a
/// higher percentile is never a smaller value.
pub proof fn lemma_percentile_monotone(samples: Seq<u64>, low: u8, high: u8)
    requires
        samples.len() > 0,
        low <= high,
    ensures
        spec_percentile(samples, low)->Ok_0 <= spec_percentile(samples, high)->Ok_0,
        is_minimum(samples, spec_percentile(samples, 0)->Ok_0),
        is_maximum(samples, spec_percentile(samples, 100)->Ok_0),
{
    lemma_ranked(samples);
    let sorted = ranked(samples);
    let n = samples.len();
    let a = percentile_index(n, low as nat);
    let b = percentile_index(n, high as nat);
    assert((n * (low as nat)) / 100 <= (n * (high as nat)) / 100) by (nonlinear_arith)
        requires
            low <= high,
    ;
    assert(a <= b);
    if a < b {
        assert(rank_order::<u64>()(sorted[a], sorted[b]));
    }
    assert(percentile_index(n, 0) == 0);
    assert((n * 100) / 100 == n) by (nonlinear_arith);
    assert(percentile_index(n, 100) == n - 1);
    assert(sorted.contains(sorted[0]));
    assert(sorted.contains(sorted[n - 1]));
    assert forall|i: int| 0 <= i < n implies sorted[0] <= #[trigger] samples[i] <= sorted[n
        - 1] by {
        assert(samples.contains(samples[i]));
        assert(sorted.contains(samples[i]));
        let j = choose|j: int| 0 <= j < sorted.len() && sorted[j] == samples[i];
        if 0 < j {
            assert(rank_order::<u64>()(sorted[0], sorted[j]));
        }
        if j < n - 1 {
            assert(rank_order::<u64>()(sorted[j], sorted[n - 1]));
        }
    }
}

/// The value below which `percent` percent of the samples fall: the samples
/// are put in nondecreasing order and the one at index
/// `floor(len * percent / 100)` is returned, the last one if that index is
/// past the end.
pub fn percentile(samples: &[u64], percent: u8) -> (r: Result<u64, QuorumError>)
    ensures
        r == spec_percentile(samples@, percent),
        r is Err <==> samples@.len() == 0,
{
    let len = samples.len();
    if len == 0 {
        return Err(QuorumError::EmptyInput);
    }
    let sorted = sort_ranked(samples);
    proof {
        lemma_ranked(samples@);
    }
    assert(len * percent <= usize::MAX * 255) by (nonlinear_arith)
        requires
            len <= usize::MAX,
            percent <= 255,
    ;
    let raw: u128 = (len as u128) * (percent as u128) / 100;
    let at: usize = if raw >= len as u128 {
        len - 1
    } else {
        raw as usize
    };
    Ok(sorted[at])
}

/// The smallest sample.
pub fn min(samples: &[u64]) -> (r: Result<u64, QuorumError>)
    ensures
        match r {
            Ok(m) => is_minimum(samples@, m),
            Err(e) => e == QuorumError::EmptyInput && samples@.len() == 0,
        },
{
    if samples.len() == 0 {
        return Err(QuorumError::EmptyInput);
    }
    let mut least = samples[0];
    let mut i: usize = 1;
    while i < samples.len()
        invariant
            1 <= i <= samples.len(),
            exists|k: int| 0 <= k < i && samples@[k] == least,
            forall|k: int| 0 <= k < i ==> least <= #[trigger] samples@[k],
        decreases samples.len() - i,
    {
        if samples[i] < least {
            least = samples[i];
        }
        i += 1;
    }
    Ok(least)
}

/// The largest sample.
pub fn max(samples: &[u64]) -> (r: Result<u64, QuorumError>)
    ensures
        match r {
            Ok(m) => is_maximum(samples@, m),
            Err(e) => e == QuorumError::EmptyInput && samples@.len() == 0,
        },
{
    if samples.len() == 0 {
        return Err(QuorumError::EmptyInput);
    }
    let mut greatest = samples[0];
    let mut i: usize = 1;
    while i < samples.len()
        invariant
            1 <= i <= samples.len(),
            exists|k: int| 0 <= k < i && samples@[k] == greatest,
            forall|k: int| 0 <= k < i ==> #[trigger] samples@[k] <= greatest,
        decreases samples.len() - i,
    {
        if samples[i] > greatest {
            greatest = samples[i];
        }
        i += 1;
    }
    Ok(greatest)
}

/// The mean of the samples, rounded down.
pub fn mean(samples: &[u64]) -> (r: Result<u64, QuorumError>)
    ensures
        r == spec_mean(samples@),
        r is Err <==> samples@.len() == 0,
{
    let len = samples.len();
    if len == 0 {
        return Err(QuorumError::EmptyInput);
    }
    let mut sum: u128 = 0;
    let mut i: usize = 0;
    proof {
        assert(samples@.take(0) =~= Seq::<u64>::empty());
    }
    while i < len
        invariant
            i <= len,
            len == samples@.len(),
            sum == total(samples@.take(i as int)),
            sum <= i * u64::MAX,
        decreases len - i,
    {
        proof {
            assert(samples@.take(i + 1).drop_last() =~= samples@.take(i as int));
        }
        sum = sum + samples[i] as u128;
        i += 1;
    }
    proof {
        assert(samples@.take(len as int) =~= samples@);
        let t = sum as int;
        let n = len as int;
        assert(0 <= t / n <= u64::MAX) by (nonlinear_arith)
            requires
                n > 0,
                0 <= t <= n * u64::MAX,
        ;
    }
    Ok((sum / (len as u128)) as u64)
}

} // verus!
