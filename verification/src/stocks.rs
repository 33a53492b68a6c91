//! Market-data aggregates over integer fields.
use vstd::prelude::*;

verus! {

/// Sum of the first `n` volumes.
pub open spec fn volume_sum(volumes: Seq<u64>, n: int) -> int
    decreases n,
{
    if n <= 0 {
        0
    } else {
        volume_sum(volumes, n - 1) + volumes[n - 1]
    }
}

proof fn lemma_volume_sum_bounded(volumes: Seq<u64>, n: int)
    requires
        0 <= n <= volumes.len(),
    ensures
        0 <= volume_sum(volumes, n) <= n * u64::MAX,
    decreases n,
{
    if n > 0 {
        lemma_volume_sum_bounded(volumes, n - 1);
    }
}

/// Total trading volume; the average volume is this total over the number
/// of records. Computed in 128 bits, so no total of `u64` volumes
/// overflows.
pub fn total_volume(volumes: &[u64]) -> (r: u128)
    ensures
        r == volume_sum(volumes@, volumes@.len() as int),
        r == volumes@.fold_left(0int, |acc: int, v: u64| acc + v),
{
    let mut total: u128 = 0;
    let mut i: usize = 0;
    while i < volumes.len()
        invariant
            i <= volumes@.len(),
            total == volume_sum(volumes@, i as int),
        decreases volumes@.len() - i,
    {
        proof {
            lemma_volume_sum_bounded(volumes@, i as int);
            assert(i * u64::MAX + u64::MAX <= u128::MAX) by (nonlinear_arith)
                requires
                    i <= usize::MAX,
            ;
        }
        total = total + volumes[i] as u128;
        i = i + 1;
    }
    proof {
        lemma_volume_sum_fold(volumes@, volumes@.len() as int);
        assert(volumes@.subrange(0, volumes@.len() as int) =~= volumes@);
    }
    total
}

proof fn lemma_volume_sum_fold(volumes: Seq<u64>, n: int)
    requires
        0 <= n <= volumes.len(),
    ensures
        volume_sum(volumes, n) == volumes.subrange(0, n).fold_left(0int, |acc: int, v: u64| acc + v),
    decreases n,
{
    if n > 0 {
        lemma_volume_sum_fold(volumes, n - 1);
        let sub = volumes.subrange(0, n);
        assert(sub.drop_last() =~= volumes.subrange(0, n - 1));
    }
}

} // verus!
