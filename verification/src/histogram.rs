//! The histogram aggregator: samples are bucketed by value, the bucket
//! list growing just far enough to index the largest sample, and each
//! bucket is summarized by its count and a scaled ascii-bar length.

use vstd::prelude::*;

verus! {

/// The number of samples in `s` equal to `v`.
pub open spec fn occurrences(s: Seq<u8>, v: int) -> int
    decreases s.len(),
{
    if s.len() == 0 {
        0
    } else {
        occurrences(s.drop_last(), v) + (if s.last() as int == v {
            1int
        } else {
            0int
        })
    }
}

/// The sum of the occurrence counts of the values 0 through `n - 1`.
spec fn occ_sum(s: Seq<u8>, n: int) -> int
    decreases n,
{
    if n <= 0 {
        0
    } else {
        occ_sum(s, n - 1) + occurrences(s, n - 1)
    }
}

/// The sum of the first `n` bucket counts.
pub open spec fn bucket_sum(b: Seq<u32>, n: int) -> int
    decreases n,
{
    if n <= 0 {
        0
    } else {
        bucket_sum(b, n - 1) + b[n - 1]
    }
}

/// No value occurs more often than there are samples.
proof fn lemma_occurrences_le_len(s: Seq<u8>, v: int)
    ensures
        0 <= occurrences(s, v) <= s.len(),
    decreases s.len(),
{
    if s.len() > 0 {
        lemma_occurrences_le_len(s.drop_last(), v);
    }
}

/// Appending one sample raises exactly that value's occurrence count by one.
proof fn lemma_occurrences_push(s: Seq<u8>, x: u8, v: int)
    ensures
        occurrences(s.push(x), v) == occurrences(s, v) + (if x as int == v {
            1int
        } else {
            0int
        }),
{
    assert(s.push(x).drop_last() =~= s);
}

/// Appending one sample below `n` raises the occurrence sum up to `n` by one.
proof fn lemma_occ_sum_push(s: Seq<u8>, x: u8, n: int)
    ensures
        occ_sum(s.push(x), n) == occ_sum(s, n) + (if (x as int) < n {
            1int
        } else {
            0int
        }),
    decreases n,
{
    if n > 0 {
        lemma_occ_sum_push(s, x, n - 1);
        lemma_occurrences_push(s, x, n - 1);
    }
}

/// With no samples, every occurrence sum is zero.
proof fn lemma_occ_sum_empty(s: Seq<u8>, n: int)
    requires
        s.len() == 0,
    ensures
        occ_sum(s, n) == 0,
    decreases n,
{
    if n > 0 {
        lemma_occ_sum_empty(s, n - 1);
    }
}

/// When every sample lies below `n`, the occurrence counts of the values
/// 0 through `n - 1` sum to the number of samples.
proof fn lemma_occ_sum_covers(s: Seq<u8>, n: int)
    requires
        forall|i: int| 0 <= i < s.len() ==> (s[i] as int) < n,
    ensures
        occ_sum(s, n) == s.len(),
    decreases s.len(),
{
    if s.len() == 0 {
        lemma_occ_sum_empty(s, n);
    } else {
        let s0 = s.drop_last();
        assert(s =~= s0.push(s.last()));
        lemma_occ_sum_covers(s0, n);
        lemma_occ_sum_push(s0, s.last(), n);
    }
}

/// With every bucket holding its value's occurrence count, the bucket sum
/// equals the occurrence sum.
proof fn lemma_bucket_sum_eq_occ_sum(b: Seq<u32>, s: Seq<u8>, n: int)
    requires
        forall|v: int| 0 <= v < n ==> b[v] as int == occurrences(s, v),
    ensures
        bucket_sum(b, n) == occ_sum(s, n),
    decreases n,
{
    if n > 0 {
        lemma_bucket_sum_eq_occ_sum(b, s, n - 1);
    }
}

/// Bucket sums grow with the range summed.
proof fn lemma_bucket_sum_mono(b: Seq<u32>, m: int, n: int)
    requires
        m <= n,
    ensures
        bucket_sum(b, m) <= bucket_sum(b, n),
    decreases n - m,
{
    if m < n {
        lemma_bucket_sum_mono(b, m, n - 1);
    }
}

/// Buckets the samples by value: entry `v` of the result holds how many
/// samples equal `v`. The bucket list is empty when there are no samples
/// and otherwise ends at the largest observed value, whose bucket is
/// positive; its entries sum to the number of samples.
pub fn histo_buckets(samples: &Vec<u8>) -> (r: Vec<u32>)
    requires
        samples@.len() <= u32::MAX,
    ensures
        r@.len() <= 256,
        forall|v: int| 0 <= v < r@.len() ==> r@[v] as int == occurrences(samples@, v),
        forall|v: int| v >= r@.len() ==> occurrences(samples@, v) == 0,
        samples@.len() == 0 ==> r@.len() == 0,
        samples@.len() > 0 ==> r@.len() > 0 && r@[r@.len() - 1] > 0,
        bucket_sum(r@, r@.len() as int) == samples@.len() as int,
{
    let mut buckets: Vec<u32> = Vec::new();
    let ghost mut seen: Seq<u8> = samples@.take(0);
    for i in 0..samples.len()
        invariant
            samples@.len() <= u32::MAX,
            seen == samples@.take(i as int),
            seen.len() == i,
            buckets@.len() <= 256,
            forall|v: int|
                0 <= v < buckets@.len() ==> buckets@[v] as int == #[trigger] occurrences(
                    seen,
                    v,
                ),
            forall|v: int| v >= buckets@.len() ==> #[trigger] occurrences(seen, v) == 0,
            i == 0 ==> buckets@.len() == 0,
            buckets@.len() > 0 ==> buckets@[buckets@.len() - 1] > 0,
            forall|j: int| 0 <= j < seen.len() ==> (seen[j] as int) < buckets@.len(),
    {
        let sample = samples[i];
        let ghost pre = buckets@;
        while buckets.len() <= sample as usize
            invariant
                pre.len() <= buckets@.len() <= 256,
                sample < 256,
                buckets@.len() == pre.len() ==> buckets@ == pre,
                buckets@.len() > pre.len() ==> buckets@.len() <= sample as int + 1,
                forall|v: int|
                    0 <= v < buckets@.len() ==> buckets@[v] as int == #[trigger] occurrences(
                        seen,
                        v,
                    ),
                forall|v: int| v >= buckets@.len() ==> #[trigger] occurrences(seen, v) == 0,
            decreases sample as int + 1 - buckets@.len(),
        {
            buckets.push(0);
        }
        let idx = sample as usize;
        proof {
            lemma_occurrences_le_len(seen, idx as int);
        }
        let cur = buckets[idx];
        buckets.set(idx, cur + 1);
        proof {
            assert forall|v: int|
                #[trigger] occurrences(seen.push(sample), v) == occurrences(seen, v) + (
                if sample as int == v {
                    1int
                } else {
                    0int
                }) by {
                lemma_occurrences_push(seen, sample, v);
            }
            seen = seen.push(sample);
            assert(seen =~= samples@.take(i as int + 1));
        }
    }
    proof {
        assert(seen =~= samples@);
        lemma_occ_sum_covers(seen, buckets@.len() as int);
        lemma_bucket_sum_eq_occ_sum(buckets@, seen, buckets@.len() as int);
    }
    buckets
}

/// Sums the bucket counts: the grand total of bucketed samples.
pub fn histo_total(buckets: &Vec<u32>) -> (r: u32)
    requires
        bucket_sum(buckets@, buckets@.len() as int) <= u32::MAX,
    ensures
        r as int == bucket_sum(buckets@, buckets@.len() as int),
{
    let mut total: u32 = 0;
    for i in 0..buckets.len()
        invariant
            total as int == bucket_sum(buckets@, i as int),
            bucket_sum(buckets@, buckets@.len() as int) <= u32::MAX,
    {
        proof {
            lemma_bucket_sum_mono(buckets@, i as int + 1, buckets@.len() as int);
        }
        total = total + buckets[i];
    }
    total
}

/// The length of the ascii bar for one bucket: one symbol per
/// `counts_per_symbol` occurrences, rounded down.
pub fn bar_len(count: u32, counts_per_symbol: u32) -> (r: u32)
    requires
        counts_per_symbol > 0,
    ensures
        r == count / counts_per_symbol,
{
    count / counts_per_symbol
}

} // verus!
