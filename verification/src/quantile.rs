//! Latency quantiles of a histogram, in integer arithmetic.
//!
//! The rank of a quantile is the ceiling of the total times the quantile, both
//! taken as IEEE-754 doubles and multiplied with one rounding. A double holds 53
//! significant bits, so each rounding is a rounding of an integer to its 53
//! leading bits, to the nearest and on a tie to the even neighbour.
use vstd::prelude::*;
use crate::contracts::LatencyBucket;

verus! {

/// 2^53: the first integer with more significant bits than a double has.
pub const DOUBLE_LIMIT: u128 = 9_007_199_254_740_992;

/// The weight of the last significant bit of the double nearest to `n`.
pub open spec fn last_bit(n: nat) -> nat
    decreases n,
{
    if n < DOUBLE_LIMIT {
        1
    } else {
        2 * last_bit(n / 2)
    }
}

/// The integer of 53 significant bits that is nearest to `n`; of two equally near
/// ones, the even one.
pub open spec fn nearest_double(n: nat) -> nat {
    let unit = last_bit(n);
    let whole = n / unit;
    let rest = n % unit;
    if 2 * rest > unit || (2 * rest == unit && whole % 2 == 1) {
        (whole + 1) * unit
    } else {
        whole * unit
    }
}

proof fn lemma_last_bit_bound(n: nat)
    ensures
        1 <= last_bit(n),
        n >= 1 ==> last_bit(n) <= n,
    decreases n,
{
    if n >= DOUBLE_LIMIT {
        lemma_last_bit_bound(n / 2);
    }
}

fn compute_last_bit(n: u128) -> (unit: u128)
    requires
        n >= 1,
    ensures
        unit == last_bit(n as nat),
    decreases n,
{
    proof {
        lemma_last_bit_bound(n as nat);
        if n >= DOUBLE_LIMIT {
            lemma_last_bit_bound((n / 2) as nat);
        }
    }
    if n < DOUBLE_LIMIT {
        1
    } else {
        2 * compute_last_bit(n / 2)
    }
}

/// The nearest integer of 53 significant bits.
pub fn round_to_double(n: u128) -> (r: u128)
    requires
        1 <= n <= 0x3fff_ffff_ffff_ffff_ffff_ffff_ffff_ffff,
    ensures
        r == nearest_double(n as nat),
        1 <= r <= 2 * n,
{
    let unit: u128 = compute_last_bit(n);
    proof {
        lemma_last_bit_bound(n as nat);
    }
    let whole: u128 = n / unit;
    let rest: u128 = n % unit;
    assert(whole * unit + rest == n && (whole + 1) * unit == whole * unit + unit && whole * unit >= 1)
        by (nonlinear_arith)
        requires
            whole == n / unit,
            rest == n % unit,
            1 <= unit <= n,
    ;
    if rest > unit - rest || (rest == unit - rest && whole % 2 == 1) {
        (whole + 1) * unit
    } else {
        whole * unit
    }
}

/// The quantiles that summaries report.
#[derive(Debug, Clone, Copy, PartialEq, Eq, Structural)]
pub enum Quantile {
    P50,
    P95,
    P99,
}

impl Quantile {
    /// The double nearest to 0.50, 0.95 or 0.99, in units of 2^-53.
    pub open spec fn numerator_spec(self) -> nat {
        match self {
            Quantile::P50 => 4_503_599_627_370_496,
            Quantile::P95 => 8_556_839_292_003_942,
            Quantile::P99 => 8_917_127_262_193_582,
        }
    }

    /// The double nearest to 0.50, 0.95 or 0.99, in units of 2^-53.
    pub fn numerator(self) -> (n: u128)
        ensures
            n == self.numerator_spec(),
            n < DOUBLE_LIMIT,
    {
        match self {
            Quantile::P50 => 4_503_599_627_370_496,
            Quantile::P95 => 8_556_839_292_003_942,
            Quantile::P99 => 8_917_127_262_193_582,
        }
    }
}

/// The rank of a quantile among `total` ordered observations: at least 1.
pub open spec fn rank_of(total: nat, quantile: Quantile) -> nat {
    let product = nearest_double(nearest_double(total) * quantile.numerator_spec());
    let ceiling = (product + DOUBLE_LIMIT - 1) as nat / (DOUBLE_LIMIT as nat);
    if ceiling < 1 {
        1
    } else {
        ceiling
    }
}

/// The rank of a quantile among `total` ordered observations.
pub fn quantile_rank(total: u64, quantile: Quantile) -> (rank: u128)
    requires
        total >= 1,
    ensures
        rank == rank_of(total as nat, quantile),
{
    let observed: u128 = round_to_double(total as u128);
    let factor: u128 = quantile.numerator();
    assert(1 <= observed * factor <= 0x2_0000_0000_0000_0000 * 9_007_199_254_740_992)
        by (nonlinear_arith)
        requires
            1 <= observed <= 0x2_0000_0000_0000_0000,
            1 <= factor <= 9_007_199_254_740_992,
    ;
    let product: u128 = round_to_double(observed * factor);
    let ceiling: u128 = (product + (DOUBLE_LIMIT - 1)) / DOUBLE_LIMIT;
    if ceiling < 1 {
        1
    } else {
        ceiling
    }
}

/// How many observations a histogram holds.
pub open spec fn count_sum(buckets: Seq<LatencyBucket>) -> nat
    decreases buckets.len(),
{
    if buckets.len() == 0 {
        0
    } else {
        count_sum(buckets.drop_last()) + buckets.last().count as nat
    }
}

/// A part of a histogram holds no more observations than the whole.
pub proof fn lemma_count_sum_prefix(buckets: Seq<LatencyBucket>, k: int)
    requires
        0 <= k <= buckets.len(),
    ensures
        count_sum(buckets.take(k)) <= count_sum(buckets),
    decreases buckets.len(),
{
    if k == buckets.len() {
        assert(buckets.take(k) == buckets);
    } else {
        lemma_count_sum_prefix(buckets.drop_last(), k);
        assert(buckets.drop_last().take(k) == buckets.take(k));
    }
}

/// The bound of the bucket before place `i`, and 0 for the first place.
pub open spec fn bound_before(buckets: Seq<LatencyBucket>, i: int) -> u64 {
    if i <= 0 {
        0
    } else {
        buckets[i - 1].upper_bound_ms
    }
}

/// Whether the observation of that rank lies in the bucket at place `i`.
pub open spec fn holds_rank(buckets: Seq<LatencyBucket>, rank: nat, i: int) -> bool {
    &&& 0 <= i < buckets.len()
    &&& count_sum(buckets.take(i)) < rank
    &&& rank <= count_sum(buckets.take(i + 1))
}

/// The latency that a bucket stands for: its bound, or that of the bucket before
/// where it has none of its own.
pub open spec fn bucket_latency(buckets: Seq<LatencyBucket>, i: int) -> u64 {
    if buckets[i].upper_bound_ms == u64::MAX {
        bound_before(buckets, i)
    } else {
        buckets[i].upper_bound_ms
    }
}

/// Whether `latency` is the quantile of a histogram: 0 of an empty one, else the
/// latency of the bucket that holds the rank.
pub open spec fn is_quantile(buckets: Seq<LatencyBucket>, quantile: Quantile, latency: u64) -> bool {
    let rank = rank_of(count_sum(buckets), quantile);
    if count_sum(buckets) == 0 {
        latency == 0
    } else if rank > count_sum(buckets) {
        latency == bound_before(buckets, buckets.len() as int)
    } else {
        exists|i: int| #[trigger] holds_rank(buckets, rank, i) && latency == bucket_latency(buckets, i)
    }
}

/// A histogram has one quantile only.
pub proof fn lemma_quantile_unique(
    buckets: Seq<LatencyBucket>,
    quantile: Quantile,
    a: u64,
    b: u64,
)
    requires
        is_quantile(buckets, quantile, a),
        is_quantile(buckets, quantile, b),
    ensures
        a == b,
{
    let rank = rank_of(count_sum(buckets), quantile);
    if count_sum(buckets) != 0 && rank <= count_sum(buckets) {
        let i = choose|i: int| #[trigger]
            holds_rank(buckets, rank, i) && a == bucket_latency(buckets, i);
        let j = choose|j: int| #[trigger]
            holds_rank(buckets, rank, j) && b == bucket_latency(buckets, j);
        if i < j {
            lemma_count_sum_prefix(buckets.take(j), i + 1);
            assert(buckets.take(j).take(i + 1) == buckets.take(i + 1));
        } else if j < i {
            lemma_count_sum_prefix(buckets.take(i), j + 1);
            assert(buckets.take(i).take(j + 1) == buckets.take(j + 1));
        }
    }
}

/// The quantile of a histogram.
pub fn histogram_quantile(histogram: &Vec<LatencyBucket>, quantile: Quantile) -> (latency: u64)
    requires
        count_sum(histogram@) <= u64::MAX,
    ensures
        is_quantile(histogram@, quantile, latency),
{
    let mut total: u64 = 0;
    let mut i: usize = 0;
    while i < histogram.len()
        invariant
            i <= histogram@.len(),
            total == count_sum(histogram@.take(i as int)),
            count_sum(histogram@) <= u64::MAX,
        decreases histogram@.len() - i,
    {
        proof {
            assert(histogram@.take(i + 1).drop_last() == histogram@.take(i as int));
            lemma_count_sum_prefix(histogram@, i + 1);
        }
        total = total + histogram[i].count;
        i += 1;
    }
    assert(histogram@.take(i as int) == histogram@);
    if total == 0 {
        return 0;
    }
    let rank: u128 = quantile_rank(total, quantile);
    let mut cumulative: u64 = 0;
    let mut previous_bound: u64 = 0;
    let mut k: usize = 0;
    while k < histogram.len()
        invariant
            k <= histogram@.len(),
            cumulative == count_sum(histogram@.take(k as int)),
            cumulative < rank,
            previous_bound == bound_before(histogram@, k as int),
            total == count_sum(histogram@),
            total > 0,
            rank == rank_of(count_sum(histogram@), quantile),
        decreases histogram@.len() - k,
    {
        let bucket: LatencyBucket = histogram[k];
        proof {
            assert(histogram@.take(k + 1).drop_last() == histogram@.take(k as int));
            lemma_count_sum_prefix(histogram@, k + 1);
        }
        cumulative = cumulative + bucket.count;
        if cumulative as u128 >= rank {
            assert(holds_rank(histogram@, rank as nat, k as int));
            return if bucket.upper_bound_ms == u64::MAX {
                previous_bound
            } else {
                bucket.upper_bound_ms
            };
        }
        previous_bound = bucket.upper_bound_ms;
        k += 1;
    }
    assert(histogram@.take(k as int) == histogram@);
    previous_bound
}

} // verus!
