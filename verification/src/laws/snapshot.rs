//! Summaries read from the fields that are stored of a run.
use vstd::prelude::*;
use vstd::arithmetic::power2::pow2;
use super::text::{apart, glued, in_digits, lemma_glued_split, lemma_worth, worth};
use crate::contracts::{
    error_pairs, DurableRunSummary, LatencyBucket, ScenarioRunSummary, ScenarioRunSummaryStatus,
};
use crate::ordered::lemma_increasing_no_duplicates;
use crate::quantile::{
    bucket_latency, count_sum, histogram_quantile, holds_rank, is_quantile, last_bit,
    nearest_double, quantile_rank, rank_of, Quantile,
};
use crate::snapshot::{
    bucket_after, bucket_field, buckets_of, durable_error, durable_summary_from_snapshot,
    error_field, error_kinds, fields_of, final_status, finalized_status, histogram_of, is_durable,
    is_open, is_slice_field, is_summary, kinds, lemma_complete_misses_nothing, missing_slices,
    number, number_error, progress, progress_error, slice_index, slice_indexes, snapshot_error,
    summary_from_snapshot, Fields, RunAggregationStoreError,
};
use crate::text::{
    decimal, digits_value, is_digit, parsed_unsigned, split_on, text_less, views, without_plus,
};

verus! {

// ---------------------------------------------------------------------------
// Fields
// ---------------------------------------------------------------------------

/// Whether the pair at a place of a flat list of names and values is the last with a
/// name.
pub open spec fn last_at(values: Seq<Seq<char>>, name: Seq<char>, k: int) -> bool {
    &&& 0 <= k
    &&& 2 * k + 1 < values.len()
    &&& values[2 * k] == name
    &&& forall|j: int| k < j && 2 * j + 1 < values.len() ==> #[trigger] values[2 * j] != name
}

/// Whether a text is stored under a name: it stands behind the last occurrence of it.
pub open spec fn stored(values: Seq<Seq<char>>, name: Seq<char>, text: Seq<char>) -> bool {
    exists|k: int| #[trigger] last_at(values, name, k) && values[2 * k + 1] == text
}

/// Whether a text denotes a number: digits of that worth, with or without a plus sign.
pub open spec fn reads(text: Seq<char>, n: int) -> bool {
    ||| in_digits(text) && worth(text) == n
    ||| text.len() >= 1 && text[0] == '+' && in_digits(text.skip(1)) && worth(text.skip(1)) == n
}

/// Whether a number is stored under a name.
pub open spec fn holds(values: Seq<Seq<char>>, name: Seq<char>, n: int) -> bool {
    exists|text: Seq<char>| #[trigger] stored(values, name, text) && reads(text, n)
}

pub(crate) proof fn lemma_fields(values: Seq<Seq<char>>, name: Seq<char>)
    requires
        values.len() % 2 == 0,
    ensures
        fields_of(values).dom().contains(name) ==> stored(values, name, fields_of(values)[name]),
        forall|text: Seq<char>| #[trigger]
            stored(values, name, text) ==> fields_of(values).dom().contains(name) && fields_of(
                values,
            )[name] == text,
    decreases values.len(),
{
    if values.len() >= 2 {
        let front = values.take(values.len() - 2);
        let last = values.len() as int / 2 - 1;
        lemma_fields(front, name);
        assert forall|k: int| last_at(front, name, k) && values[2 * last] != name implies last_at(
            values,
            name,
            k,
        ) && front[2 * k + 1] == values[2 * k + 1] by {
            assert forall|j: int| k < j && 2 * j + 1 < values.len() implies #[trigger] values[2
                * j] != name by {
                if j < last {
                    assert(front[2 * j] != name);
                }
            }
        }
        if fields_of(values).dom().contains(name) {
            if values[2 * last] == name {
                assert(last_at(values, name, last));
            } else {
                assert(stored(front, name, fields_of(front)[name]));
                let k = choose|k: int| #[trigger]
                    last_at(front, name, k) && front[2 * k + 1] == fields_of(front)[name];
                assert(last_at(values, name, k));
            }
        }
        assert forall|text: Seq<char>| #[trigger] stored(values, name, text) implies fields_of(
            values,
        ).dom().contains(name) && fields_of(values)[name] == text by {
            let k = choose|k: int| #[trigger]
                last_at(values, name, k) && values[2 * k + 1] == text;
            if k < last {
                assert(values[2 * last] != name);
                assert forall|j: int| k < j && 2 * j + 1 < front.len() implies #[trigger] front[2
                    * j] != name by {
                    assert(values[2 * j] != name);
                }
                assert(last_at(front, name, k));
                assert(stored(front, name, text));
            }
        }
    }
}

pub(crate) proof fn lemma_parsed(text: Seq<char>, max: nat)
    ensures
        parsed_unsigned(text, max) matches Some(n) ==> reads(text, n as int) && n <= max,
        parsed_unsigned(text, max) is Some ==> parsed_unsigned(text, max) == Some(
            digits_value(without_plus(text)),
        ),
        forall|n: int| #[trigger] reads(text, n) && n <= max ==> parsed_unsigned(text, max) == Some(
            n as nat,
        ),
        forall|n: int| #[trigger] reads(text, n) ==> n >= 0,
{
    let digits = without_plus(text);
    if parsed_unsigned(text, max) is Some {
        assert forall|i: int| 0 <= i < digits.len() implies 48 <= (#[trigger] digits[i]) as int
            <= 57 by {
            assert(is_digit(digits[i]));
        }
        lemma_worth(digits);
    }
    assert forall|n: int| #[trigger] reads(text, n) implies n >= 0 && (n <= max
        ==> parsed_unsigned(text, max) == Some(n as nat)) by {
        if in_digits(text) {
            lemma_worth(text);
            assert(text[0] as int >= 48);
            assert forall|i: int| 0 <= i < text.len() implies is_digit(#[trigger] text[i]) by {}
        }
        if text.len() >= 1 && text[0] == '+' && in_digits(text.skip(1)) {
            lemma_worth(text.skip(1));
            assert forall|i: int| 0 <= i < text.skip(1).len() implies is_digit(
                #[trigger] text.skip(1)[i],
            ) by {}
            if in_digits(text) {
                assert(text[0] as int >= 48);
            }
        }
    }
}

proof fn lemma_number(values: Seq<Seq<char>>, name: Seq<char>, max: nat)
    requires
        values.len() % 2 == 0,
        number_error(fields_of(values), name, max) is None,
    ensures
        holds(values, name, number(fields_of(values), name) as int),
        number(fields_of(values), name) <= max,
{
    let f = fields_of(values);
    lemma_fields(values, name);
    lemma_parsed(f[name], max);
    assert(stored(values, name, f[name]));
}

// ---------------------------------------------------------------------------
// Quantiles
// ---------------------------------------------------------------------------

/// The observations in the first buckets.
pub open spec fn observed(buckets: Seq<LatencyBucket>, k: int) -> int
    decreases k,
{
    if k <= 0 {
        0
    } else {
        observed(buckets, k - 1) + buckets[k - 1].count
    }
}

pub(crate) proof fn lemma_observed(buckets: Seq<LatencyBucket>, k: int)
    requires
        0 <= k <= buckets.len(),
    ensures
        observed(buckets, k) == count_sum(buckets.take(k)),
    decreases k,
{
    if k > 0 {
        lemma_observed(buckets, k - 1);
        assert(buckets.take(k).drop_last() =~= buckets.take(k - 1));
    }
}

/// The percents of a quantile.
pub open spec fn percent(quantile: Quantile) -> int {
    match quantile {
        Quantile::P50 => 50,
        Quantile::P95 => 95,
        Quantile::P99 => 99,
    }
}

proof fn lemma_last_bit(n: nat)
    ensures
        last_bit(n) >= 1,
        n >= 9_007_199_254_740_992 ==> last_bit(n) * 4_503_599_627_370_496 <= n,
        n < 9_007_199_254_740_992 ==> last_bit(n) == 1,
    decreases n,
{
    if n >= 9_007_199_254_740_992 {
        lemma_last_bit(n / 2);
    }
}

proof fn lemma_nearest(n: nat)
    ensures
        n < 9_007_199_254_740_992 ==> nearest_double(n) == n,
        n >= 9_007_199_254_740_992 ==> {
            &&& (nearest_double(n) - n) * 9_007_199_254_740_992 <= n
            &&& (n - nearest_double(n)) * 9_007_199_254_740_992 <= n
        },
{
    lemma_last_bit(n);
    let unit = last_bit(n);
    let whole = n / unit;
    let rest = n % unit;
    assert(whole * unit + rest == n && (whole + 1) * unit == whole * unit + unit && 0 <= rest
        < unit) by (nonlinear_arith)
        requires
            whole == n / unit,
            rest == n % unit,
            unit >= 1,
    ;
    let d = nearest_double(n);
    assert(2 * (d - n) <= unit && 2 * (n - d) <= unit);
    if n >= 9_007_199_254_740_992 {
        assert((d - n) * 9_007_199_254_740_992 <= unit * 4_503_599_627_370_496);
        assert((n - d) * 9_007_199_254_740_992 <= unit * 4_503_599_627_370_496);
    } else {
        assert(unit == 1);
        assert(rest == 0);
    }
}

proof fn lemma_last_bit_divides(n: nat, k: nat) -> (c: nat)
    requires
        n < 9_007_199_254_740_992 * pow2(k),
    ensures
        c * last_bit(n) == pow2(k),
    decreases k,
{
    vstd::arithmetic::power2::lemma_pow2_pos(k);
    if n < 9_007_199_254_740_992 {
        assert(last_bit(n) == 1);
        assert(pow2(k) * 1 == pow2(k));
        pow2(k)
    } else {
        vstd::arithmetic::power2::lemma2_to64();
        assert(k > 0);
        vstd::arithmetic::power2::lemma_pow2_unfold(k);
        let c = lemma_last_bit_divides(n / 2, (k - 1) as nat);
        let unit = last_bit(n / 2);
        assert(c * (2 * unit) == 2 * (c * unit)) by (nonlinear_arith);
        assert(last_bit(n) == 2 * unit);
        c
    }
}

/// Rounding does not pass a multiple of 2^53.
proof fn lemma_nearest_below(n: nat, m: nat)
    requires
        n < 9_007_199_254_740_992 * 9_007_199_254_740_992,
        n <= m * 9_007_199_254_740_992,
    ensures
        nearest_double(n) <= m * 9_007_199_254_740_992,
{
    vstd::arithmetic::power2::lemma2_to64();
    vstd::arithmetic::power2::lemma2_to64_rest();
    assert(pow2(53) == 9_007_199_254_740_992);
    let c = lemma_last_bit_divides(n, 53);
    lemma_last_bit(n);
    let unit = last_bit(n);
    let whole = n / unit;
    let rest = n % unit;
    let bound = m * 9_007_199_254_740_992;
    let times = m * c;
    assert(bound == times * unit) by (nonlinear_arith)
        requires
            bound == m * 9_007_199_254_740_992,
            c * unit == 9_007_199_254_740_992,
            times == m * c,
    ;
    assert(whole * unit + rest == n && 0 <= rest < unit) by (nonlinear_arith)
        requires
            whole == n / unit,
            rest == n % unit,
            unit >= 1,
    ;
    if rest == 0 {
        assert(nearest_double(n) == n);
    } else {
        assert(whole + 1 <= times) by (nonlinear_arith)
            requires
                whole * unit + rest <= times * unit,
                rest > 0,
                unit >= 1,
        ;
        assert((whole + 1) * unit <= times * unit && whole * unit <= (whole + 1) * unit)
            by (nonlinear_arith)
            requires
                whole + 1 <= times,
                unit >= 1,
        ;
    }
}

/// The rank of a quantile among up to 2^45 observations: the first that so many percent of
/// them do not exceed.
pub open spec fn ranks(total: int, quantile: Quantile, rank: int) -> bool {
    &&& 1 <= rank
    &&& percent(quantile) * total <= 100 * rank
    &&& 100 * (rank - 1) < percent(quantile) * total
}

proof fn lemma_rank(total: nat, quantile: Quantile)
    requires
        1 <= total <= 35_184_372_088_832,
    ensures
        ranks(total as int, quantile, rank_of(total, quantile) as int),
{
    let num = quantile.numerator_spec();
    lemma_nearest(total);
    let p = total * num;
    let limit: nat = 9_007_199_254_740_992;
    assert(0 <= p <= total * limit) by (nonlinear_arith)
        requires
            p == total * num,
            num <= limit,
    ;
    lemma_nearest(p);
    let d = nearest_double(p);
    assert(nearest_double(nearest_double(total) * num) == d);
    assert(d - p <= total && p - d <= total) by (nonlinear_arith)
        requires
            p <= total * limit,
            (p < limit && d == p) || (p >= limit && (d - p) * limit <= p && (p - d) * limit <= p),
            limit == 9_007_199_254_740_992,
            total >= 1,
    ;
    let ceiling = (d + limit - 1) as nat / limit;
    assert(ceiling * limit >= d && ceiling * limit < d + limit);
    let q = percent(quantile);
    // A hundred times the double is so many percent in units of 2^-53, but for 40 units.
    assert(100 * num - q * limit <= 60 && q * limit - 100 * num <= 60);
    assert(100 * p == total * (100 * num)) by (nonlinear_arith)
        requires
            p == total * num,
    ;
    assert(total * (100 * num) <= total * (q * limit + 60) && total * (100 * num) >= total * (q
        * limit - 60)) by (nonlinear_arith)
        requires
            100 * num <= q * limit + 60,
            100 * num >= q * limit - 60,
            total >= 1,
    ;
    assert(total * (q * limit + 60) == q * total * limit + 60 * total && total * (q * limit - 60)
        == q * total * limit - 60 * total) by (nonlinear_arith);
    assert(q * total <= 100 * ceiling) by (nonlinear_arith)
        requires
            ceiling * limit >= d,
            d >= p - total,
            100 * p >= q * total * limit - 60 * total,
            total <= 35_184_372_088_832,
            limit == 9_007_199_254_740_992,
    ;
    // The doubles of the quantiles are not larger than the quantiles, so that the product
    // does not pass the ceiling of so many percent.
    assert(100 * num <= q * limit);
    let m = ((q * total + 99) / 100) as nat;
    assert(q * total <= 100 * m && 100 * m < q * total + 100);
    assert(p <= m * limit) by (nonlinear_arith)
        requires
            p == total * num,
            100 * num <= q * limit,
            q * total <= 100 * m,
    ;
    assert(p < limit * limit) by (nonlinear_arith)
        requires
            p <= total * limit,
            total <= 35_184_372_088_832,
            limit == 9_007_199_254_740_992,
    ;
    lemma_nearest_below(p, m);
    assert(ceiling <= m) by (nonlinear_arith)
        requires
            ceiling * limit < d + limit,
            d <= m * limit,
            limit == 9_007_199_254_740_992,
    ;
    assert(q * total >= 1) by (nonlinear_arith)
        requires
            q >= 50,
            total >= 1,
    ;
}

/// The rank of a quantile is the first that so many percent of the observations do not
/// exceed.
pub proof fn law_quantile_rank(total: u64, quantile: Quantile, rank: u128)
    requires
        1 <= total <= 35_184_372_088_832,
        call_ensures(quantile_rank, (total, quantile), rank),
    ensures
        ranks(total as int, quantile, rank as int),
{
    lemma_rank(total as nat, quantile);
}

/// Whether a latency is a quantile of a histogram of up to 2^45 observations: it is the
/// bound of the bucket that holds the rank, or the bound before where that has none; an
/// empty histogram has 0.
pub open spec fn quantile_is(buckets: Seq<LatencyBucket>, quantile: Quantile, latency: u64) -> bool {
    let n = buckets.len() as int;
    let total = observed(buckets, n);
    &&& total == 0 ==> latency == 0
    &&& 0 < total <= 35_184_372_088_832 ==> exists|i: int, rank: int| #[trigger]
        holds_at(buckets, i, rank) && ranks(total, quantile, rank) && (if buckets[i].upper_bound_ms
            == 18_446_744_073_709_551_615 {
            latency == (if i == 0 {
                0
            } else {
                buckets[i - 1].upper_bound_ms
            })
        } else {
            latency == buckets[i].upper_bound_ms
        })
}

/// Whether the observation of a rank lies in the bucket at a place: those before hold
/// fewer, and with it they hold as many.
pub open spec fn holds_at(buckets: Seq<LatencyBucket>, i: int, rank: int) -> bool {
    0 <= i < buckets.len() && observed(buckets, i) < rank <= observed(buckets, i + 1)
}

proof fn lemma_quantile(buckets: Seq<LatencyBucket>, quantile: Quantile, latency: u64)
    requires
        is_quantile(buckets, quantile, latency),
    ensures
        quantile_is(buckets, quantile, latency),
{
    let n = buckets.len() as int;
    lemma_observed(buckets, n);
    assert(buckets.take(n) =~= buckets);
    let total = count_sum(buckets);
    if 0 < total <= 35_184_372_088_832 {
        lemma_rank(total, quantile);
        let rank = rank_of(total, quantile);
        let q = percent(quantile);
        assert(rank <= total) by {
            if rank > total {
                assert(100 * (rank - 1) <= q * total);
                assert(100 * total <= 100 * (rank - 1));
                assert(q * total < 100 * total) by (nonlinear_arith)
                    requires
                        q < 100,
                        total > 0,
                ;
            }
        }
        let i = choose|i: int| #[trigger]
            holds_rank(buckets, rank, i) && latency == bucket_latency(buckets, i);
        lemma_observed(buckets, i);
        lemma_observed(buckets, i + 1);
        assert(holds_at(buckets, i, rank as int));
    }
}

/// The quantiles of a histogram.
pub proof fn law_histogram_quantile(histogram: Vec<LatencyBucket>, quantile: Quantile, latency: u64)
    requires
        count_sum(histogram@) <= u64::MAX,
        call_ensures(histogram_quantile, (&histogram, quantile), latency),
    ensures
        quantile_is(histogram@, quantile, latency),
{
    lemma_quantile(histogram@, quantile, latency);
}

// ---------------------------------------------------------------------------
// Summaries
// ---------------------------------------------------------------------------

/// Whether a stored label stands for the way in which a run ended.
pub open spec fn ended_as(label: Seq<char>, status: ScenarioRunSummaryStatus) -> bool {
    match status {
        ScenarioRunSummaryStatus::Partial => label == "partial"@,
        ScenarioRunSummaryStatus::TimedOut => label == "timed_out"@,
        ScenarioRunSummaryStatus::Cancelled => label == "cancelled"@,
        ScenarioRunSummaryStatus::Complete => label == "complete"@,
    }
}

/// Whether a slice is stored: under a name that is `slice:` and its number.
pub open spec fn slice_stored(values: Seq<Seq<char>>, n: u32) -> bool {
    exists|k: int| 0 <= k && 2 * k + 1 < values.len() && #[trigger] names_slice(values[2 * k], n)
}

/// Whether a name is `slice:` and a number.
pub open spec fn names_slice(name: Seq<char>, n: u32) -> bool {
    &&& name.len() >= 6
    &&& name.take(6) == "slice:"@
    &&& reads(name.skip(6), n as int)
}

/// Whether buckets are those that are stored: the bounds stand in one field, with commas
/// between them, and each count in a field of its own.
pub open spec fn histogram_stored(values: Seq<Seq<char>>, buckets: Seq<LatencyBucket>) -> bool {
    exists|text: Seq<char>| #[trigger]
        stored(values, "histogram_bounds"@, text) && bounds_are(values, text, buckets)
}

/// Whether a text gives the bounds of buckets whose counts are stored.
pub open spec fn bounds_are(
    values: Seq<Seq<char>>,
    text: Seq<char>,
    buckets: Seq<LatencyBucket>,
) -> bool {
    &&& text.len() == 0 ==> buckets.len() == 0
    &&& text.len() > 0 ==> exists|parts: Seq<Seq<char>>| #[trigger]
        glued(parts, ',') == text && apart(parts, ',') && parts.len() == buckets.len() && forall|
            i: int,
        |
            0 <= i < buckets.len() ==> reads(
                parts[i],
                (#[trigger] buckets[i]).upper_bound_ms as int,
            ) && holds(values, "latency:"@ + decimal(i as nat), buckets[i].count as int)
}

/// Whether errors of a kind are stored: under a name that is `error:` and the kind.
pub open spec fn error_stored(values: Seq<Seq<char>>, kind: Seq<char>) -> bool {
    exists|text: Seq<char>| #[trigger] stored(values, "error:"@ + kind, text)
}

/// Whether a summary is what is stored of a run.
pub open spec fn sums_up(values: Seq<Seq<char>>, s: ScenarioRunSummary) -> bool {
    let missing = s.missing_slices@;
    let errors = s.error_breakdown@;
    &&& values.len() % 2 == 0
    &&& exists|label: Seq<char>| #[trigger]
        stored(values, "status"@, label) && ended_as(label, s.status)
    &&& holds(values, "schema_version"@, s.schema_version as int)
    &&& stored(values, "scenario_id"@, s.scenario_id@)
    &&& stored(values, "run_id"@, s.run_id@)
    &&& holds(values, "expected_slices"@, s.expected_slices as int)
    &&& holds(values, "received_slices"@, s.received_slices as int)
    &&& missing.len() + s.received_slices == s.expected_slices
    &&& forall|n: u32| #[trigger]
        missing.contains(n) <==> n < s.expected_slices && !slice_stored(values, n)
    &&& forall|i: int, j: int| 0 <= i < j < missing.len() ==> missing[i] < missing[j]
    &&& s.status is Complete <==> missing.len() == 0
    &&& holds(values, "total"@, s.total as int)
    &&& holds(values, "success"@, s.success as int)
    &&& holds(values, "failure"@, s.failure as int)
    &&& s.success + s.failure == s.total
    &&& histogram_stored(values, s.latency_histogram@)
    &&& forall|i: int, j: int|
        0 <= i < j < s.latency_histogram@.len() ==> (
        #[trigger] s.latency_histogram@[i]).upper_bound_ms < (
        #[trigger] s.latency_histogram@[j]).upper_bound_ms
    &&& s.latency_histogram@.len() > 0 ==> observed(
        s.latency_histogram@,
        s.latency_histogram@.len() as int,
    ) == s.total
    &&& quantile_is(s.latency_histogram@, Quantile::P50, s.scenario_latency_p50_ms)
    &&& quantile_is(s.latency_histogram@, Quantile::P95, s.scenario_latency_p95_ms)
    &&& quantile_is(s.latency_histogram@, Quantile::P99, s.scenario_latency_p99_ms)
    &&& forall|i: int|
        0 <= i < errors.len() ==> holds(
            values,
            "error:"@ + (#[trigger] errors[i]).kind@,
            errors[i].count as int,
        )
    &&& forall|i: int, j: int|
        0 <= i < j < errors.len() ==> (#[trigger] errors[i]).kind@ != (#[trigger] errors[j]).kind@
            && text_less(errors[i].kind@, errors[j].kind@)
    &&& forall|kind: Seq<char>| #[trigger]
        error_stored(values, kind) ==> exists|i: int|
            0 <= i < errors.len() && (#[trigger] errors[i]).kind@ == kind
    &&& holds(values, "first_result_at"@, s.first_result_at_unix_ms as int)
    &&& holds(values, "finalized_at"@, s.finalized_at_unix_ms as int)
}

pub(crate) proof fn lemma_missing_ascend(expected: nat, received: Set<u32>)
    requires
        expected <= u32::MAX,
    ensures
        forall|n: u32| #[trigger]
            missing_slices(expected, received).contains(n) <==> n < expected && !received.contains(n),
        forall|i: int, j: int|
            0 <= i < j < missing_slices(expected, received).len() ==> missing_slices(
                expected,
                received,
            )[i] < missing_slices(expected, received)[j],
    decreases expected,
{
    if expected > 0 {
        let last = (expected - 1) as u32;
        let before = missing_slices((expected - 1) as nat, received);
        let all = missing_slices(expected, received);
        lemma_missing_ascend((expected - 1) as nat, received);
        assert forall|i: int| 0 <= i < before.len() implies #[trigger] before[i] < last by {
            assert(before.contains(before[i]));
        }
        if !received.contains(last) {
            assert(all == before.push(last));
            assert forall|n: u32| #[trigger] all.contains(n) <==> n < expected && !received.contains(
                n,
            ) by {
                if before.contains(n) {
                    assert(all[before.index_of(n)] == n);
                }
                if n == last {
                    assert(all[before.len() as int] == n);
                }
                if all.contains(n) && n != last {
                    let i = all.index_of(n);
                    assert(before[i] == n);
                }
            }
        }
    }
}

pub(crate) proof fn lemma_slice_stored(values: Seq<Seq<char>>, n: u32)
    requires
        values.len() % 2 == 0,
    ensures
        slice_indexes(fields_of(values)).contains(n) <==> slice_stored(values, n),
{
    let f = fields_of(values);
    reveal_strlit("slice:");
    assert("slice:"@.len() == 6);
    if slice_indexes(f).contains(n) {
        let name = choose|k: Seq<char>| #[trigger]
            f.dom().contains(k) && is_slice_field(k) && slice_index(k) == Some(n as nat);
        lemma_fields(values, name);
        lemma_parsed(name.skip(6), u32::MAX as nat);
        let k = choose|k: int| #[trigger] last_at(values, name, k) && values[2 * k + 1] == f[name];
        assert(names_slice(values[2 * k], n));
    }
    if slice_stored(values, n) {
        let k = choose|k: int|
            0 <= k && 2 * k + 1 < values.len() && #[trigger] names_slice(values[2 * k], n);
        let name = values[2 * k];
        lemma_named(values, k);
        lemma_parsed(name.skip(6), u32::MAX as nat);
        assert(f.dom().contains(name) && is_slice_field(name) && slice_index(name) == Some(
            n as nat,
        ));
    }
}

proof fn lemma_named(values: Seq<Seq<char>>, k: int)
    requires
        values.len() % 2 == 0,
        0 <= k,
        2 * k + 1 < values.len(),
    ensures
        fields_of(values).dom().contains(values[2 * k]),
    decreases values.len(),
{
    let front = values.take(values.len() - 2);
    if 2 * k + 1 < front.len() {
        lemma_named(front, k);
        assert(front[2 * k] == values[2 * k]);
    }
}

proof fn lemma_buckets_read(values: Seq<Seq<char>>, parts: Seq<Seq<char>>)
    requires
        values.len() % 2 == 0,
        buckets_of(fields_of(values), parts) is Ok,
    ensures
        ({
            let buckets = buckets_of(fields_of(values), parts)->Ok_0;
            &&& buckets.len() == parts.len()
            &&& forall|i: int|
                0 <= i < buckets.len() ==> reads(
                    parts[i],
                    (#[trigger] buckets[i]).upper_bound_ms as int,
                ) && holds(values, "latency:"@ + decimal(i as nat), buckets[i].count as int)
            &&& forall|i: int, j: int|
                0 <= i < j < buckets.len() ==> (#[trigger] buckets[i]).upper_bound_ms < (
                #[trigger] buckets[j]).upper_bound_ms
        }),
    decreases parts.len(),
{
    let f = fields_of(values);
    if parts.len() > 0 {
        let before = buckets_of(f, parts.drop_last())->Ok_0;
        lemma_buckets_read(values, parts.drop_last());
        let field = bucket_field(before.len());
        lemma_parsed(parts.last(), u64::MAX as nat);
        lemma_fields(values, field);
        lemma_parsed(f[field], u64::MAX as nat);
        let buckets = buckets_of(f, parts)->Ok_0;
        let bucket = bucket_after(f, before, parts.last())->Ok_0;
        assert(buckets == before.push(bucket));
        assert(stored(values, field, f[field]));
        assert(holds(values, field, bucket.count as int));
        assert forall|i: int| 0 <= i < buckets.len() implies reads(
            parts[i],
            (#[trigger] buckets[i]).upper_bound_ms as int,
        ) && holds(values, "latency:"@ + decimal(i as nat), buckets[i].count as int) by {
            if i < before.len() {
                assert(buckets[i] == before[i]);
                assert(parts.drop_last()[i] == parts[i]);
            }
        }
        assert forall|i: int, j: int| 0 <= i < j < buckets.len() implies (
        #[trigger] buckets[i]).upper_bound_ms < (#[trigger] buckets[j]).upper_bound_ms by {
            if j < before.len() {
                assert(before[i].upper_bound_ms < before[j].upper_bound_ms);
            } else if i < before.len() - 1 {
                assert(before[i].upper_bound_ms < before[before.len() - 1].upper_bound_ms);
            }
        }
    }
}

proof fn lemma_histogram_stored(values: Seq<Seq<char>>)
    requires
        values.len() % 2 == 0,
        histogram_of(fields_of(values)) is Ok,
    ensures
        histogram_stored(values, histogram_of(fields_of(values))->Ok_0),
        forall|i: int, j: int|
            0 <= i < j < histogram_of(fields_of(values))->Ok_0.len() ==> (
            #[trigger] histogram_of(fields_of(values))->Ok_0[i]).upper_bound_ms < (
            #[trigger] histogram_of(fields_of(values))->Ok_0[j]).upper_bound_ms,
{
    let f = fields_of(values);
    lemma_fields(values, "histogram_bounds"@);
    let text = f["histogram_bounds"@];
    assert(stored(values, "histogram_bounds"@, text));
    if text.len() > 0 {
        let parts = split_on(text, ',');
        lemma_glued_split(text, ',');
        lemma_buckets_read(values, parts);
        assert(glued(parts, ',') == text);
    }
    assert(bounds_are(values, text, histogram_of(f)->Ok_0));
}

pub(crate) proof fn lemma_sums_up(values: Seq<Seq<char>>, s: ScenarioRunSummary)
    requires
        snapshot_error(values) is None,
        is_summary(fields_of(values), s),
    ensures
        sums_up(values, s),
{
    let f = fields_of(values);
    let errors = s.error_breakdown@;
    lemma_complete_misses_nothing(f, s);
    lemma_number(values, "schema_version"@, u16::MAX as nat);
    lemma_number(values, "expected_slices"@, u32::MAX as nat);
    lemma_number(values, "received_slices"@, u32::MAX as nat);
    lemma_number(values, "total"@, u64::MAX as nat);
    lemma_number(values, "success"@, u64::MAX as nat);
    lemma_number(values, "failure"@, u64::MAX as nat);
    lemma_number(values, "first_result_at"@, u128::MAX as nat);
    lemma_number(values, "finalized_at"@, u128::MAX as nat);
    lemma_fields(values, "status"@);
    lemma_fields(values, "scenario_id"@);
    lemma_fields(values, "run_id"@);
    assert(stored(values, "status"@, f["status"@]) && ended_as(f["status"@], s.status));
    lemma_missing_ascend(s.expected_slices as nat, slice_indexes(f));
    assert forall|n: u32| #[trigger] s.missing_slices@.contains(n) <==> n < s.expected_slices
        && !slice_stored(values, n) by {
        lemma_slice_stored(values, n);
    }
    lemma_histogram_stored(values);
    let buckets = s.latency_histogram@;
    lemma_observed(buckets, buckets.len() as int);
    assert(buckets.take(buckets.len() as int) =~= buckets);
    lemma_quantile(buckets, Quantile::P50, s.scenario_latency_p50_ms);
    lemma_quantile(buckets, Quantile::P95, s.scenario_latency_p95_ms);
    lemma_quantile(buckets, Quantile::P99, s.scenario_latency_p99_ms);
    let pairs = error_pairs(errors);
    lemma_increasing_no_duplicates(kinds(pairs));
    assert forall|i: int| 0 <= i < errors.len() implies holds(
        values,
        "error:"@ + (#[trigger] errors[i]).kind@,
        errors[i].count as int,
    ) by {
        let kind = errors[i].kind@;
        assert(pairs[i].0 == kind);
        assert(kinds(pairs)[i] == kind);
        assert(kinds(pairs).contains(kind));
        assert(error_kinds(f).contains(kind));
        lemma_fields(values, error_field(kind));
        lemma_parsed(f[error_field(kind)], u64::MAX as nat);
        assert(stored(values, error_field(kind), f[error_field(kind)]));
    }
    assert forall|i: int, j: int| 0 <= i < j < errors.len() implies (#[trigger] errors[i]).kind@ != (
    #[trigger] errors[j]).kind@ && text_less(errors[i].kind@, errors[j].kind@) by {
        assert(kinds(pairs)[i] == errors[i].kind@);
        assert(kinds(pairs)[j] == errors[j].kind@);
    }
    assert forall|kind: Seq<char>| #[trigger] error_stored(values, kind) implies exists|i: int|
        0 <= i < errors.len() && (#[trigger] errors[i]).kind@ == kind by {
        lemma_fields(values, error_field(kind));
        assert(error_kinds(f).contains(kind));
        assert(kinds(pairs).contains(kind));
        let i = kinds(pairs).index_of(kind);
        assert(errors[i].kind@ == kind);
    }
}

/// A summary that is read is what is stored of the run.
pub proof fn law_summary_from_snapshot(
    values: Vec<String>,
    operation: &'static str,
    r: Result<ScenarioRunSummary, RunAggregationStoreError>,
)
    requires
        call_ensures(summary_from_snapshot, (&values, operation), r),
    ensures
        r matches Ok(s) ==> sums_up(views(values@), s),
        r matches Err(e) ==> (e matches RunAggregationStoreError::InvalidState {
            operation: o,
            message,
        } && o@ == operation@),
        stored(views(values@), "status"@, "open"@) && values@.len() % 2 == 0 ==> r is Err,
{
    let all = views(values@);
    if r is Ok {
        lemma_sums_up(all, r->Ok_0);
    }
    if stored(all, "status"@, "open"@) && all.len() % 2 == 0 {
        lemma_fields(all, "status"@);
        lemma_open_is_no_end();
    }
}

pub(crate) proof fn lemma_open_is_no_end()
    ensures
        final_status("open"@) is None,
{
    reveal_strlit("open");
    reveal_strlit("partial");
    reveal_strlit("timed_out");
    reveal_strlit("cancelled");
    reveal_strlit("complete");
    assert("open"@.len() == 4 && "partial"@.len() == 7 && "timed_out"@.len() == 9);
    assert("cancelled"@.len() == 9 && "complete"@.len() == 8);
}

/// The labels of the four ways to end, and of none.
pub proof fn law_finalized_status(
    label: &str,
    operation: &'static str,
    r: Result<Option<ScenarioRunSummaryStatus>, RunAggregationStoreError>,
)
    requires
        call_ensures(finalized_status, (label, operation), r),
    ensures
        label@ == "open"@ <==> r == Ok::<_, RunAggregationStoreError>(
            None::<ScenarioRunSummaryStatus>,
        ),
        forall|status: ScenarioRunSummaryStatus| #[trigger]
            ended_as(label@, status) <==> r == Ok::<_, RunAggregationStoreError>(Some(status)),
{
    lemma_labels_differ();
}

proof fn lemma_labels_differ()
    ensures
        final_status("open"@) is None,
        final_status("partial"@) == Some(ScenarioRunSummaryStatus::Partial),
        final_status("timed_out"@) == Some(ScenarioRunSummaryStatus::TimedOut),
        final_status("cancelled"@) == Some(ScenarioRunSummaryStatus::Cancelled),
        final_status("complete"@) == Some(ScenarioRunSummaryStatus::Complete),
{
    lemma_open_is_no_end();
    reveal_strlit("partial");
    reveal_strlit("timed_out");
    reveal_strlit("cancelled");
    reveal_strlit("complete");
    assert("partial"@.len() == 7 && "timed_out"@.len() == 9 && "complete"@.len() == 8);
    assert("timed_out"@[0] == 't' && "cancelled"@[0] == 'c');
}

/// How far a run has come: the two counts and, where it has ended, how.
pub open spec fn has_come(
    values: Seq<Seq<char>>,
    received: u32,
    expected: u32,
    ended: Option<ScenarioRunSummaryStatus>,
) -> bool {
    &&& holds(values, "received_slices"@, received as int)
    &&& holds(values, "expected_slices"@, expected as int)
    &&& match ended {
        None => stored(values, "status"@, "open"@),
        Some(status) => exists|label: Seq<char>| #[trigger]
            stored(values, "status"@, label) && ended_as(label, status),
    }
}

pub(crate) proof fn lemma_has_come(
    values: Seq<Seq<char>>,
    received: u32,
    expected: u32,
    ended: Option<ScenarioRunSummaryStatus>,
)
    requires
        progress_error(values) is None,
        received == number(fields_of(values), "received_slices"@),
        expected == number(fields_of(values), "expected_slices"@),
        fields_of(values)["status"@] == "open"@ ==> ended is None,
        fields_of(values)["status"@] != "open"@ ==> ended == final_status(
            fields_of(values)["status"@],
        ),
    ensures
        has_come(values, received, expected, ended),
{
    let f = fields_of(values);
    lemma_number(values, "received_slices"@, u32::MAX as nat);
    lemma_number(values, "expected_slices"@, u32::MAX as nat);
    lemma_fields(values, "status"@);
    lemma_labels_differ();
    assert(stored(values, "status"@, f["status"@]));
    if ended is Some {
        assert(ended_as(f["status"@], ended->0));
    }
}

pub(crate) proof fn lemma_progress_owed(
    values: Seq<Seq<char>>,
    received: u32,
    expected: u32,
    ended: Option<ScenarioRunSummaryStatus>,
)
    requires
        values.len() % 2 == 0,
        has_come(values, received, expected, ended),
    ensures
        progress_error(values) is None,
        number(fields_of(values), "received_slices"@) == received,
        number(fields_of(values), "expected_slices"@) == expected,
        (fields_of(values)["status"@] == "open"@) <==> ended is None,
        ended is Some ==> final_status(fields_of(values)["status"@]) == ended,
{
    lemma_held(values, "received_slices"@, received as int, u32::MAX as nat);
    lemma_held(values, "expected_slices"@, expected as int, u32::MAX as nat);
    lemma_fields(values, "status"@);
    lemma_labels_differ();
    lemma_open_is_no_end();
    if ended is None {
        assert(stored(values, "status"@, "open"@));
    } else {
        let label = choose|label: Seq<char>| #[trigger]
            stored(values, "status"@, label) && ended_as(label, ended->0);
        assert(stored(values, "status"@, label));
        assert(fields_of(values)["status"@] == label);
        lemma_label_read(label, ended->0);
    }
}

pub(crate) proof fn lemma_label_read(label: Seq<char>, status: ScenarioRunSummaryStatus)
    requires
        ended_as(label, status),
    ensures
        final_status(label) == Some(status),
        label != "open"@,
{
    lemma_labels_differ();
    lemma_open_is_no_end();
}

pub(crate) proof fn lemma_held(values: Seq<Seq<char>>, name: Seq<char>, n: int, max: nat)
    requires
        values.len() % 2 == 0,
        holds(values, name, n),
        n <= max,
    ensures
        number_error(fields_of(values), name, max) is None,
        number(fields_of(values), name) == n,
{
    let text = choose|text: Seq<char>| #[trigger] stored(values, name, text) && reads(text, n);
    lemma_fields(values, name);
    assert(stored(values, name, text));
    lemma_parsed(text, max);
    assert(reads(text, n));
}

/// The progress of a run is what is stored of it, wherever that can be read.
pub proof fn law_progress(
    values: Vec<String>,
    operation: &'static str,
    r: Result<(u32, u32, Option<ScenarioRunSummaryStatus>), RunAggregationStoreError>,
)
    requires
        call_ensures(progress, (&values, operation), r),
    ensures
        r matches Ok((received, expected, ended)) ==> has_come(
            views(values@),
            received,
            expected,
            ended,
        ),
        values@.len() % 2 == 0 ==> forall|received: u32, expected: u32, ended: Option<
            ScenarioRunSummaryStatus,
        >| #[trigger]
            has_come(views(values@), received, expected, ended) ==> (r matches Ok(found) && found
                == (received, expected, ended)),
{
    if r is Ok {
        let (received, expected, ended) = r->Ok_0;
        lemma_has_come(views(values@), received, expected, ended);
    }
    if values@.len() % 2 == 0 {
        let all = views(values@);
        assert forall|received: u32, expected: u32, ended: Option<ScenarioRunSummaryStatus>|
            #[trigger] has_come(all, received, expected, ended) implies (r matches Ok(found)
            && found == (received, expected, ended)) by {
            lemma_progress_owed(all, received, expected, ended);
        }
    }
}

/// The name of a way to end in the identity of an event.
pub open spec fn told_as(status: ScenarioRunSummaryStatus) -> Seq<char> {
    match status {
        ScenarioRunSummaryStatus::Partial => "partial"@,
        ScenarioRunSummaryStatus::Complete => "complete"@,
        ScenarioRunSummaryStatus::TimedOut => "timed-out"@,
        ScenarioRunSummaryStatus::Cancelled => "cancelled"@,
    }
}

/// Whether a summary and the state of its publication are what is stored of a run: it
/// waits where a later revision is pending than was acknowledged.
pub open spec fn stands(values: Seq<Seq<char>>, d: DurableRunSummary) -> bool {
    &&& sums_up(values, d.summary)
    &&& holds(values, "summary_revision"@, d.revision as int)
    &&& d.revision >= 1
    &&& d.event_id@ == d.summary.run_id@ + ":summary:r"@ + decimal(d.revision as nat) + ":"@
        + told_as(d.summary.status)
    &&& exists|pending: int, acknowledged: int|
        #![trigger revisions(values, pending, acknowledged)]
        revisions(values, pending, acknowledged) && pending <= d.revision && acknowledged
            <= d.revision && (d.pending_publication <==> pending > acknowledged)
}

/// Whether these are the pending revision and the acknowledged one.
pub open spec fn revisions(values: Seq<Seq<char>>, pending: int, acknowledged: int) -> bool {
    &&& holds(values, "summary_pending_revision"@, pending)
    &&& holds(values, "summary_ack_revision"@, acknowledged)
}

pub(crate) proof fn lemma_stands(values: Seq<Seq<char>>, d: DurableRunSummary)
    requires
        durable_error(values) is None,
        is_durable(fields_of(values), d),
    ensures
        stands(values, d),
{
    let f = fields_of(values);
    lemma_sums_up(values, d.summary);
    lemma_number(values, "summary_revision"@, u64::MAX as nat);
    lemma_number(values, "summary_pending_revision"@, u64::MAX as nat);
    lemma_number(values, "summary_ack_revision"@, u64::MAX as nat);
    assert(revisions(
        values,
        number(f, "summary_pending_revision"@) as int,
        number(f, "summary_ack_revision"@) as int,
    ));
}

/// Whether nothing is stored of a run, or that it is open.
pub open spec fn goes_on(values: Seq<Seq<char>>) -> bool {
    values.len() == 0 || (values.len() % 2 == 0 && stored(values, "status"@, "open"@))
}

pub(crate) proof fn lemma_goes_on(values: Seq<Seq<char>>)
    ensures
        goes_on(values) <==> is_open(values),
{
    if values.len() % 2 == 0 {
        lemma_fields(values, "status"@);
    }
}

/// A run that goes on has no summary; one that has ended has the summary that is stored
/// of it.
pub proof fn law_durable_summary(
    values: Vec<String>,
    operation: &'static str,
    r: Result<Option<DurableRunSummary>, RunAggregationStoreError>,
)
    requires
        call_ensures(durable_summary_from_snapshot, (&values, operation), r),
    ensures
        (r matches Ok(found) && found is None) <==> goes_on(views(values@)),
        r matches Ok(Some(d)) ==> stands(views(values@), d),
{
    lemma_goes_on(views(values@));
    if r is Ok && r->Ok_0 is Some {
        lemma_stands(views(values@), r->Ok_0->0);
    }
}

} // verus!
