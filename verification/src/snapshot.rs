//! Run summaries read back from the fields that the aggregation store keeps of a
//! run.
use std::collections::HashSet;
use vstd::prelude::*;
use crate::contracts::{
    ContractError, DurableRunSummary, ErrorCount, LatencyBucket, ScenarioRunSummary,
    ScenarioRunSummaryStatus,
};
#[allow(unused_imports)]
use crate::contracts::error_pairs;
use crate::ordered::TextMap;
#[allow(unused_imports)]
use crate::ordered::{increasing, lemma_increasing_no_duplicates, lemma_increasing_unique};
use crate::quantile::{histogram_quantile, Quantile};
#[allow(unused_imports)]
use crate::quantile::{count_sum, is_quantile, lemma_count_sum_prefix};
use crate::text::{
    concat2, concat3, concat5, copy_str, decimal_u64, parse_u32, parse_u64, parse_unsigned,
    parse_usize, split, str_eq, str_is_empty, strip_prefix,
};
#[allow(unused_imports)]
use crate::text::{
    decimal, digits_value, lemma_text_less_prefix, parsed_unsigned, split_on, starts, text_less,
    views, without_plus,
};

verus! {

/// Why an aggregation operation failed.
#[derive(Debug, PartialEq, Eq)]
pub enum RunAggregationStoreError {
    Unavailable { operation: &'static str, message: String },
    Timeout { operation: &'static str },
    InvalidState { operation: &'static str, message: String },
    InconsistentResult { message: String },
    ErrorKindCapacity { max_error_kinds: usize },
    ActiveRunCapacity { max_active_runs: usize },
    Contract(ContractError),
}

impl RunAggregationStoreError {
    /// Whether this is the invalid state of an operation with a message.
    pub open spec fn is_invalid_state(self, operation: Seq<char>, message: Seq<char>) -> bool {
        self matches RunAggregationStoreError::InvalidState { operation: o, message: m } && o@
            == operation && m@ == message
    }
}

/// The invalid state of an operation, with a message.
pub fn invalid_state(operation: &'static str, message: &str) -> (e: RunAggregationStoreError)
    ensures
        e.is_invalid_state(operation@, message@),
{
    RunAggregationStoreError::InvalidState { operation, message: copy_str(message) }
}

/// The fields of a run: texts by name.
pub type Fields = Map<Seq<char>, Seq<char>>;

/// The fields that a flat list of names and values denotes; a later value of a
/// name stands in place of an earlier one.
pub open spec fn fields_of(values: Seq<Seq<char>>) -> Fields
    decreases values.len(),
{
    if values.len() < 2 {
        Map::empty()
    } else {
        fields_of(values.take(values.len() - 2)).insert(
            values[values.len() - 2],
            values[values.len() - 1],
        )
    }
}

/// The fields that a map of strings holds.
pub open spec fn texts(map: Map<Seq<char>, String>) -> Fields {
    Map::new(|k: Seq<char>| map.dom().contains(k), |k: Seq<char>| map[k]@)
}

/// The message of a list with a name that has no value.
pub open spec fn odd_message() -> Seq<char> {
    "Redis aggregation snapshot has an odd field count"@
}

/// Reads the fields of a run from a flat list of names and values.
pub fn snapshot_map(values: &Vec<String>, operation: &'static str) -> (r: Result<
    TextMap<String>,
    RunAggregationStoreError,
>)
    ensures
        match r {
            Ok(map) => {
                &&& values@.len() % 2 == 0
                &&& map.wf()
                &&& texts(map@) == fields_of(views(values@))
            },
            Err(e) => values@.len() % 2 != 0 && e.is_invalid_state(operation@, odd_message()),
        },
{
    if values.len() % 2 != 0 {
        return Err(invalid_state(operation, "Redis aggregation snapshot has an odd field count"));
    }
    let mut map: TextMap<String> = TextMap::new();
    let mut i: usize = 0;
    assert(texts(map@) =~= fields_of(views(values@).take(0)));
    while i < values.len()
        invariant
            i <= values@.len(),
            i % 2 == 0,
            values@.len() % 2 == 0,
            map.wf(),
            texts(map@) == fields_of(views(values@).take(i as int)),
        decreases values@.len() - i,
    {
        let ghost before = map@;
        let key = values[i].clone();
        let value = values[i + 1].clone();
        map.insert(key, value);
        proof {
            let next = views(values@).take(i + 2);
            assert(next.take(next.len() - 2) == views(values@).take(i as int));
            assert(next[next.len() - 2] == key@);
            assert(next[next.len() - 1] == value@);
            assert(texts(map@) =~= texts(before).insert(key@, value@));
        }
        i += 2;
    }
    assert(views(values@).take(i as int) == views(values@));
    Ok(map)
}

/// The message of a field that is not there.
pub open spec fn missing_message(field: Seq<char>) -> Seq<char> {
    "aggregation field '"@ + field + "' is missing"@
}

/// The message of a field that holds no number of its range.
pub open spec fn invalid_message(field: Seq<char>) -> Seq<char> {
    "aggregation field '"@ + field + "' is invalid"@
}

/// What is wrong with a field that must be there.
pub open spec fn text_error(f: Fields, field: Seq<char>) -> Option<Seq<char>> {
    if f.dom().contains(field) {
        None
    } else {
        Some(missing_message(field))
    }
}

/// What is wrong with a field that must hold a number of at most `max`.
pub open spec fn number_error(f: Fields, field: Seq<char>, max: nat) -> Option<Seq<char>> {
    if !f.dom().contains(field) {
        Some(missing_message(field))
    } else if parsed_unsigned(f[field], max) is None {
        Some(invalid_message(field))
    } else {
        None
    }
}

/// The number that a field holds.
pub open spec fn number(f: Fields, field: Seq<char>) -> nat {
    digits_value(without_plus(f[field]))
}

/// The text of a field that must be there.
pub fn required<'a>(snapshot: &'a TextMap<String>, field: &'static str, operation: &'static str) -> (r:
    Result<&'a str, RunAggregationStoreError>)
    requires
        snapshot.wf(),
    ensures
        match r {
            Ok(text) => text_error(texts(snapshot@), field@) is None && text@ == texts(
                snapshot@,
            )[field@],
            Err(e) => text_error(texts(snapshot@), field@) matches Some(m) && e.is_invalid_state(
                operation@,
                m,
            ),
        },
{
    match snapshot.get(field) {
        Some(text) => Ok(text.as_str()),
        None => Err(
            invalid_state(operation, &concat3("aggregation field '", field, "' is missing")),
        ),
    }
}

/// The number of a field that must hold one of at most `max`.
pub fn parse_field(
    snapshot: &TextMap<String>,
    field: &'static str,
    max: u128,
    operation: &'static str,
) -> (r: Result<u128, RunAggregationStoreError>)
    requires
        snapshot.wf(),
    ensures
        match r {
            Ok(n) => {
                &&& number_error(texts(snapshot@), field@, max as nat) is None
                &&& n == number(texts(snapshot@), field@)
                &&& n <= max
            },
            Err(e) => number_error(texts(snapshot@), field@, max as nat) matches Some(m)
                && e.is_invalid_state(operation@, m),
        },
{
    match required(snapshot, field, operation) {
        Err(e) => Err(e),
        Ok(text) => match parse_unsigned(text, max) {
            Some(n) => Ok(n),
            None => Err(
                invalid_state(operation, &concat3("aggregation field '", field, "' is invalid")),
            ),
        },
    }
}

// ---------------------------------------------------------------------------
// Status
// ---------------------------------------------------------------------------

/// The final status that a stored label denotes.
pub open spec fn final_status(label: Seq<char>) -> Option<ScenarioRunSummaryStatus> {
    if label == "partial"@ {
        Some(ScenarioRunSummaryStatus::Partial)
    } else if label == "timed_out"@ {
        Some(ScenarioRunSummaryStatus::TimedOut)
    } else if label == "cancelled"@ {
        Some(ScenarioRunSummaryStatus::Cancelled)
    } else if label == "complete"@ {
        Some(ScenarioRunSummaryStatus::Complete)
    } else {
        None
    }
}

/// The final status that a stored label denotes.
fn read_final_status(label: &str) -> (r: Option<ScenarioRunSummaryStatus>)
    ensures
        r == final_status(label@),
{
    if str_eq(label, "partial") {
        Some(ScenarioRunSummaryStatus::Partial)
    } else if str_eq(label, "timed_out") {
        Some(ScenarioRunSummaryStatus::TimedOut)
    } else if str_eq(label, "cancelled") {
        Some(ScenarioRunSummaryStatus::Cancelled)
    } else if str_eq(label, "complete") {
        Some(ScenarioRunSummaryStatus::Complete)
    } else {
        None
    }
}

/// What is wrong with the status of a run that should have ended.
pub open spec fn status_error(f: Fields) -> Option<Seq<char>> {
    if !f.dom().contains("status"@) {
        Some(missing_message("status"@))
    } else if final_status(f["status"@]) is None {
        Some("cannot build a final summary from status '"@ + f["status"@] + "'"@)
    } else {
        None
    }
}

/// What is wrong with the two slice counts of a run that has ended so.
pub open spec fn counts_error(status: ScenarioRunSummaryStatus, expected: nat, received: nat) -> Option<
    Seq<char>,
> {
    if received > expected {
        Some("received slice count exceeds expected slice count"@)
    } else if status is Complete && received != expected {
        Some("complete aggregation does not contain every expected slice"@)
    } else if !(status is Complete) && received == expected {
        Some("incomplete aggregation status contains every expected slice"@)
    } else {
        None
    }
}

/// What is wrong with the status and the slice counts.
pub open spec fn head_error(f: Fields) -> Option<Seq<char>> {
    if status_error(f) is Some {
        status_error(f)
    } else if number_error(f, "expected_slices"@, u32::MAX as nat) is Some {
        number_error(f, "expected_slices"@, u32::MAX as nat)
    } else if number_error(f, "received_slices"@, u32::MAX as nat) is Some {
        number_error(f, "received_slices"@, u32::MAX as nat)
    } else {
        counts_error(
            final_status(f["status"@])->0,
            number(f, "expected_slices"@),
            number(f, "received_slices"@),
        )
    }
}

fn read_head(snapshot: &TextMap<String>, operation: &'static str) -> (r: Result<
    (ScenarioRunSummaryStatus, u32, u32),
    RunAggregationStoreError,
>)
    requires
        snapshot.wf(),
    ensures
        ({
            let f = texts(snapshot@);
            match r {
                Ok((status, expected, received)) => {
                    &&& head_error(f) is None
                    &&& final_status(f["status"@]) == Some(status)
                    &&& expected == number(f, "expected_slices"@)
                    &&& received == number(f, "received_slices"@)
                },
                Err(e) => head_error(f) matches Some(m) && e.is_invalid_state(operation@, m),
            }
        }),
{
    let label = required(snapshot, "status", operation)?;
    let status = match read_final_status(label) {
        Some(status) => status,
        None => {
            return Err(
                invalid_state(
                    operation,
                    &concat3("cannot build a final summary from status '", label, "'"),
                ),
            );
        },
    };
    let expected: u32 = parse_field(snapshot, "expected_slices", u32::MAX as u128, operation)? as u32;
    let received: u32 = parse_field(snapshot, "received_slices", u32::MAX as u128, operation)? as u32;
    if received > expected {
        return Err(invalid_state(operation, "received slice count exceeds expected slice count"));
    }
    if status == ScenarioRunSummaryStatus::Complete {
        if received != expected {
            return Err(
                invalid_state(
                    operation,
                    "complete aggregation does not contain every expected slice",
                ),
            );
        }
    } else if received == expected {
        return Err(
            invalid_state(operation, "incomplete aggregation status contains every expected slice"),
        );
    }
    Ok((status, expected, received))
}

// ---------------------------------------------------------------------------
// Slices
// ---------------------------------------------------------------------------

/// Whether a field records a received slice.
pub open spec fn is_slice_field(field: Seq<char>) -> bool {
    starts(field, "slice:"@)
}

/// The slice index that the name of a slice field holds.
pub open spec fn slice_index(field: Seq<char>) -> Option<nat> {
    parsed_unsigned(field.skip("slice:"@.len() as int), u32::MAX as nat)
}

/// The received slices.
pub open spec fn slice_indexes(f: Fields) -> Set<u32> {
    Set::new(
        |n: u32|
            exists|k: Seq<char>| #[trigger]
                f.dom().contains(k) && is_slice_field(k) && slice_index(k) == Some(n as nat),
    )
}

/// What is wrong with the slice fields.
pub open spec fn slices_error(f: Fields, expected: nat, received: nat) -> Option<Seq<char>> {
    if exists|k: Seq<char>| #[trigger]
        f.dom().contains(k) && is_slice_field(k) && slice_index(k) is None {
        Some("stored slice index is not an unsigned integer"@)
    } else if exists|k: Seq<char>| #[trigger]
        f.dom().contains(k) && is_slice_field(k) && slice_index(k)->0 >= expected {
        Some("stored slice index exceeds expected slice count"@)
    } else if slice_indexes(f).len() != received {
        Some("stored received-slice count does not match slice identities"@)
    } else {
        None
    }
}

/// The slices below `expected` that are not among the received ones, in order.
pub open spec fn missing_slices(expected: nat, received: Set<u32>) -> Seq<u32>
    decreases expected,
{
    if expected == 0 {
        Seq::empty()
    } else {
        let n = (expected - 1) as u32;
        let before = missing_slices((expected - 1) as nat, received);
        if received.contains(n) {
            before
        } else {
            before.push(n)
        }
    }
}

proof fn lemma_missing_members(expected: nat, received: Set<u32>)
    requires
        expected <= u32::MAX,
    ensures
        forall|n: u32| #[trigger]
            missing_slices(expected, received).contains(n) <==> n < expected && !received.contains(n),
        missing_slices(expected, received).no_duplicates(),
    decreases expected,
{
    if expected > 0 {
        let last = (expected - 1) as u32;
        let before = missing_slices((expected - 1) as nat, received);
        lemma_missing_members((expected - 1) as nat, received);
        if !received.contains(last) {
            assert forall|n: u32| #[trigger] before.push(last).contains(n) <==> n < expected
                && !received.contains(n) by {
                if before.contains(n) {
                    assert(before.push(last)[before.index_of(n)] == n);
                }
                if n == last {
                    assert(before.push(last)[before.len() as int] == n);
                }
                if before.push(last).contains(n) && n != last {
                    let i = before.push(last).index_of(n);
                    assert(before[i] == n);
                }
            }
            assert(!before.contains(last));
        }
    }
}

/// Every slice of a run is either among the received ones or among the missing
/// ones, and no slice is missing twice.
pub proof fn lemma_slices_partition(expected: nat, received: Set<u32>)
    requires
        expected <= u32::MAX,
        received.finite(),
        forall|n: u32| received.contains(n) ==> n < expected,
    ensures
        forall|n: u32|
            n < expected ==> (received.contains(n) <==> !missing_slices(expected, received).contains(n)),
        missing_slices(expected, received).len() + received.len() == expected,
{
    lemma_missing_members(expected, received);
    let missing = missing_slices(expected, received);
    missing.unique_seq_to_set();
    let all = Set::new(|n: u32| n < expected);
    assert(all =~= missing.to_set().union(received));
    vstd::set_lib::lemma_set_disjoint_lens(missing.to_set(), received);
    lemma_range_len(expected);
}

pub(crate) proof fn lemma_range_len(n: nat)
    requires
        n <= u32::MAX,
    ensures
        Set::new(|k: u32| k < n).finite(),
        Set::new(|k: u32| k < n).len() == n,
    decreases n,
{
    if n == 0 {
        assert(Set::new(|k: u32| k < n) =~= Set::<u32>::empty());
    } else {
        lemma_range_len((n - 1) as nat);
        let less = Set::new(|k: u32| k < (n - 1) as nat);
        assert(Set::new(|k: u32| k < n) =~= less.insert((n - 1) as u32));
    }
}

fn read_slices(
    snapshot: &TextMap<String>,
    expected: u32,
    received: u32,
    operation: &'static str,
) -> (r: Result<Vec<u32>, RunAggregationStoreError>)
    requires
        snapshot.wf(),
    ensures
        ({
            let f = texts(snapshot@);
            match r {
                Ok(missing) => {
                    &&& slices_error(f, expected as nat, received as nat) is None
                    &&& missing@ == missing_slices(expected as nat, slice_indexes(f))
                },
                Err(e) => slices_error(f, expected as nat, received as nat) matches Some(m)
                    && e.is_invalid_state(operation@, m),
            }
        }),
{
    broadcast use vstd::std_specs::hash::group_hash_axioms;

    let ghost f = texts(snapshot@);
    let mut seen: HashSet<u32> = HashSet::new();
    let mut beyond: bool = false;
    let mut i: usize = 0;
    let count: usize = snapshot.len();
    while i < count
        invariant
            snapshot.wf(),
            count == snapshot.keys().len(),
            i <= count,
            f == texts(snapshot@),
            forall|j: int|
                0 <= j < i && is_slice_field(#[trigger] snapshot.keys()[j]) ==> slice_index(
                    snapshot.keys()[j],
                ) is Some,
            beyond <==> exists|j: int|
                0 <= j < i && is_slice_field(#[trigger] snapshot.keys()[j]) && slice_index(
                    snapshot.keys()[j],
                )->0 >= expected,
            seen@.finite(),
            forall|n: u32| #[trigger]
                seen@.contains(n) <==> exists|j: int|
                    0 <= j < i && is_slice_field(#[trigger] snapshot.keys()[j]) && slice_index(
                        snapshot.keys()[j],
                    ) == Some(n as nat),
        decreases count - i,
    {
        let key = snapshot.key_at(i);
        proof {
            snapshot.lemma_entry(i as int);
            assert(f.dom().contains(key@));
        }
        match strip_prefix(key, "slice:") {
            Some(rest) => {
                match parse_u32(&rest) {
                    Some(index) => {
                        if index >= expected {
                            beyond = true;
                        }
                        let ghost before = seen@;
                        seen.insert(index);
                        assert forall|n: u32| #[trigger] seen@.contains(n) implies exists|j: int|
                            0 <= j < i + 1 && is_slice_field(#[trigger] snapshot.keys()[j])
                                && slice_index(snapshot.keys()[j]) == Some(n as nat) by {
                            if n == index {
                                assert(is_slice_field(snapshot.keys()[i as int]));
                            } else {
                                assert(before.contains(n));
                            }
                        }
                    },
                    None => {
                        return Err(
                            invalid_state(
                                operation,
                                "stored slice index is not an unsigned integer",
                            ),
                        );
                    },
                }
            },
            None => {},
        }
        i += 1;
    }
    proof {
        assert forall|k: Seq<char>| #[trigger] f.dom().contains(k) implies exists|j: int|
            0 <= j < count && snapshot.keys()[j] == k by {
            assert(snapshot.keys().contains(k));
        }
        assert forall|j: int| 0 <= j < count implies f.dom().contains(
            #[trigger] snapshot.keys()[j],
        ) by {
            snapshot.lemma_entry(j);
        }
        assert(seen@ =~= slice_indexes(f));
    }
    if beyond {
        return Err(invalid_state(operation, "stored slice index exceeds expected slice count"));
    }
    if seen.len() != received as usize {
        return Err(
            invalid_state(
                operation,
                "stored received-slice count does not match slice identities",
            ),
        );
    }
    let mut missing: Vec<u32> = Vec::new();
    let mut n: u32 = 0;
    while n < expected
        invariant
            n <= expected,
            missing@ == missing_slices(n as nat, seen@),
        decreases expected - n,
    {
        if !seen.contains(&n) {
            missing.push(n);
        }
        n += 1;
    }
    Ok(missing)
}

// ---------------------------------------------------------------------------
// Latency histogram
// ---------------------------------------------------------------------------

/// The name of the field that counts the bucket at place `i`.
pub open spec fn bucket_field(i: nat) -> Seq<char> {
    "latency:"@ + decimal(i)
}

/// The bucket at place `before.len()`, whose bound the text `bound` gives, after
/// the buckets `before`.
pub open spec fn bucket_after(f: Fields, before: Seq<LatencyBucket>, bound: Seq<char>) -> Result<
    LatencyBucket,
    Seq<char>,
> {
    let field = bucket_field(before.len());
    match parsed_unsigned(bound, u64::MAX as nat) {
        None => Err("stored latency histogram bound is invalid"@),
        Some(upper) => if before.len() > 0 && upper <= before.last().upper_bound_ms {
            Err("stored latency histogram bounds are not strictly increasing"@)
        } else if !f.dom().contains(field) {
            Err("latency bucket count is missing"@)
        } else {
            match parsed_unsigned(f[field], u64::MAX as nat) {
                None => Err("latency bucket count is invalid"@),
                Some(count) => Ok(
                    LatencyBucket { upper_bound_ms: upper as u64, count: count as u64 },
                ),
            }
        },
    }
}

/// The buckets whose bounds the texts give, or what is wrong with the first that
/// cannot be read.
pub open spec fn buckets_of(f: Fields, bounds: Seq<Seq<char>>) -> Result<
    Seq<LatencyBucket>,
    Seq<char>,
>
    decreases bounds.len(),
{
    if bounds.len() == 0 {
        Ok(Seq::empty())
    } else {
        match buckets_of(f, bounds.drop_last()) {
            Err(m) => Err(m),
            Ok(before) => match bucket_after(f, before, bounds.last()) {
                Err(m) => Err(m),
                Ok(bucket) => Ok(before.push(bucket)),
            },
        }
    }
}

/// The stored histogram: its bounds stand in one field, separated by commas.
pub open spec fn histogram_of(f: Fields) -> Result<Seq<LatencyBucket>, Seq<char>> {
    if !f.dom().contains("histogram_bounds"@) {
        Err(missing_message("histogram_bounds"@))
    } else if f["histogram_bounds"@].len() == 0 {
        Ok(Seq::empty())
    } else {
        buckets_of(f, split_on(f["histogram_bounds"@], ','))
    }
}

proof fn lemma_buckets_fail(f: Fields, bounds: Seq<Seq<char>>, k: int)
    requires
        0 <= k <= bounds.len(),
        buckets_of(f, bounds.take(k)) is Err,
    ensures
        buckets_of(f, bounds) == buckets_of(f, bounds.take(k)),
    decreases bounds.len(),
{
    if k == bounds.len() {
        assert(bounds.take(k) == bounds);
    } else {
        assert(bounds.drop_last().take(k) == bounds.take(k));
        lemma_buckets_fail(f, bounds.drop_last(), k);
    }
}

proof fn lemma_buckets_increase(f: Fields, bounds: Seq<Seq<char>>)
    requires
        buckets_of(f, bounds) is Ok,
    ensures
        forall|i: int, j: int|
            #![auto]
            0 <= i < j < buckets_of(f, bounds)->Ok_0.len() ==> buckets_of(
                f,
                bounds,
            )->Ok_0[i].upper_bound_ms < buckets_of(f, bounds)->Ok_0[j].upper_bound_ms,
    decreases bounds.len(),
{
    if bounds.len() > 0 {
        lemma_buckets_increase(f, bounds.drop_last());
    }
}

/// The bounds of a histogram that can be read grow from bucket to bucket.
pub proof fn lemma_histogram_bounds_increase(f: Fields, i: int, j: int)
    requires
        histogram_of(f) is Ok,
        0 <= i < j < histogram_of(f)->Ok_0.len(),
    ensures
        histogram_of(f)->Ok_0[i].upper_bound_ms < histogram_of(f)->Ok_0[j].upper_bound_ms,
{
    lemma_buckets_increase(f, split_on(f["histogram_bounds"@], ','));
}

/// Reads the bucket after those read before.
fn read_bucket(
    snapshot: &TextMap<String>,
    before: &Vec<LatencyBucket>,
    bound: &str,
    operation: &'static str,
) -> (r: Result<LatencyBucket, RunAggregationStoreError>)
    requires
        snapshot.wf(),
    ensures
        match r {
            Ok(bucket) => bucket_after(texts(snapshot@), before@, bound@) == Ok::<_, Seq<char>>(
                bucket,
            ),
            Err(e) => bucket_after(texts(snapshot@), before@, bound@) matches Err(m)
                && e.is_invalid_state(operation@, m),
        },
{
    let upper_bound_ms: u64 = match parse_u64(bound) {
        Some(n) => n,
        None => {
            return Err(invalid_state(operation, "stored latency histogram bound is invalid"));
        },
    };
    if before.len() > 0 && upper_bound_ms <= before[before.len() - 1].upper_bound_ms {
        return Err(
            invalid_state(operation, "stored latency histogram bounds are not strictly increasing"),
        );
    }
    let field = concat2("latency:", &decimal_u64(before.len() as u64));
    match snapshot.get(&field) {
        None => Err(invalid_state(operation, "latency bucket count is missing")),
        Some(text) => match parse_u64(text) {
            None => Err(invalid_state(operation, "latency bucket count is invalid")),
            Some(count) => Ok(LatencyBucket { upper_bound_ms, count }),
        },
    }
}

fn read_histogram(snapshot: &TextMap<String>, operation: &'static str) -> (r: Result<
    Vec<LatencyBucket>,
    RunAggregationStoreError,
>)
    requires
        snapshot.wf(),
    ensures
        match r {
            Ok(buckets) => histogram_of(texts(snapshot@)) == Ok::<_, Seq<char>>(buckets@),
            Err(e) => histogram_of(texts(snapshot@)) matches Err(m) && e.is_invalid_state(
                operation@,
                m,
            ),
        },
{
    let ghost f = texts(snapshot@);
    let bounds = required(snapshot, "histogram_bounds", operation)?;
    let mut buckets: Vec<LatencyBucket> = Vec::new();
    if str_is_empty(bounds) {
        return Ok(buckets);
    }
    let parts = split(bounds, ',');
    let ghost all = views(parts@);
    let mut i: usize = 0;
    assert(all.take(0) == Seq::<Seq<char>>::empty());
    while i < parts.len()
        invariant
            snapshot.wf(),
            f == texts(snapshot@),
            all == views(parts@),
            all == split_on(f["histogram_bounds"@], ','),
            f.dom().contains("histogram_bounds"@),
            f["histogram_bounds"@].len() != 0,
            i <= parts@.len(),
            buckets_of(f, all.take(i as int)) == Ok::<_, Seq<char>>(buckets@),
            buckets@.len() == i,
        decreases parts@.len() - i,
    {
        proof {
            assert(all.take(i + 1).drop_last() == all.take(i as int));
            assert(all.take(i + 1).last() == parts@[i as int]@);
        }
        match read_bucket(snapshot, &buckets, &parts[i], operation) {
            Ok(bucket) => {
                buckets.push(bucket);
            },
            Err(e) => {
                proof {
                    lemma_buckets_fail(f, all, i + 1);
                }
                return Err(e);
            },
        }
        i += 1;
    }
    assert(all.take(i as int) == all);
    Ok(buckets)
}

// ---------------------------------------------------------------------------
// Error breakdown
// ---------------------------------------------------------------------------

/// The field that counts the errors of a kind.
pub open spec fn error_field(kind: Seq<char>) -> Seq<char> {
    "error:"@ + kind
}

/// The kinds that the fields count.
pub open spec fn error_kinds(f: Fields) -> Set<Seq<char>> {
    Set::new(|kind: Seq<char>| f.dom().contains(error_field(kind)))
}

/// What is wrong with the error counts.
pub open spec fn errors_error(f: Fields) -> Option<Seq<char>> {
    if exists|kind: Seq<char>| #[trigger]
        error_kinds(f).contains(kind) && parsed_unsigned(f[error_field(kind)], u64::MAX as nat)
            is None {
        Some("stored error count is invalid"@)
    } else if number_error(f, "error_kind_count"@, usize::MAX as nat) is Some {
        number_error(f, "error_kind_count"@, usize::MAX as nat)
    } else if error_kinds(f).len() != number(f, "error_kind_count"@) {
        Some("stored error-kind count does not match error fields"@)
    } else {
        None
    }
}

/// The kinds of an error breakdown.
pub open spec fn kinds(pairs: Seq<(Seq<char>, u64)>) -> Seq<Seq<char>> {
    pairs.map_values(|p: (Seq<char>, u64)| p.0)
}

/// Whether these are the counted kinds, each once and in order, with their counts.
pub open spec fn is_error_breakdown(f: Fields, pairs: Seq<(Seq<char>, u64)>) -> bool {
    &&& increasing(kinds(pairs))
    &&& forall|kind: Seq<char>| #[trigger] kinds(pairs).contains(kind) <==> error_kinds(f).contains(kind)
    &&& forall|i: int|
        0 <= i < pairs.len() ==> parsed_unsigned(
            f[error_field(#[trigger] pairs[i].0)],
            u64::MAX as nat,
        ) == Some(pairs[i].1 as nat)
}

/// The fields determine the error breakdown.
pub proof fn lemma_error_breakdown_unique(
    f: Fields,
    a: Seq<(Seq<char>, u64)>,
    b: Seq<(Seq<char>, u64)>,
)
    requires
        is_error_breakdown(f, a),
        is_error_breakdown(f, b),
    ensures
        a == b,
{
    lemma_increasing_unique(kinds(a), kinds(b));
    assert(a.len() == kinds(a).len() && b.len() == kinds(b).len());
    assert forall|i: int| 0 <= i < a.len() implies a[i] == b[i] by {
        assert(kinds(a)[i] == a[i].0);
        assert(kinds(b)[i] == b[i].0);
    }
    assert(a =~= b);
}

proof fn lemma_error_field_strip(field: Seq<char>)
    requires
        starts(field, "error:"@),
    ensures
        field == error_field(field.skip("error:"@.len() as int)),
{
    assert(field =~= error_field(field.skip("error:"@.len() as int)));
}

proof fn lemma_error_field_starts(kind: Seq<char>)
    ensures
        starts(error_field(kind), "error:"@),
        error_field(kind).skip("error:"@.len() as int) == kind,
{
    assert(error_field(kind).take("error:"@.len() as int) =~= "error:"@);
    assert(error_field(kind).skip("error:"@.len() as int) =~= kind);
}

fn read_errors(snapshot: &TextMap<String>, operation: &'static str) -> (r: Result<
    Vec<ErrorCount>,
    RunAggregationStoreError,
>)
    requires
        snapshot.wf(),
    ensures
        ({
            let f = texts(snapshot@);
            match r {
                Ok(errors) => errors_error(f) is None && is_error_breakdown(f, error_pairs(errors@)),
                Err(e) => errors_error(f) matches Some(m) && e.is_invalid_state(operation@, m),
            }
        }),
{
    let ghost f = texts(snapshot@);
    let mut errors: Vec<ErrorCount> = Vec::new();
    let mut i: usize = 0;
    let count: usize = snapshot.len();
    while i < count
        invariant
            snapshot.wf(),
            count == snapshot.keys().len(),
            i <= count,
            f == texts(snapshot@),
            increasing(kinds(error_pairs(errors@))),
            forall|kind: Seq<char>| #[trigger]
                kinds(error_pairs(errors@)).contains(kind) <==> exists|j: int|
                    0 <= j < i && #[trigger] snapshot.keys()[j] == error_field(kind),
            forall|e: int|
                0 <= e < errors@.len() ==> parsed_unsigned(
                    f[error_field(#[trigger] error_pairs(errors@)[e].0)],
                    u64::MAX as nat,
                ) == Some(error_pairs(errors@)[e].1 as nat),
        decreases count - i,
    {
        let key = snapshot.key_at(i);
        proof {
            snapshot.lemma_entry(i as int);
            assert(f.dom().contains(key@));
        }
        match strip_prefix(key, "error:") {
            Some(kind) => {
                proof {
                    lemma_error_field_strip(key@);
                }
                match parse_u64(snapshot.value_at(i)) {
                    Some(n) => {
                        let ghost before = error_pairs(errors@);
                        let ghost added = kind@;
                        errors.push(ErrorCount { kind, count: n });
                        proof {
                            let after = error_pairs(errors@);
                            assert(after =~= before.push((added, n)));
                            assert(kinds(after) =~= kinds(before).push(added));
                            assert forall|x: Seq<char>| kinds(before).contains(x) implies text_less(
                                x,
                                added,
                            ) by {
                                let j = choose|j: int|
                                    0 <= j < i && #[trigger] snapshot.keys()[j] == error_field(x);
                                assert(text_less(snapshot.keys()[j], snapshot.keys()[i as int]));
                                lemma_text_less_prefix("error:"@, x, added);
                            }
                            assert forall|a: int| 0 <= a < kinds(before).len() implies text_less(
                                #[trigger] kinds(before)[a],
                                added,
                            ) by {
                                assert(kinds(before).contains(kinds(before)[a]));
                            }
                            assert forall|x: Seq<char>| #[trigger] kinds(after).contains(x)
                                <==> exists|j: int|
                                0 <= j < i + 1 && #[trigger] snapshot.keys()[j] == error_field(
                                    x,
                                ) by {
                                if kinds(after).contains(x) {
                                    if x == added {
                                        assert(snapshot.keys()[i as int] == error_field(x));
                                    } else {
                                        let p = kinds(after).index_of(x);
                                        assert(kinds(before)[p] == x);
                                        assert(kinds(before).contains(x));
                                    }
                                }
                                if exists|j: int|
                                    0 <= j < i + 1 && #[trigger] snapshot.keys()[j] == error_field(
                                        x,
                                    ) {
                                    let j = choose|j: int|
                                        0 <= j < i + 1 && #[trigger] snapshot.keys()[j]
                                            == error_field(x);
                                    if j == i {
                                        lemma_error_field_starts(x);
                                        assert(kinds(after)[kinds(before).len() as int] == x);
                                    } else {
                                        assert(kinds(before).contains(x));
                                        let p = kinds(before).index_of(x);
                                        assert(kinds(after)[p] == x);
                                    }
                                }
                            }
                            assert forall|e: int| 0 <= e < errors@.len() implies parsed_unsigned(
                                f[error_field(#[trigger] after[e].0)],
                                u64::MAX as nat,
                            ) == Some(after[e].1 as nat) by {
                                if e < before.len() {
                                    assert(after[e] == before[e]);
                                }
                            }
                        }
                    },
                    None => {
                        proof {
                            assert(error_kinds(f).contains(kind@));
                        }
                        return Err(invalid_state(operation, "stored error count is invalid"));
                    },
                }
            },
            None => {
                proof {
                    assert forall|x: Seq<char>| snapshot.keys()[i as int] != error_field(x) by {
                        lemma_error_field_starts(x);
                    }
                }
            },
        }
        i += 1;
    }
    proof {
        let all = error_pairs(errors@);
        assert forall|kind: Seq<char>| #[trigger] kinds(all).contains(kind) <==> error_kinds(
            f,
        ).contains(kind) by {
            if error_kinds(f).contains(kind) {
                assert(snapshot.keys().contains(error_field(kind)));
                let j = snapshot.keys().index_of(error_field(kind));
                assert(snapshot.keys()[j] == error_field(kind));
            }
            if kinds(all).contains(kind) {
                let j = choose|j: int|
                    0 <= j < count && #[trigger] snapshot.keys()[j] == error_field(kind);
                snapshot.lemma_entry(j);
            }
        }
        assert(is_error_breakdown(f, all));
        lemma_increasing_no_duplicates(kinds(all));
        assert(kinds(all).to_set() =~= error_kinds(f));
        assert forall|kind: Seq<char>| #[trigger] error_kinds(f).contains(
            kind,
        ) implies parsed_unsigned(f[error_field(kind)], u64::MAX as nat) is Some by {
            assert(kinds(all).contains(kind));
            let p = kinds(all).index_of(kind);
            assert(all[p].0 == kind);
        }
    }
    let stored: usize = parse_field(snapshot, "error_kind_count", usize::MAX as u128, operation)?
        as usize;
    if errors.len() != stored {
        return Err(invalid_state(operation, "stored error-kind count does not match error fields"));
    }
    Ok(errors)
}

// ---------------------------------------------------------------------------
// Totals
// ---------------------------------------------------------------------------

/// What is wrong with the three execution counts and the histogram's.
pub open spec fn totals_error(f: Fields, histogram: Seq<LatencyBucket>) -> Option<Seq<char>> {
    if number_error(f, "total"@, u64::MAX as nat) is Some {
        number_error(f, "total"@, u64::MAX as nat)
    } else if number_error(f, "success"@, u64::MAX as nat) is Some {
        number_error(f, "success"@, u64::MAX as nat)
    } else if number_error(f, "failure"@, u64::MAX as nat) is Some {
        number_error(f, "failure"@, u64::MAX as nat)
    } else if number(f, "success"@) + number(f, "failure"@) != number(f, "total"@) {
        Some("stored success and failure counts do not equal total"@)
    } else if count_sum(histogram) > u64::MAX {
        Some("stored latency histogram count overflowed"@)
    } else if histogram.len() > 0 && count_sum(histogram) != number(f, "total"@) {
        Some("stored latency histogram count does not equal total"@)
    } else {
        None
    }
}

fn read_totals(
    snapshot: &TextMap<String>,
    histogram: &Vec<LatencyBucket>,
    operation: &'static str,
) -> (r: Result<(u64, u64, u64), RunAggregationStoreError>)
    requires
        snapshot.wf(),
    ensures
        ({
            let f = texts(snapshot@);
            match r {
                Ok((total, success, failure)) => {
                    &&& totals_error(f, histogram@) is None
                    &&& total == number(f, "total"@)
                    &&& success == number(f, "success"@)
                    &&& failure == number(f, "failure"@)
                },
                Err(e) => totals_error(f, histogram@) matches Some(m) && e.is_invalid_state(
                    operation@,
                    m,
                ),
            }
        }),
{
    let total: u64 = parse_field(snapshot, "total", u64::MAX as u128, operation)? as u64;
    let success: u64 = parse_field(snapshot, "success", u64::MAX as u128, operation)? as u64;
    let failure: u64 = parse_field(snapshot, "failure", u64::MAX as u128, operation)? as u64;
    if success.checked_add(failure) != Some(total) {
        return Err(
            invalid_state(operation, "stored success and failure counts do not equal total"),
        );
    }
    let mut counted: u64 = 0;
    let mut i: usize = 0;
    while i < histogram.len()
        invariant
            i <= histogram@.len(),
            counted == count_sum(histogram@.take(i as int)),
            totals_error(texts(snapshot@), histogram@) is None || count_sum(histogram@) > u64::MAX
                || (histogram@.len() > 0 && count_sum(histogram@) != total),
            number_error(texts(snapshot@), "total"@, u64::MAX as nat) is None,
            number_error(texts(snapshot@), "success"@, u64::MAX as nat) is None,
            number_error(texts(snapshot@), "failure"@, u64::MAX as nat) is None,
            total == number(texts(snapshot@), "total"@),
            number(texts(snapshot@), "success"@) + number(texts(snapshot@), "failure"@) == total,
        decreases histogram@.len() - i,
    {
        proof {
            assert(histogram@.take(i + 1).drop_last() == histogram@.take(i as int));
            lemma_count_sum_prefix(histogram@, i + 1);
        }
        match counted.checked_add(histogram[i].count) {
            Some(sum) => {
                counted = sum;
            },
            None => {
                return Err(invalid_state(operation, "stored latency histogram count overflowed"));
            },
        }
        i += 1;
    }
    assert(histogram@.take(i as int) == histogram@);
    if histogram.len() > 0 && counted != total {
        return Err(
            invalid_state(operation, "stored latency histogram count does not equal total"),
        );
    }
    Ok((total, success, failure))
}

// ---------------------------------------------------------------------------
// Summary
// ---------------------------------------------------------------------------

/// What is wrong with the fields that a summary takes over as they are.
pub open spec fn tail_error(f: Fields) -> Option<Seq<char>> {
    if number_error(f, "schema_version"@, u16::MAX as nat) is Some {
        number_error(f, "schema_version"@, u16::MAX as nat)
    } else if text_error(f, "scenario_id"@) is Some {
        text_error(f, "scenario_id"@)
    } else if text_error(f, "run_id"@) is Some {
        text_error(f, "run_id"@)
    } else if number_error(f, "first_result_at"@, u128::MAX as nat) is Some {
        number_error(f, "first_result_at"@, u128::MAX as nat)
    } else {
        number_error(f, "finalized_at"@, u128::MAX as nat)
    }
}

/// Why the fields give no summary: the first rule that they break.
pub open spec fn summary_error(f: Fields) -> Option<Seq<char>> {
    if head_error(f) is Some {
        head_error(f)
    } else if slices_error(f, number(f, "expected_slices"@), number(f, "received_slices"@)) is Some {
        slices_error(f, number(f, "expected_slices"@), number(f, "received_slices"@))
    } else {
        match histogram_of(f) {
            Err(m) => Some(m),
            Ok(histogram) => if errors_error(f) is Some {
                errors_error(f)
            } else if totals_error(f, histogram) is Some {
                totals_error(f, histogram)
            } else {
                tail_error(f)
            },
        }
    }
}

/// Whether `s` is the summary of the fields.
pub open spec fn is_summary(f: Fields, s: ScenarioRunSummary) -> bool {
    &&& s.schema_version == number(f, "schema_version"@)
    &&& s.scenario_id@ == f["scenario_id"@]
    &&& s.run_id@ == f["run_id"@]
    &&& final_status(f["status"@]) == Some(s.status)
    &&& s.expected_slices == number(f, "expected_slices"@)
    &&& s.received_slices == number(f, "received_slices"@)
    &&& s.missing_slices@ == missing_slices(number(f, "expected_slices"@), slice_indexes(f))
    &&& s.total == number(f, "total"@)
    &&& s.success == number(f, "success"@)
    &&& s.failure == number(f, "failure"@)
    &&& histogram_of(f) == Ok::<_, Seq<char>>(s.latency_histogram@)
    &&& is_quantile(s.latency_histogram@, Quantile::P50, s.scenario_latency_p50_ms)
    &&& is_quantile(s.latency_histogram@, Quantile::P95, s.scenario_latency_p95_ms)
    &&& is_quantile(s.latency_histogram@, Quantile::P99, s.scenario_latency_p99_ms)
    &&& is_error_breakdown(f, error_pairs(s.error_breakdown@))
    &&& s.first_result_at_unix_ms == number(f, "first_result_at"@)
    &&& s.finalized_at_unix_ms == number(f, "finalized_at"@)
}

/// Reads the summary from fields that are known.
fn read_summary(snapshot: &TextMap<String>, operation: &'static str) -> (r: Result<
    ScenarioRunSummary,
    RunAggregationStoreError,
>)
    requires
        snapshot.wf(),
    ensures
        match r {
            Ok(s) => summary_error(texts(snapshot@)) is None && is_summary(texts(snapshot@), s),
            Err(e) => summary_error(texts(snapshot@)) matches Some(m) && e.is_invalid_state(
                operation@,
                m,
            ),
        },
{
    let (status, expected_slices, received_slices) = read_head(snapshot, operation)?;
    let missing_slices = read_slices(snapshot, expected_slices, received_slices, operation)?;
    let latency_histogram = read_histogram(snapshot, operation)?;
    let error_breakdown = read_errors(snapshot, operation)?;
    let (total, success, failure) = read_totals(snapshot, &latency_histogram, operation)?;
    let schema_version: u16 = parse_field(snapshot, "schema_version", u16::MAX as u128, operation)?
        as u16;
    let scenario_id = copy_str(required(snapshot, "scenario_id", operation)?);
    let run_id = copy_str(required(snapshot, "run_id", operation)?);
    let scenario_latency_p50_ms: u64 = histogram_quantile(&latency_histogram, Quantile::P50);
    let scenario_latency_p95_ms: u64 = histogram_quantile(&latency_histogram, Quantile::P95);
    let scenario_latency_p99_ms: u64 = histogram_quantile(&latency_histogram, Quantile::P99);
    let first_result_at_unix_ms: u128 = parse_field(
        snapshot,
        "first_result_at",
        u128::MAX,
        operation,
    )?;
    let finalized_at_unix_ms: u128 = parse_field(snapshot, "finalized_at", u128::MAX, operation)?;
    Ok(
        ScenarioRunSummary {
            schema_version,
            scenario_id,
            run_id,
            status,
            expected_slices,
            received_slices,
            missing_slices,
            total,
            success,
            failure,
            scenario_latency_p50_ms,
            scenario_latency_p95_ms,
            scenario_latency_p99_ms,
            latency_histogram,
            error_breakdown,
            first_result_at_unix_ms,
            finalized_at_unix_ms,
        },
    )
}

/// Why a flat list of names and values gives no summary.
pub open spec fn snapshot_error(values: Seq<Seq<char>>) -> Option<Seq<char>> {
    if values.len() % 2 != 0 {
        Some(odd_message())
    } else {
        summary_error(fields_of(values))
    }
}

/// The summary of a run that has ended, from the fields that are stored of it.
pub fn summary_from_snapshot(values: &Vec<String>, operation: &'static str) -> (r: Result<
    ScenarioRunSummary,
    RunAggregationStoreError,
>)
    ensures
        match r {
            Ok(s) => snapshot_error(views(values@)) is None && is_summary(
                fields_of(views(values@)),
                s,
            ),
            Err(e) => snapshot_error(views(values@)) matches Some(m) && e.is_invalid_state(
                operation@,
                m,
            ),
        },
{
    let snapshot = snapshot_map(values, operation)?;
    read_summary(&snapshot, operation)
}

// ---------------------------------------------------------------------------
// Publication state and progress
// ---------------------------------------------------------------------------

/// The label of a final status in an event identity.
pub open spec fn status_label(status: ScenarioRunSummaryStatus) -> Seq<char> {
    match status {
        ScenarioRunSummaryStatus::Partial => "partial"@,
        ScenarioRunSummaryStatus::Complete => "complete"@,
        ScenarioRunSummaryStatus::TimedOut => "timed-out"@,
        ScenarioRunSummaryStatus::Cancelled => "cancelled"@,
    }
}

/// The identity of the event that publishes a revision of a summary.
pub open spec fn summary_event_id(
    run_id: Seq<char>,
    revision: nat,
    status: ScenarioRunSummaryStatus,
) -> Seq<char> {
    run_id + ":summary:r"@ + decimal(revision) + ":"@ + status_label(status)
}

/// What is wrong with the stored revisions.
pub open spec fn revisions_error(f: Fields) -> Option<Seq<char>> {
    if number_error(f, "summary_revision"@, u64::MAX as nat) is Some {
        number_error(f, "summary_revision"@, u64::MAX as nat)
    } else if number_error(f, "summary_pending_revision"@, u64::MAX as nat) is Some {
        number_error(f, "summary_pending_revision"@, u64::MAX as nat)
    } else if number_error(f, "summary_ack_revision"@, u64::MAX as nat) is Some {
        number_error(f, "summary_ack_revision"@, u64::MAX as nat)
    } else if number(f, "summary_revision"@) == 0 || number(f, "summary_pending_revision"@)
        > number(f, "summary_revision"@) || number(f, "summary_ack_revision"@) > number(
        f,
        "summary_revision"@,
    ) {
        Some("stored summary publication revisions are inconsistent"@)
    } else {
        None
    }
}

/// Whether the fields are those of a run that has not ended.
pub open spec fn is_open(values: Seq<Seq<char>>) -> bool {
    ||| values.len() == 0
    ||| {
        &&& values.len() % 2 == 0
        &&& fields_of(values).dom().contains("status"@)
        &&& fields_of(values)["status"@] == "open"@
    }
}

/// Why the fields of a run that is not open give no durable summary.
pub open spec fn durable_error(values: Seq<Seq<char>>) -> Option<Seq<char>> {
    let f = fields_of(values);
    if values.len() % 2 != 0 {
        Some(odd_message())
    } else if text_error(f, "status"@) is Some {
        text_error(f, "status"@)
    } else if final_status(f["status"@]) is None {
        Some("aggregation status is invalid"@)
    } else if revisions_error(f) is Some {
        revisions_error(f)
    } else {
        summary_error(f)
    }
}

/// Whether `d` is the durable summary of the fields.
pub open spec fn is_durable(f: Fields, d: DurableRunSummary) -> bool {
    &&& is_summary(f, d.summary)
    &&& d.revision == number(f, "summary_revision"@)
    &&& d.event_id@ == summary_event_id(f["run_id"@], d.revision as nat, d.summary.status)
    &&& d.pending_publication == (number(f, "summary_pending_revision"@) > number(
        f,
        "summary_ack_revision"@,
    ))
}

/// The summary of a run with the state of its publication; none of a run that is
/// open or not there.
pub fn durable_summary_from_snapshot(values: &Vec<String>, operation: &'static str) -> (r: Result<
    Option<DurableRunSummary>,
    RunAggregationStoreError,
>)
    ensures
        match r {
            Ok(None) => is_open(views(values@)),
            Ok(Some(d)) => {
                &&& !is_open(views(values@))
                &&& durable_error(views(values@)) is None
                &&& is_durable(fields_of(views(values@)), d)
            },
            Err(e) => {
                &&& !is_open(views(values@))
                &&& durable_error(views(values@)) matches Some(m) && e.is_invalid_state(
                    operation@,
                    m,
                )
            },
        },
{
    if values.len() == 0 {
        return Ok(None);
    }
    let snapshot = snapshot_map(values, operation)?;
    let label = required(&snapshot, "status", operation)?;
    if str_eq(label, "open") {
        return Ok(None);
    }
    if read_final_status(label).is_none() {
        return Err(invalid_state(operation, "aggregation status is invalid"));
    }
    let revision: u64 = parse_field(&snapshot, "summary_revision", u64::MAX as u128, operation)?
        as u64;
    let pending_revision: u64 = parse_field(
        &snapshot,
        "summary_pending_revision",
        u64::MAX as u128,
        operation,
    )? as u64;
    let acknowledged_revision: u64 = parse_field(
        &snapshot,
        "summary_ack_revision",
        u64::MAX as u128,
        operation,
    )? as u64;
    if revision == 0 || pending_revision > revision || acknowledged_revision > revision {
        return Err(
            invalid_state(operation, "stored summary publication revisions are inconsistent"),
        );
    }
    let summary = read_summary(&snapshot, operation)?;
    let label = match summary.status {
        ScenarioRunSummaryStatus::Partial => "partial",
        ScenarioRunSummaryStatus::Complete => "complete",
        ScenarioRunSummaryStatus::TimedOut => "timed-out",
        ScenarioRunSummaryStatus::Cancelled => "cancelled",
    };
    let event_id = concat5(&summary.run_id, ":summary:r", &decimal_u64(revision), ":", label);
    Ok(
        Some(
            DurableRunSummary {
                revision,
                event_id,
                pending_publication: pending_revision > acknowledged_revision,
                summary,
            },
        ),
    )
}

/// Whether a stored label is one of the statuses of a run.
pub open spec fn is_run_status(label: Seq<char>) -> bool {
    label == "open"@ || final_status(label) is Some
}

/// Why the fields of a run give no progress.
pub open spec fn progress_error(values: Seq<Seq<char>>) -> Option<Seq<char>> {
    let f = fields_of(values);
    if values.len() % 2 != 0 {
        Some(odd_message())
    } else if number_error(f, "received_slices"@, u32::MAX as nat) is Some {
        number_error(f, "received_slices"@, u32::MAX as nat)
    } else if number_error(f, "expected_slices"@, u32::MAX as nat) is Some {
        number_error(f, "expected_slices"@, u32::MAX as nat)
    } else if text_error(f, "status"@) is Some {
        text_error(f, "status"@)
    } else if !is_run_status(f["status"@]) {
        Some("aggregation status is invalid"@)
    } else {
        None
    }
}

/// The received slices, the expected slices and the final status, if any, of a
/// run.
pub fn progress(values: &Vec<String>, operation: &'static str) -> (r: Result<
    (u32, u32, Option<ScenarioRunSummaryStatus>),
    RunAggregationStoreError,
>)
    ensures
        ({
            let f = fields_of(views(values@));
            match r {
                Ok((received, expected, status)) => {
                    &&& progress_error(views(values@)) is None
                    &&& received == number(f, "received_slices"@)
                    &&& expected == number(f, "expected_slices"@)
                    &&& f["status"@] == "open"@ ==> status is None
                    &&& f["status"@] != "open"@ ==> status == final_status(f["status"@])
                },
                Err(e) => progress_error(views(values@)) matches Some(m) && e.is_invalid_state(
                    operation@,
                    m,
                ),
            }
        }),
{
    let snapshot = snapshot_map(values, operation)?;
    let received: u32 = parse_field(&snapshot, "received_slices", u32::MAX as u128, operation)?
        as u32;
    let expected: u32 = parse_field(&snapshot, "expected_slices", u32::MAX as u128, operation)?
        as u32;
    let label = required(&snapshot, "status", operation)?;
    match finalized_status(label, operation) {
        Ok(status) => Ok((received, expected, status)),
        Err(e) => Err(e),
    }
}

/// The final status that a stored label denotes; none for an open run.
pub fn finalized_status(status: &str, operation: &'static str) -> (r: Result<
    Option<ScenarioRunSummaryStatus>,
    RunAggregationStoreError,
>)
    ensures
        match r {
            Ok(None) => status@ == "open"@,
            Ok(Some(s)) => status@ != "open"@ && final_status(status@) == Some(s),
            Err(e) => !is_run_status(status@) && e.is_invalid_state(
                operation@,
                "aggregation status is invalid"@,
            ),
        },
{
    if str_eq(status, "open") {
        return Ok(None);
    }
    match read_final_status(status) {
        Some(s) => Ok(Some(s)),
        None => Err(invalid_state(operation, "aggregation status is invalid")),
    }
}

/// A final summary is never that of an open run, and what it counts adds up: the
/// successes and failures are the total, and so are the buckets of a histogram
/// that is there.
pub proof fn lemma_summary_adds_up(f: Fields, s: ScenarioRunSummary)
    requires
        summary_error(f) is None,
        is_summary(f, s),
    ensures
        s.success + s.failure == s.total,
        s.latency_histogram@.len() > 0 ==> count_sum(s.latency_histogram@) == s.total,
        s.received_slices <= s.expected_slices,
        s.status is Complete <==> s.received_slices == s.expected_slices,
{
}

/// A summary that is complete misses no slice.
pub proof fn lemma_complete_misses_nothing(f: Fields, s: ScenarioRunSummary)
    requires
        summary_error(f) is None,
        is_summary(f, s),
    ensures
        s.missing_slices@.len() + s.received_slices == s.expected_slices,
        s.status is Complete <==> s.missing_slices@.len() == 0,
{
    let received = slice_indexes(f);
    assert forall|n: u32| received.contains(n) implies n < number(f, "expected_slices"@) by {
        let k = choose|k: Seq<char>| #[trigger]
            f.dom().contains(k) && is_slice_field(k) && slice_index(k) == Some(n as nat);
        assert(f.dom().contains(k) && is_slice_field(k));
    }
    let all = Set::new(|k: u32| k < s.expected_slices as nat);
    lemma_range_len(s.expected_slices as nat);
    assert(received.subset_of(all));
    vstd::set_lib::lemma_len_subset(received, all);
    lemma_slices_partition(s.expected_slices as nat, received);
}

} // verus!
