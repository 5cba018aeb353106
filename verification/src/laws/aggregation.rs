//! Merging results into runs, ending runs and publishing their summaries.
use std::time::Duration;
use vstd::prelude::*;
use super::execution::whole_ms;
use super::script::{arg, hands_over, key, lemma_texts};
use super::text::{glued, lemma_joined};
use super::snapshot::{
    goes_on, has_come, lemma_goes_on, lemma_has_come, lemma_parsed, lemma_progress_owed,
    lemma_stands, lemma_sums_up, reads, stands, sums_up,
};
use crate::aggregation::{
    batch, bound_texts, bucket_counts, count_args, counted_kinds, error_args, errors_problem,
    inexact_bucket, is_progress, is_unreadable, lemma_batch_is_divided, settled_places,
    waiting_places, waits_for_publication, ingest_args, ingest_head, ingest_problem, merged,
    merged_count, IngestProblem, NormalizedResult, RedisRunAggregationStore, RunAggregationUpdate,
    RunExpiryOutcome, RunFinalizationOutcome, SummaryAcknowledgement,
};
use crate::aggregation_scripts::{
    ACKNOWLEDGE_SUMMARY_SCRIPT, CLEAN_OUTBOX_SCRIPT, DUE_RUNS_SCRIPT, FINALIZE_RUN_SCRIPT,
    INGEST_SCRIPT, MARK_EXPIRED_SCRIPT,
};
use crate::calls::ScriptCall;
use crate::coordination::Exchange;
use crate::contracts::{
    ContractError, DurableRunSummary, ErrorCount, LatencyBucket, ScenarioRunResult,
    ScenarioRunSummaryStatus,
};
use crate::durations::nanos;
use crate::ordered::lemma_increasing_no_duplicates;
use crate::snapshot::{
    fields_of, final_status, is_open, number, progress_error, RunAggregationStoreError,
};
use crate::text::{decimal, is_blank, utf8_len, views};

verus! {

/// The largest number that Lua counts exactly together with all smaller ones.
pub open spec fn lua_limit() -> nat {
    9_007_199_254_740_991
}

/// The errors of a kind that a breakdown counts, over all of its entries.
pub open spec fn total_of(errors: Seq<ErrorCount>, kind: Seq<char>) -> nat
    decreases errors.len(),
{
    if errors.len() == 0 {
        0
    } else {
        total_of(errors.drop_last(), kind) + if errors.last().kind@ == kind {
            errors.last().count as nat
        } else {
            0
        }
    }
}

/// Whether a breakdown has an entry of a kind.
pub open spec fn occurs(errors: Seq<ErrorCount>, kind: Seq<char>) -> bool {
    exists|i: int| 0 <= i < errors.len() && (#[trigger] errors[i]).kind@ == kind
}

proof fn lemma_merged(errors: Seq<ErrorCount>, kind: Seq<char>)
    ensures
        merged(errors).dom().contains(kind) <==> occurs(errors, kind),
        merged_count(merged(errors), kind) == total_of(errors, kind),
    decreases errors.len(),
{
    if errors.len() > 0 {
        let front = errors.drop_last();
        lemma_merged(front, kind);
        lemma_merged(front, errors.last().kind@);
        if occurs(front, kind) {
            let i = choose|i: int| 0 <= i < front.len() && (#[trigger] front[i]).kind@ == kind;
            assert(errors[i].kind@ == kind);
        }
        if occurs(errors, kind) && errors.last().kind@ != kind {
            let i = choose|i: int| 0 <= i < errors.len() && (#[trigger] errors[i]).kind@ == kind;
            assert(front[i].kind@ == kind);
        }
        if errors.last().kind@ == kind {
            assert(errors[errors.len() - 1].kind@ == kind);
        }
    }
}

proof fn lemma_total_grows(errors: Seq<ErrorCount>, k: int, kind: Seq<char>)
    requires
        0 <= k <= errors.len(),
    ensures
        total_of(errors.take(k), kind) <= total_of(errors, kind),
    decreases errors.len(),
{
    if k == errors.len() {
        assert(errors.take(k) =~= errors);
    } else {
        assert(errors.drop_last().take(k) =~= errors.take(k));
        lemma_total_grows(errors.drop_last(), k, kind);
    }
}

/// Whether an error count can be merged: its kind is named within 256 bytes, and the
/// count and the count of its kind over the whole breakdown are counted exactly by Lua.
pub open spec fn mergeable(errors: Seq<ErrorCount>, i: int) -> bool {
    &&& !is_blank(errors[i].kind@)
    &&& utf8_len(errors[i].kind@) <= 256
    &&& total_of(errors, errors[i].kind@) <= lua_limit()
}

proof fn lemma_errors_problem(errors: Seq<ErrorCount>)
    ensures
        errors_problem(errors) is None <==> forall|i: int|
            0 <= i < errors.len() ==> #[trigger] mergeable(errors, i),
    decreases errors.len(),
{
    if errors.len() > 0 {
        let front = errors.drop_last();
        let n = errors.len() - 1;
        let kind = errors.last().kind@;
        lemma_errors_problem(front);
        lemma_merged(errors, kind);
        lemma_merged(front, kind);
        assert(errors[n].kind@ == kind);
        assert(occurs(errors, kind));
        assert(merged(errors)[kind] == total_of(errors, kind));
        if errors_problem(errors) is None {
            assert forall|i: int| 0 <= i < errors.len() implies #[trigger] mergeable(errors, i) by {
                if i < n {
                    assert(mergeable(front, i));
                    assert(front[i] == errors[i]);
                }
            }
        }
        if forall|i: int| 0 <= i < errors.len() ==> #[trigger] mergeable(errors, i) {
            assert(mergeable(errors, n));
            assert forall|i: int| 0 <= i < front.len() implies #[trigger] mergeable(front, i) by {
                assert(mergeable(errors, i));
                assert(front[i] == errors[i]);
                assert(errors.take(n) =~= front);
                lemma_total_grows(errors, n, errors[i].kind@);
            }
        }
    }
}

/// Whether a result may be merged by a store that keeps so many error kinds.
pub open spec fn may_be_merged(result: ScenarioRunResult, max_error_kinds: usize) -> bool {
    &&& result.slice.total <= 4096
    &&& result.latency_histogram@.len() <= 256
    &&& result.error_breakdown@.len() <= max_error_kinds
    &&& !is_blank(result.scenario_id@) && utf8_len(result.scenario_id@) <= 1024
    &&& !is_blank(result.run_id@) && utf8_len(result.run_id@) <= 1024
    &&& !is_blank(result.execution_key@) && utf8_len(result.execution_key@) <= 1024
    &&& result.total <= lua_limit()
    &&& result.success <= lua_limit()
    &&& result.failure <= lua_limit()
    &&& forall|i: int|
        0 <= i < result.latency_histogram@.len() ==> (
        #[trigger] result.latency_histogram@[i]).count <= lua_limit()
    &&& forall|i: int|
        0 <= i < result.error_breakdown@.len() ==> #[trigger] mergeable(result.error_breakdown@, i)
}

/// The bounds of a histogram in digits.
pub open spec fn bounds_in_digits(buckets: Seq<LatencyBucket>) -> Seq<Seq<char>> {
    Seq::new(buckets.len(), |i: int| decimal(buckets[i].upper_bound_ms as nat))
}

proof fn lemma_error_args(pairs: Seq<(String, u64)>, j: int)
    requires
        0 <= j < pairs.len(),
    ensures
        error_args(pairs).len() == 2 * pairs.len(),
        error_args(pairs)[2 * j] == pairs[j].0@,
        error_args(pairs)[2 * j + 1] == decimal(pairs[j].1 as nat),
    decreases pairs.len(),
{
    let front = pairs.drop_last();
    lemma_error_args_len(front);
    if j < front.len() {
        lemma_error_args(front, j);
    }
}

proof fn lemma_error_args_len(pairs: Seq<(String, u64)>)
    ensures
        error_args(pairs).len() == 2 * pairs.len(),
    decreases pairs.len(),
{
    if pairs.len() > 0 {
        lemma_error_args_len(pairs.drop_last());
    }
}

/// How many error kinds a call that merges a result hands over, where the histogram has
/// so many buckets: two arguments for each, behind 15 and the buckets and one more.
pub open spec fn kinds_sent(call: ScriptCall, buckets: nat) -> int {
    (call.args@.len() - 16 - buckets) / 2
}

/// The arguments of the program that merges a result, each under the name by which the
/// program reads it: what it adds to the field `total` is argument 8, to `success`
/// argument 9 and to `failure` argument 10; what it adds to the bucket `i` is argument
/// `16 + i`; behind the buckets come the number of error kinds, and for each a name and
/// a count.
pub open spec fn merges(
    store: RedisRunAggregationStore,
    result: ScenarioRunResult,
    call: ScriptCall,
) -> bool {
    let b = result.latency_histogram@.len() as int;
    let n = kinds_sent(call, b as nat);
    &&& call.script@ == INGEST_SCRIPT@
    &&& hands_over(call, 4, (16 + b + 2 * n) as nat)
    &&& n >= 0
    &&& key(call, 1) == store.prefix() + ":{runs}:run:"@ + result.run_id@
    &&& key(call, 2) == store.prefix() + ":{runs}:deadlines"@
    &&& key(call, 3) == store.prefix() + ":{runs}:summary-outbox"@
    &&& key(call, 4) == store.prefix() + ":{runs}:active"@
    &&& arg(call, 1) == result.scenario_id@
    &&& arg(call, 2) == result.run_id@
    &&& arg(call, 3) == decimal(result.schema_version as nat)
    &&& arg(call, 4) == decimal(result.slice.total as nat)
    &&& arg(call, 5) == decimal(result.slice.index as nat)
    &&& arg(call, 6) == result.execution_key@
    &&& arg(call, 7) == glued(bounds_in_digits(result.latency_histogram@), ',')
    &&& arg(call, 8) == decimal(result.total as nat)
    &&& arg(call, 9) == decimal(result.success as nat)
    &&& arg(call, 10) == decimal(result.failure as nat)
    &&& arg(call, 11) == decimal(whole_ms(store.retention()))
    &&& arg(call, 12) == decimal(store.error_kind_limit() as nat)
    &&& arg(call, 13) == decimal(store.active_run_limit() as nat)
    &&& arg(call, 14) == decimal(whole_ms(store.partial()))
    &&& arg(call, 15) == decimal(b as nat)
    &&& forall|i: int|
        0 <= i < b ==> #[trigger] arg(call, 16 + i) == decimal(
            result.latency_histogram@[i].count as nat,
        )
    &&& arg(call, 16 + b) == decimal(n as nat)
    &&& forall|j: int|
        0 <= j < n ==> occurs(result.error_breakdown@, #[trigger] kind_sent(call, b, j)) && count_sent(
            call,
            b,
            j,
        ) == decimal(total_of(result.error_breakdown@, kind_sent(call, b, j)))
    &&& forall|i: int, j: int|
        0 <= i < j < n ==> #[trigger] kind_sent(call, b, i) != #[trigger] kind_sent(call, b, j)
    &&& forall|kind: Seq<char>| #[trigger]
        occurs(result.error_breakdown@, kind) ==> exists|j: int|
            0 <= j < n && #[trigger] kind_sent(call, b, j) == kind
}

/// The error kind at a place, of a call with so many buckets.
pub open spec fn kind_sent(call: ScriptCall, buckets: int, j: int) -> Seq<char> {
    arg(call, 17 + buckets + 2 * j)
}

/// The error count at a place, of a call with so many buckets.
pub open spec fn count_sent(call: ScriptCall, buckets: int, j: int) -> Seq<char> {
    arg(call, 18 + buckets + 2 * j)
}

proof fn lemma_bounds(buckets: Seq<LatencyBucket>)
    ensures
        bound_texts(buckets) == bounds_in_digits(buckets),
{
    assert(bound_texts(buckets) =~= bounds_in_digits(buckets));
}

proof fn lemma_merges(
    store: RedisRunAggregationStore,
    result: ScenarioRunResult,
    call: ScriptCall,
    n: NormalizedResult,
)
    requires
        n.counts(result),
        views(call.args@) == ingest_args(store, result, n),
        views(call.keys@) == crate::aggregation::run_keys(store.prefix(), result.run_id@),
        call.script@ == INGEST_SCRIPT@,
    ensures
        merges(store, result, call),
{
    let b = result.latency_histogram@.len() as int;
    let pairs = n.error_counts@;
    let errors = result.error_breakdown@;
    lemma_texts(call);
    lemma_bounds(result.latency_histogram@);
    reveal_strlit(",");
    assert(","@ =~= seq![',']);
    lemma_joined(bounds_in_digits(result.latency_histogram@), ',');
    lemma_error_args_len(pairs);
    let head = ingest_head(store, result, n);
    let counts = count_args(n.histogram_counts@);
    let middle = seq![decimal(pairs.len())];
    let tail = error_args(pairs);
    let all = ingest_args(store, result, n);
    assert(all == head + counts + middle + tail);
    assert(head.len() == 15 && counts.len() == b && middle.len() == 1);
    assert(kinds_sent(call, b as nat) == pairs.len());
    assert forall|i: int| 0 <= i < 15 implies #[trigger] all[i] == head[i] by {}
    assert(arg(call, 1) == all[0] && arg(call, 2) == all[1] && arg(call, 3) == all[2]);
    assert(arg(call, 4) == all[3] && arg(call, 5) == all[4] && arg(call, 6) == all[5]);
    assert(arg(call, 7) == all[6] && arg(call, 8) == all[7] && arg(call, 9) == all[8]);
    assert(arg(call, 10) == all[9] && arg(call, 11) == all[10] && arg(call, 12) == all[11]);
    assert(arg(call, 13) == all[12] && arg(call, 14) == all[13] && arg(call, 15) == all[14]);
    assert forall|i: int| 0 <= i < b implies #[trigger] arg(call, 16 + i) == decimal(
        result.latency_histogram@[i].count as nat,
    ) by {
        assert(all[15 + i] == counts[i]);
        assert(n.histogram_counts@[i] == bucket_counts(result.latency_histogram@)[i]);
    }
    assert(arg(call, 16 + b) == all[15 + b]);
    assert(all[15 + b] == middle[0]);
    let kinds = counted_kinds(pairs);
    assert forall|j: int| 0 <= j < pairs.len() implies #[trigger] kind_sent(call, b, j) == kinds[j]
        && count_sent(call, b, j) == decimal(pairs[j].1 as nat) by {
        lemma_error_args(pairs, j);
        assert(all[16 + b + 2 * j] == tail[2 * j]);
        assert(all[17 + b + 2 * j] == tail[2 * j + 1]);
        assert(kind_sent(call, b, j) == all[16 + b + 2 * j]);
        assert(count_sent(call, b, j) == all[17 + b + 2 * j]);
    }
    assert forall|j: int| 0 <= j < pairs.len() implies occurs(errors, #[trigger] kind_sent(call, b, j))
        && count_sent(call, b, j) == decimal(total_of(errors, kind_sent(call, b, j))) by {
        let kind = kinds[j];
        assert(kinds.contains(kind));
        lemma_merged(errors, kind);
        assert(merged(errors).dom().contains(kind));
        assert(pairs[j].1 == merged(errors)[pairs[j].0@]);
    }
    lemma_increasing_no_duplicates(kinds);
    assert forall|kind: Seq<char>| #[trigger] occurs(errors, kind) implies exists|j: int|
        0 <= j < pairs.len() && #[trigger] kind_sent(call, b, j) == kind by {
        lemma_merged(errors, kind);
        assert(kinds.contains(kind));
        let j = kinds.index_of(kind);
        assert(kind_sent(call, b, j) == kinds[j]);
    }
}

proof fn lemma_errors_capacity(errors: Seq<ErrorCount>)
    ensures
        errors_problem(errors) != Some(IngestProblem::Capacity),
    decreases errors.len(),
{
    if errors.len() > 0 {
        lemma_errors_capacity(errors.drop_last());
    }
}

/// A result is merged where it keeps its contract and the bounds of the store, and then
/// by a call that hands over what it counted.
pub proof fn law_ingest_call(
    store: RedisRunAggregationStore,
    result: ScenarioRunResult,
    contract: Result<(), ContractError>,
    r: Result<ScriptCall, RunAggregationStoreError>,
)
    requires
        store.wf(),
        call_ensures(RedisRunAggregationStore::ingest_call, (&store, &result, contract), r),
    ensures
        r is Ok <==> contract is Ok && may_be_merged(result, store.error_kind_limit()),
        r matches Ok(call) ==> merges(store, result, call),
        contract matches Err(c) ==> r == Err::<ScriptCall, RunAggregationStoreError>(
            RunAggregationStoreError::Contract(c),
        ),
        contract is Ok && result.slice.total <= 4096 && result.latency_histogram@.len() <= 256 ==> (
        result.error_breakdown@.len() > store.error_kind_limit() <==> r is Err && r->Err_0
            == RunAggregationStoreError::ErrorKindCapacity {
            max_error_kinds: store.error_kind_limit(),
        }),
{
    lemma_errors_capacity(result.error_breakdown@);
    lemma_errors_problem(result.error_breakdown@);
    let errors = result.error_breakdown@;
    if ingest_problem(result, contract, store.error_kind_limit()) is None {
        assert forall|i: int| 0 <= i < result.latency_histogram@.len() implies (
        #[trigger] result.latency_histogram@[i]).count <= lua_limit() by {
            let bucket = result.latency_histogram@[i];
            assert(!inexact_bucket(result.latency_histogram@));
            assert(crate::aggregation::exact(result.latency_histogram@[i].count as nat));
        }
    }
    if r is Ok {
        let call = r->Ok_0;
        let n = choose|n: NormalizedResult| #[trigger]
            n.counts(result) && call.is(
                INGEST_SCRIPT@,
                crate::aggregation::run_keys(store.prefix(), result.run_id@),
                ingest_args(store, result, n),
            );
        lemma_merges(store, result, call, n);
    }
}


/// A result is counted exactly where it can be merged: its bounds in digits, a count for
/// each bucket, and the error kinds in order, each with its count over the breakdown.
pub proof fn law_normalize_result(
    store: RedisRunAggregationStore,
    result: ScenarioRunResult,
    contract: Result<(), ContractError>,
    r: Result<NormalizedResult, RunAggregationStoreError>,
    call: Result<ScriptCall, RunAggregationStoreError>,
)
    requires
        store.wf(),
        call_ensures(RedisRunAggregationStore::normalize_result, (&store, &result, contract), r),
        call_ensures(RedisRunAggregationStore::ingest_call, (&store, &result, contract), call),
    ensures
        r is Ok <==> call is Ok,
        r matches Ok(n) ==> {
            &&& n.histogram_bounds@ == glued(bounds_in_digits(result.latency_histogram@), ',')
            &&& n.histogram_counts@.len() == result.latency_histogram@.len()
            &&& forall|i: int|
                0 <= i < result.latency_histogram@.len() ==> #[trigger] n.histogram_counts@[i]
                    == result.latency_histogram@[i].count
            &&& forall|j: int|
                0 <= j < n.error_counts@.len() ==> occurs(
                    result.error_breakdown@,
                    (#[trigger] n.error_counts@[j]).0@,
                ) && n.error_counts@[j].1 == total_of(
                    result.error_breakdown@,
                    n.error_counts@[j].0@,
                )
            &&& forall|i: int, j: int|
                0 <= i < j < n.error_counts@.len() ==> crate::text::text_less(
                    (#[trigger] n.error_counts@[i]).0@,
                    (#[trigger] n.error_counts@[j]).0@,
                )
            &&& forall|kind: Seq<char>| #[trigger]
                occurs(result.error_breakdown@, kind) ==> exists|j: int|
                    0 <= j < n.error_counts@.len() && (#[trigger] n.error_counts@[j]).0@ == kind
        },
{
    if let Ok(n) = r {
        let pairs = n.error_counts@;
        let kinds = counted_kinds(pairs);
        let errors = result.error_breakdown@;
        lemma_bounds(result.latency_histogram@);
        reveal_strlit(",");
        assert(","@ =~= seq![',']);
        lemma_joined(bounds_in_digits(result.latency_histogram@), ',');
        assert forall|j: int| 0 <= j < pairs.len() implies occurs(errors, (#[trigger] pairs[j]).0@)
            && pairs[j].1 == total_of(errors, pairs[j].0@) by {
            assert(kinds[j] == pairs[j].0@);
            assert(kinds.contains(kinds[j]));
            lemma_merged(errors, kinds[j]);
        }
        assert forall|i: int, j: int| 0 <= i < j < pairs.len() implies crate::text::text_less(
            (#[trigger] pairs[i]).0@,
            (#[trigger] pairs[j]).0@,
        ) by {
            assert(crate::text::text_less(kinds[i], kinds[j]));
        }
        assert forall|kind: Seq<char>| #[trigger] occurs(errors, kind) implies exists|j: int|
            0 <= j < pairs.len() && (#[trigger] pairs[j]).0@ == kind by {
            lemma_merged(errors, kind);
            assert(kinds.contains(kind));
            let j = kinds.index_of(kind);
            assert(pairs[j].0@ == kind);
        }
    }
}

/// Whether a name can be that of a run.
pub open spec fn names_run(run_id: Seq<char>) -> bool {
    !is_blank(run_id) && utf8_len(run_id) <= 1024
}

/// Whether the call hands over the four keys of a run: its fields, the deadlines, the
/// outbox and the known runs, in this order.
pub open spec fn on_run(store: RedisRunAggregationStore, call: ScriptCall, run_id: Seq<char>) -> bool {
    &&& call.keys@.len() == 4
    &&& key(call, 1) == store.prefix() + ":{runs}:run:"@ + run_id
    &&& key(call, 2) == store.prefix() + ":{runs}:deadlines"@
    &&& key(call, 3) == store.prefix() + ":{runs}:summary-outbox"@
    &&& key(call, 4) == store.prefix() + ":{runs}:active"@
}

/// Whether a span is handed to Lua: it is not empty, and its milliseconds are counted
/// exactly.
pub open spec fn span_fits(d: Duration) -> bool {
    nanos(d) >= 1 && whole_ms(d) <= lua_limit()
}

/// A store is made where the prefix is named within 1024 bytes and holds no braces, and
/// the retention exceeds the timeout, which both fit. It keeps 64 error kinds, 10000 runs
/// and lists 1024 of them, and one exchange may take 2 seconds, unless other bounds are
/// given.
pub proof fn law_store(
    prefix: String,
    partial: Duration,
    retention: Duration,
    r: Result<RedisRunAggregationStore, RunAggregationStoreError>,
)
    requires
        call_ensures(RedisRunAggregationStore::new, (prefix, partial, retention), r),
    ensures
        r is Ok <==> {
            &&& !is_blank(prefix@)
            &&& utf8_len(prefix@) <= 1024
            &&& !prefix@.contains('{')
            &&& !prefix@.contains('}')
            &&& span_fits(partial)
            &&& span_fits(retention)
            &&& nanos(partial) < nanos(retention)
        },
        r matches Ok(s) ==> {
            &&& s.wf()
            &&& s.prefix() == prefix@
            &&& s.partial() == partial
            &&& s.retention() == retention
            &&& nanos(s.exchange_timeout()) == 2_000_000_000
            &&& s.error_kind_limit() == 64
            &&& s.active_run_limit() == 10_000
            &&& s.scan_limit() == 1_024
        },
{
}

/// Each bound is changed by itself, where it is at least 1 and counted exactly by Lua.
pub proof fn law_store_bounds(
    store: RedisRunAggregationStore,
    timeout: Duration,
    kinds: usize,
    runs: usize,
    scan: usize,
    a: Result<RedisRunAggregationStore, RunAggregationStoreError>,
    b: Result<RedisRunAggregationStore, RunAggregationStoreError>,
    c: Result<RedisRunAggregationStore, RunAggregationStoreError>,
    d: Result<RedisRunAggregationStore, RunAggregationStoreError>,
)
    requires
        store.wf(),
        call_ensures(RedisRunAggregationStore::with_operation_timeout, (store, timeout), a),
        call_ensures(RedisRunAggregationStore::with_max_error_kinds, (store, kinds), b),
        call_ensures(RedisRunAggregationStore::with_max_active_runs, (store, runs), c),
        call_ensures(RedisRunAggregationStore::with_max_scan_limit, (store, scan), d),
    ensures
        a is Ok <==> nanos(timeout) >= 1 && whole_ms(timeout) <= 9_223_372_036_854_775_807,
        a matches Ok(s) ==> differs(store, s, timeout, store.error_kind_limit(), store.active_run_limit(), store.scan_limit()),
        b is Ok <==> 1 <= kinds <= lua_limit(),
        b matches Ok(s) ==> differs(store, s, store.exchange_timeout(), kinds, store.active_run_limit(), store.scan_limit()),
        c is Ok <==> 1 <= runs <= lua_limit(),
        c matches Ok(s) ==> differs(store, s, store.exchange_timeout(), store.error_kind_limit(), runs, store.scan_limit()),
        d is Ok <==> 1 <= scan <= lua_limit(),
        d matches Ok(s) ==> differs(store, s, store.exchange_timeout(), store.error_kind_limit(), store.active_run_limit(), scan),
{
}

/// Whether a store has these bounds and for the rest is another.
pub open spec fn differs(
    store: RedisRunAggregationStore,
    s: RedisRunAggregationStore,
    timeout: Duration,
    kinds: usize,
    runs: usize,
    scan: usize,
) -> bool {
    &&& s.wf()
    &&& s.prefix() == store.prefix()
    &&& s.partial() == store.partial()
    &&& s.retention() == store.retention()
    &&& s.exchange_timeout() == timeout
    &&& s.error_kind_limit() == kinds
    &&& s.active_run_limit() == runs
    &&& s.scan_limit() == scan
}

/// The names of the keys of a store.
pub proof fn law_store_keys(
    store: RedisRunAggregationStore,
    run_id: &str,
    run: String,
    deadlines: String,
    outbox: String,
    active: String,
    timeout: Duration,
)
    requires
        call_ensures(RedisRunAggregationStore::key_for_run, (&store, run_id), run),
        call_ensures(RedisRunAggregationStore::deadline_key, (&store,), deadlines),
        call_ensures(RedisRunAggregationStore::outbox_key, (&store,), outbox),
        call_ensures(RedisRunAggregationStore::active_key, (&store,), active),
        call_ensures(RedisRunAggregationStore::operation_timeout, (&store,), timeout),
    ensures
        run@ == store.prefix() + ":{runs}:run:"@ + run_id@,
        deadlines@ == store.prefix() + ":{runs}:deadlines"@,
        outbox@ == store.prefix() + ":{runs}:summary-outbox"@,
        active@ == store.prefix() + ":{runs}:active"@,
        timeout == store.exchange_timeout(),
{
}

/// Listing the runs whose deadline has passed asks the deadlines for so many, within the
/// bound of the store.
pub proof fn law_due_runs_call(
    store: RedisRunAggregationStore,
    limit: usize,
    r: Result<ScriptCall, RunAggregationStoreError>,
)
    requires
        store.wf(),
        call_ensures(RedisRunAggregationStore::due_runs_call, (&store, limit), r),
    ensures
        r is Ok <==> 1 <= limit <= store.scan_limit(),
        r matches Ok(call) ==> {
            &&& call.script@ == DUE_RUNS_SCRIPT@
            &&& hands_over(call, 1, 1)
            &&& key(call, 1) == store.prefix() + ":{runs}:deadlines"@
            &&& arg(call, 1) == decimal(limit as nat)
        },
{
    if r is Ok {
        lemma_texts(r->Ok_0);
    }
}

/// Ending a run whose deadline has passed hands over the retention and the run.
pub proof fn law_mark_expired_call(
    store: RedisRunAggregationStore,
    run_id: &str,
    r: Result<ScriptCall, RunAggregationStoreError>,
)
    requires
        store.wf(),
        call_ensures(RedisRunAggregationStore::mark_expired_call, (&store, run_id), r),
    ensures
        r is Ok <==> names_run(run_id@),
        r matches Ok(call) ==> {
            &&& call.script@ == MARK_EXPIRED_SCRIPT@
            &&& hands_over(call, 4, 2)
            &&& on_run(store, call, run_id@)
            &&& arg(call, 1) == decimal(whole_ms(store.retention()))
            &&& arg(call, 2) == run_id@
        },
{
    if r is Ok {
        lemma_texts(r->Ok_0);
    }
}

/// Ending a run on request hands over `partial` or `cancelled`, the retention and the
/// run; a run can be ended in no other way.
pub proof fn law_finalize_run_call(
    store: RedisRunAggregationStore,
    run_id: &str,
    status: ScenarioRunSummaryStatus,
    r: Result<ScriptCall, RunAggregationStoreError>,
)
    requires
        store.wf(),
        call_ensures(RedisRunAggregationStore::finalize_run_call, (&store, run_id, status), r),
    ensures
        r is Ok <==> names_run(run_id@) && (status is Partial || status is Cancelled),
        r matches Ok(call) ==> {
            &&& call.script@ == FINALIZE_RUN_SCRIPT@
            &&& hands_over(call, 4, 3)
            &&& on_run(store, call, run_id@)
            &&& status is Partial ==> arg(call, 1) == "partial"@
            &&& status is Cancelled ==> arg(call, 1) == "cancelled"@
            &&& arg(call, 2) == decimal(whole_ms(store.retention()))
            &&& arg(call, 3) == run_id@
        },
{
    if r is Ok {
        lemma_texts(r->Ok_0);
    }
}

/// Acknowledging a summary hands over the revision, the run and the retention, and the
/// fields of the run, the outbox and the known runs as keys.
pub proof fn law_acknowledge_summary_call(
    store: RedisRunAggregationStore,
    run_id: &str,
    revision: u64,
    r: Result<ScriptCall, RunAggregationStoreError>,
)
    requires
        store.wf(),
        call_ensures(RedisRunAggregationStore::acknowledge_summary_call, (&store, run_id, revision), r),
    ensures
        r is Ok <==> names_run(run_id@) && 1 <= revision <= 9_223_372_036_854_775_807,
        r matches Ok(call) ==> {
            &&& call.script@ == ACKNOWLEDGE_SUMMARY_SCRIPT@
            &&& hands_over(call, 3, 3)
            &&& key(call, 1) == store.prefix() + ":{runs}:run:"@ + run_id@
            &&& key(call, 2) == store.prefix() + ":{runs}:summary-outbox"@
            &&& key(call, 3) == store.prefix() + ":{runs}:active"@
            &&& arg(call, 1) == decimal(revision as nat)
            &&& arg(call, 2) == run_id@
            &&& arg(call, 3) == decimal(whole_ms(store.retention()))
        },
{
    if r is Ok {
        lemma_texts(r->Ok_0);
    }
}

/// Taking a run out of the outbox hands over the run, and its fields and the outbox as
/// keys; what is stored of a run is found under the key of the run; the outbox is read up
/// to the place before the bound.
pub proof fn law_outbox_calls(
    store: RedisRunAggregationStore,
    run_id: &str,
    limit: usize,
    call: ScriptCall,
    fields: Result<String, RunAggregationStoreError>,
    range: Result<(String, i64), RunAggregationStoreError>,
)
    requires
        store.wf(),
        call_ensures(RedisRunAggregationStore::clean_outbox_call, (&store, run_id), call),
        call_ensures(RedisRunAggregationStore::load_summary_key, (&store, run_id), fields),
        call_ensures(RedisRunAggregationStore::pending_summaries_range, (&store, limit), range),
    ensures
        call.script@ == CLEAN_OUTBOX_SCRIPT@,
        hands_over(call, 2, 1),
        key(call, 1) == store.prefix() + ":{runs}:run:"@ + run_id@,
        key(call, 2) == store.prefix() + ":{runs}:summary-outbox"@,
        arg(call, 1) == run_id@,
        fields is Ok <==> names_run(run_id@),
        fields matches Ok(k) ==> k@ == store.prefix() + ":{runs}:run:"@ + run_id@,
        range is Ok <==> 1 <= limit <= store.scan_limit(),
        range matches Ok((k, last)) ==> k@ == store.prefix() + ":{runs}:summary-outbox"@ && last
            == limit - 1,
{
    lemma_texts(call);
}

pub(crate) proof fn lemma_waits(runs: Seq<Seq<Seq<char>>>, n: nat, i: int)
    requires
        0 <= i < waiting_places(runs, n).len(),
    ensures
        0 <= waiting_places(runs, n)[i] < n,
        waits_for_publication(runs[waiting_places(runs, n)[i]]),
    decreases n,
{
    if n > 0 {
        let before = waiting_places(runs, (n - 1) as nat);
        if i < before.len() {
            lemma_waits(runs, (n - 1) as nat, i);
        }
    }
}

proof fn lemma_none_waits(runs: Seq<Seq<Seq<char>>>, n: nat)
    requires
        n <= runs.len(),
        forall|k: int| 0 <= k < runs.len() ==> is_open(#[trigger] runs[k]),
    ensures
        waiting_places(runs, n).len() == 0,
        settled_places(runs, n).len() == n,
        forall|i: int| 0 <= i < n ==> #[trigger] settled_places(runs, n)[i] == i,
    decreases n,
{
    if n > 0 {
        lemma_none_waits(runs, (n - 1) as nat);
        assert(is_open(runs[n - 1]));
    }
}

/// The runs of the outbox whose summary waits are told in their order, and the others are
/// those that can be taken out: each run is one or the other.
pub proof fn law_pending_summaries_reply(
    store: RedisRunAggregationStore,
    run_ids: Vec<String>,
    snapshots: Vec<Vec<String>>,
    r: Result<(Vec<DurableRunSummary>, Vec<String>), RunAggregationStoreError>,
)
    requires
        call_ensures(RedisRunAggregationStore::pending_summaries_reply, (&store, &run_ids, &snapshots), r),
    ensures
        run_ids@.len() != snapshots@.len() ==> r is Err,
        r matches Ok((waiting, settled)) ==> {
            &&& waiting@.len() + settled@.len() == run_ids@.len()
            &&& forall|i: int|
                0 <= i < waiting@.len() ==> (#[trigger] waiting@[i]).pending_publication && exists|
                    k: int,
                |
                    0 <= k < snapshots@.len() && stands(views((#[trigger] snapshots@[k])@), waiting@[i])
        },
        snapshots@.len() == run_ids@.len() && (forall|k: int|
            0 <= k < snapshots@.len() ==> goes_on(views((#[trigger] snapshots@[k])@))) ==> (r matches Ok(
            (waiting, settled),
        ) && waiting@.len() == 0 && views(settled@) == views(run_ids@)),
{
    let runs = batch(snapshots@);
    let n = runs.len();
    assert forall|k: int| 0 <= k < n implies #[trigger] runs[k] == views(snapshots@[k]@) by {}
    if r is Ok {
        let (waiting, settled) = r->Ok_0;
        lemma_batch_is_divided(runs, n);
        assert(views(settled@).len() == settled@.len());
        assert forall|i: int| 0 <= i < waiting@.len() implies (
        #[trigger] waiting@[i]).pending_publication && exists|k: int|
            0 <= k < snapshots@.len() && stands(views((#[trigger] snapshots@[k])@), waiting@[i]) by {
            lemma_waits(runs, n, i);
            let k = waiting_places(runs, n)[i];
            assert(!is_unreadable(runs[k]));
            lemma_stands(runs[k], waiting@[i]);
            assert(stands(views(snapshots@[k]@), waiting@[i]));
        }
    }
    if snapshots@.len() == run_ids@.len() && (forall|k: int|
        0 <= k < snapshots@.len() ==> goes_on(views((#[trigger] snapshots@[k])@))) {
        assert forall|k: int| 0 <= k < n implies is_open(#[trigger] runs[k]) by {
            assert(goes_on(views(snapshots@[k]@)));
            lemma_goes_on(runs[k]);
        }
        assert(r is Ok) by {
            if r is Err {
                assert(exists|i: int| 0 <= i < n && is_unreadable(#[trigger] runs[i]));
            }
        }
        lemma_none_waits(runs, n);
        let (waiting, settled) = r->Ok_0;
        assert(views(settled@) =~= views(run_ids@));
    }
}

/// Whether these are the stored counts of received and of expected slices.
pub open spec fn counted(values: Seq<Seq<char>>, received: u32, expected: u32) -> bool {
    exists|ended: Option<ScenarioRunSummaryStatus>| #[trigger]
        has_come(values, received, expected, ended)
}

proof fn lemma_counts(values: Seq<Seq<char>>, received: u32, expected: u32)
    requires
        is_progress(values, received, expected),
    ensures
        counted(values, received, expected),
{
    let label = fields_of(values)["status"@];
    let ended = if label == "open"@ {
        None
    } else {
        final_status(label)
    };
    lemma_has_come(values, received, expected, ended);
}

proof fn lemma_progress_is_owed(values: Seq<Seq<char>>)
    ensures
        values.len() % 2 == 0 ==> forall|a: u32, b: u32, c: Option<ScenarioRunSummaryStatus>|
            #[trigger] has_come(values, a, b, c) ==> {
                let f = fields_of(values);
                &&& progress_error(values) is None
                &&& number(f, "received_slices"@) == a
                &&& number(f, "expected_slices"@) == b
                &&& (f["status"@] == "open"@ <==> c is None)
                &&& c is Some ==> final_status(f["status"@]) == c
            },
{
    if values.len() % 2 == 0 {
        assert forall|a: u32, b: u32, c: Option<ScenarioRunSummaryStatus>| #[trigger]
            has_come(values, a, b, c) implies {
            let f = fields_of(values);
            &&& progress_error(values) is None
            &&& number(f, "received_slices"@) == a
            &&& number(f, "expected_slices"@) == b
            &&& (f["status"@] == "open"@ <==> c is None)
            &&& c is Some ==> final_status(f["status"@]) == c
        } by {
            lemma_progress_owed(values, a, b, c);
        }
    }
}

/// What the answer to merging a result means. 1 that it was accepted, 7 that it was so
/// though the run had ended, with the stored counts; 2 that it was there before; 3 that
/// it was the last, 4 that it was so late, with the stored summary. Every other answer is
/// an error: 5 a conflict for good where the message is one of four, 6 and 8 a bound of
/// the store, 9 a broken contract.
pub open spec fn ingestion_answered(
    store: RedisRunAggregationStore,
    code: i64,
    message: Seq<char>,
    values: Seq<Seq<char>>,
    r: Result<RunAggregationUpdate, RunAggregationStoreError>,
) -> bool {
    &&& r matches Ok(RunAggregationUpdate::Accepted { received_slices, expected_slices }) ==> code == 1
        && counted(values, received_slices, expected_slices)
    &&& r matches Ok(RunAggregationUpdate::LateAccepted { received_slices, expected_slices }) ==> code == 7
        && counted(values, received_slices, expected_slices)
    &&& r matches Ok(
        RunAggregationUpdate::Duplicate { received_slices, expected_slices, finalized_status },
    ) ==> code == 2 && has_come(values, received_slices, expected_slices, finalized_status)
    &&& r matches Ok(RunAggregationUpdate::Completed(s)) ==> code == 3 && sums_up(values, s)
    &&& r matches Ok(RunAggregationUpdate::LateCompleted(s)) ==> code == 4 && sums_up(values, s)
    &&& r matches Err(RunAggregationStoreError::InconsistentResult { message: m }) ==> code == 5 && m@
        == message
    &&& code == 5 ==> ((r matches Err(e) && e is InconsistentResult) <==> (message
        == "scenario, schema, expected slices, or histogram bounds changed"@ || message
        == "slice index already belongs to a different execution identity"@ || message
        == "execution identity already belongs to a different slice"@ || message
        == "terminal run cannot accept an unrecorded slice"@))
    &&& code == 5 && !(r->Err_0 is InconsistentResult) ==> (r matches Err(
        RunAggregationStoreError::InvalidState { operation, message: m },
    ) && m@ == message)
    &&& code == 1 && values.len() % 2 == 0 ==> forall|a: u32, b: u32, c: Option<
        ScenarioRunSummaryStatus,
    >| #[trigger] has_come(values, a, b, c) ==> (r matches Ok(u) && u == (
    RunAggregationUpdate::Accepted { received_slices: a, expected_slices: b }))
    &&& code == 7 && values.len() % 2 == 0 ==> forall|a: u32, b: u32, c: Option<
        ScenarioRunSummaryStatus,
    >| #[trigger] has_come(values, a, b, c) ==> (r matches Ok(u) && u == (
    RunAggregationUpdate::LateAccepted { received_slices: a, expected_slices: b }))
    &&& code == 2 && values.len() % 2 == 0 ==> forall|a: u32, b: u32, c: Option<
        ScenarioRunSummaryStatus,
    >| #[trigger] has_come(values, a, b, c) ==> (r matches Ok(u) && u == (
    RunAggregationUpdate::Duplicate {
        received_slices: a,
        expected_slices: b,
        finalized_status: c,
    }))
    &&& code == 6 <==> (r matches Err(RunAggregationStoreError::ErrorKindCapacity { max_error_kinds }))
    &&& r matches Err(RunAggregationStoreError::ErrorKindCapacity { max_error_kinds })
        ==> max_error_kinds == store.error_kind_limit()
    &&& code == 8 <==> (r matches Err(RunAggregationStoreError::ActiveRunCapacity { max_active_runs }))
    &&& r matches Err(RunAggregationStoreError::ActiveRunCapacity { max_active_runs })
        ==> max_active_runs == store.active_run_limit()
    &&& code == 9 <==> (r matches Err(RunAggregationStoreError::Contract(c)))
    &&& code == 9 ==> (r matches Err(
        RunAggregationStoreError::Contract(ContractError::InvalidResult(m)),
    ) && m@ == message)
    &&& code < 1 || code > 9 ==> (r matches Err(e) && e is InvalidState)
}

/// The answer of the program to `ingest` is read so.
pub proof fn law_ingestion_reply(
    store: RedisRunAggregationStore,
    code: i64,
    message: String,
    values: Vec<String>,
    r: Result<RunAggregationUpdate, RunAggregationStoreError>,
)
    requires
        call_ensures(
            RedisRunAggregationStore::ingest_reply,
            (&store, code, message, &values),
            r,
        ),
    ensures
        ingestion_answered(
            store,
            code,
            message@,
            views(values@),
            r,
        ),
{
    lemma_progress_is_owed(views(values@));
    match r {
        Ok(RunAggregationUpdate::Accepted { received_slices, expected_slices }) => {
            if code == 1 { lemma_counts(views(values@), received_slices, expected_slices); }
        },
        Ok(RunAggregationUpdate::LateAccepted { received_slices, expected_slices }) => {
            if code == 7 { lemma_counts(views(values@), received_slices, expected_slices); }
        },
        Ok(RunAggregationUpdate::Duplicate { received_slices, expected_slices, finalized_status }) => {
            if code == 2 { lemma_has_come(views(values@), received_slices, expected_slices, finalized_status); }
        },
        Ok(RunAggregationUpdate::Completed(s)) => { lemma_sums_up(views(values@), s); },
        Ok(RunAggregationUpdate::LateCompleted(s)) => { lemma_sums_up(views(values@), s); },
        Err(e) => {},
    }
}

/// An exchange that ended well means what was answered; one that failed is an error
/// with its text, and one that took too long another.
pub proof fn law_ingestion(
    store: RedisRunAggregationStore,
    exchange: Exchange<(i64, String, Vec<String>)>,
    r: Result<RunAggregationUpdate, RunAggregationStoreError>,
)
    requires
        call_ensures(RedisRunAggregationStore::ingest, (&store, exchange), r),
    ensures
        exchange matches Exchange::Done(reply) ==> ingestion_answered(
            store,
            reply.0,
            reply.1@,
            views(reply.2@),
            r,
        ),
        exchange matches Exchange::Failed(text) ==> (r matches Err(
            RunAggregationStoreError::Unavailable { operation, message },
        ) && operation@ == "aggregation_ingest"@ && message@ == text@),
        exchange is TimedOut ==> (r matches Err(RunAggregationStoreError::Timeout { operation }) && operation@
            == "aggregation_ingest"@),
{
    if exchange is Done {
        let code = exchange->Done_0.0;
        lemma_progress_is_owed(views(exchange->Done_0.2@));
        match r {
            Ok(RunAggregationUpdate::Accepted { received_slices, expected_slices }) => {
                if code == 1 { lemma_counts(views(exchange->Done_0.2@), received_slices, expected_slices); }
            },
            Ok(RunAggregationUpdate::LateAccepted { received_slices, expected_slices }) => {
                if code == 7 { lemma_counts(views(exchange->Done_0.2@), received_slices, expected_slices); }
            },
            Ok(RunAggregationUpdate::Duplicate { received_slices, expected_slices, finalized_status }) => {
                if code == 2 { lemma_has_come(views(exchange->Done_0.2@), received_slices, expected_slices, finalized_status); }
            },
            Ok(RunAggregationUpdate::Completed(s)) => { lemma_sums_up(views(exchange->Done_0.2@), s); },
            Ok(RunAggregationUpdate::LateCompleted(s)) => { lemma_sums_up(views(exchange->Done_0.2@), s); },
            Err(e) => {},
        }
    }
}

/// What the answer to ending a run whose deadline has passed means. 0 that there is no
/// run; 1 how long it still has; 2 that it was ended, 3 that it had ended before, with
/// the stored summary; every other answer is an error.
pub open spec fn expiry_answered(
    store: RedisRunAggregationStore,
    code: i64,
    message: Seq<char>,
    values: Seq<Seq<char>>,
    r: Result<RunExpiryOutcome, RunAggregationStoreError>,
) -> bool {
    &&& code == 0 <==> (r matches Ok(RunExpiryOutcome::Missing))
    &&& r matches Ok(RunExpiryOutcome::NotExpired { retry_after }) ==> code == 1 && nanos(retry_after)
        % 1_000_000 == 0 && reads(message, nanos(retry_after) as int / 1_000_000)
    &&& code == 1 && reads_small(message) ==> (r matches Ok(RunExpiryOutcome::NotExpired { retry_after }))
    &&& r matches Ok(RunExpiryOutcome::MarkedTimedOut(s)) ==> code == 2 && sums_up(values, s)
    &&& r matches Ok(RunExpiryOutcome::AlreadyFinalized(s)) ==> code == 3 && sums_up(values, s)
    &&& r matches Err(e) ==> e is InvalidState
    &&& code == 4 ==> (r matches Err(RunAggregationStoreError::InvalidState { operation, message: m })
        && operation@ == "aggregation_mark_expired"@ && m@ == message)
    &&& code < 0 || code > 4 ==> r is Err
}

/// The answer of the program to `mark_expired` is read so.
pub proof fn law_expiry_reply(
    store: RedisRunAggregationStore,
    code: i64,
    message: String,
    values: Vec<String>,
    r: Result<RunExpiryOutcome, RunAggregationStoreError>,
)
    requires
        call_ensures(
            RedisRunAggregationStore::mark_expired_reply,
            (&store, code, message, &values),
            r,
        ),
    ensures
        expiry_answered(
            store,
            code,
            message@,
            views(values@),
            r,
        ),
{
    lemma_parsed(message@, u64::MAX as nat);
    match r {
        Ok(RunExpiryOutcome::MarkedTimedOut(s)) => { lemma_sums_up(views(values@), s); },
        Ok(RunExpiryOutcome::AlreadyFinalized(s)) => { lemma_sums_up(views(values@), s); },
        _ => {},
    }
}

/// An exchange that ended well means what was answered; one that failed is an error
/// with its text, and one that took too long another.
pub proof fn law_expiry(
    store: RedisRunAggregationStore,
    exchange: Exchange<(i64, String, Vec<String>)>,
    r: Result<RunExpiryOutcome, RunAggregationStoreError>,
)
    requires
        call_ensures(RedisRunAggregationStore::mark_expired, (&store, exchange), r),
    ensures
        exchange matches Exchange::Done(reply) ==> expiry_answered(
            store,
            reply.0,
            reply.1@,
            views(reply.2@),
            r,
        ),
        exchange matches Exchange::Failed(text) ==> (r matches Err(
            RunAggregationStoreError::Unavailable { operation, message },
        ) && operation@ == "aggregation_mark_expired"@ && message@ == text@),
        exchange is TimedOut ==> (r matches Err(RunAggregationStoreError::Timeout { operation }) && operation@
            == "aggregation_mark_expired"@),
{
    if exchange is Done {
        lemma_parsed(exchange->Done_0.1@, u64::MAX as nat);
    }
    match r {
        Ok(RunExpiryOutcome::MarkedTimedOut(s)) => { lemma_sums_up(views(exchange->Done_0.2@), s); },
        Ok(RunExpiryOutcome::AlreadyFinalized(s)) => { lemma_sums_up(views(exchange->Done_0.2@), s); },
        _ => {},
    }
}

/// Whether a text denotes a number of 64 bits.
pub open spec fn reads_small(text: Seq<char>) -> bool {
    exists|n: int| #[trigger] reads(text, n) && n <= 18_446_744_073_709_551_615
}

/// What the answer to ending a run on request means. 0 that there is no run; 1 that it was
/// ended, 2 that it had ended before, with the stored summary; every other answer is an
/// error.
pub open spec fn finalization_answered(
    store: RedisRunAggregationStore,
    code: i64,
    message: Seq<char>,
    values: Seq<Seq<char>>,
    r: Result<RunFinalizationOutcome, RunAggregationStoreError>,
) -> bool {
    &&& code == 0 <==> (r matches Ok(RunFinalizationOutcome::Missing))
    &&& r matches Ok(RunFinalizationOutcome::Finalized(s)) ==> code == 1 && sums_up(values, s)
    &&& r matches Ok(RunFinalizationOutcome::AlreadyFinalized(s)) ==> code == 2 && sums_up(values, s)
    &&& r matches Err(e) ==> e is InvalidState
    &&& code == 3 ==> (r matches Err(RunAggregationStoreError::InvalidState { operation, message: m })
        && operation@ == "aggregation_finalize_run"@ && m@ == message)
    &&& code < 0 || code > 3 ==> r is Err
}

/// The answer of the program to `finalize_run` is read so.
pub proof fn law_finalization_reply(
    store: RedisRunAggregationStore,
    code: i64,
    message: String,
    values: Vec<String>,
    r: Result<RunFinalizationOutcome, RunAggregationStoreError>,
)
    requires
        call_ensures(
            RedisRunAggregationStore::finalize_run_reply,
            (&store, code, message, &values),
            r,
        ),
    ensures
        finalization_answered(
            store,
            code,
            message@,
            views(values@),
            r,
        ),
{
    match r {
        Ok(RunFinalizationOutcome::Finalized(s)) => { lemma_sums_up(views(values@), s); },
        Ok(RunFinalizationOutcome::AlreadyFinalized(s)) => { lemma_sums_up(views(values@), s); },
        _ => {},
    }
}

/// An exchange that ended well means what was answered; one that failed is an error
/// with its text, and one that took too long another.
pub proof fn law_finalization(
    store: RedisRunAggregationStore,
    exchange: Exchange<(i64, String, Vec<String>)>,
    r: Result<RunFinalizationOutcome, RunAggregationStoreError>,
)
    requires
        call_ensures(RedisRunAggregationStore::finalize_run, (&store, exchange), r),
    ensures
        exchange matches Exchange::Done(reply) ==> finalization_answered(
            store,
            reply.0,
            reply.1@,
            views(reply.2@),
            r,
        ),
        exchange matches Exchange::Failed(text) ==> (r matches Err(
            RunAggregationStoreError::Unavailable { operation, message },
        ) && operation@ == "aggregation_finalize_run"@ && message@ == text@),
        exchange is TimedOut ==> (r matches Err(RunAggregationStoreError::Timeout { operation }) && operation@
            == "aggregation_finalize_run"@),
{
    match r {
        Ok(RunFinalizationOutcome::Finalized(s)) => { lemma_sums_up(views(exchange->Done_0.2@), s); },
        Ok(RunFinalizationOutcome::AlreadyFinalized(s)) => { lemma_sums_up(views(exchange->Done_0.2@), s); },
        _ => {},
    }
}

/// What the answer to acknowledging a summary means. 0 that there is no run; 1 that it was
/// acknowledged, 2 that it was so before, 3 that a later revision is there; every other
/// answer is an error.
pub open spec fn summary_acknowledgement_answered(
    store: RedisRunAggregationStore,
    code: i64,
    current: i64,
    message: Seq<char>,
    r: Result<SummaryAcknowledgement, RunAggregationStoreError>,
) -> bool {
    &&& code == 0 <==> (r matches Ok(SummaryAcknowledgement::Missing))
    &&& code == 1 <==> (r matches Ok(SummaryAcknowledgement::Acknowledged))
    &&& code == 2 <==> (r matches Ok(SummaryAcknowledgement::AlreadyAcknowledged))
    &&& (r matches Ok(SummaryAcknowledgement::Stale { current_revision })) <==> code == 3 && current >= 0
    &&& r matches Ok(SummaryAcknowledgement::Stale { current_revision }) ==> current_revision == current
    &&& r matches Err(e) ==> e is InvalidState
    &&& code == 4 ==> (r matches Err(RunAggregationStoreError::InvalidState { operation, message: m })
        && operation@ == "aggregation_acknowledge_summary"@ && m@ == message)
}

/// The answer of the program to `acknowledge_summary` is read so.
pub proof fn law_summary_acknowledgement_reply(
    store: RedisRunAggregationStore,
    code: i64,
    current: i64,
    message: String,
    r: Result<SummaryAcknowledgement, RunAggregationStoreError>,
)
    requires
        call_ensures(
            RedisRunAggregationStore::acknowledge_summary_reply,
            (&store, code, current, message),
            r,
        ),
    ensures
        summary_acknowledgement_answered(
            store,
            code,
            current,
            message@,
            r,
        ),
{
}

/// An exchange that ended well means what was answered; one that failed is an error
/// with its text, and one that took too long another.
pub proof fn law_summary_acknowledgement(
    store: RedisRunAggregationStore,
    exchange: Exchange<(i64, i64, String)>,
    r: Result<SummaryAcknowledgement, RunAggregationStoreError>,
)
    requires
        call_ensures(RedisRunAggregationStore::acknowledge_summary, (&store, exchange), r),
    ensures
        exchange matches Exchange::Done(reply) ==> summary_acknowledgement_answered(
            store,
            reply.0,
            reply.1,
            reply.2@,
            r,
        ),
        exchange matches Exchange::Failed(text) ==> (r matches Err(
            RunAggregationStoreError::Unavailable { operation, message },
        ) && operation@ == "aggregation_acknowledge_summary"@ && message@ == text@),
        exchange is TimedOut ==> (r matches Err(RunAggregationStoreError::Timeout { operation }) && operation@
            == "aggregation_acknowledge_summary"@),
{
}

/// What the fields of a run mean: none is told of a run that goes on, and the stored one
/// of a run that has ended.
pub open spec fn summary_load_answered(
    store: RedisRunAggregationStore,
    values: Seq<Seq<char>>,
    r: Result<Option<DurableRunSummary>, RunAggregationStoreError>,
) -> bool {
    &&& (r matches Ok(found) && found is None) <==> goes_on(values)
    &&& r matches Ok(Some(d)) ==> stands(values, d)
    &&& r matches Err(e) ==> e is InvalidState
}

/// The answer of the program to `load_summary` is read so.
pub proof fn law_summary_load_reply(
    store: RedisRunAggregationStore,
    values: Vec<String>,
    r: Result<Option<DurableRunSummary>, RunAggregationStoreError>,
)
    requires
        call_ensures(
            RedisRunAggregationStore::load_summary_reply,
            (&store, &values),
            r,
        ),
    ensures
        summary_load_answered(
            store,
            views(values@),
            r,
        ),
{
    lemma_goes_on(views(values@));
    if r is Ok && r->Ok_0 is Some {
        lemma_stands(views(values@), r->Ok_0->0);
    }
}

/// An exchange that ended well means what was answered; one that failed is an error
/// with its text, and one that took too long another.
pub proof fn law_summary_load(
    store: RedisRunAggregationStore,
    exchange: Exchange<Vec<String>>,
    r: Result<Option<DurableRunSummary>, RunAggregationStoreError>,
)
    requires
        call_ensures(RedisRunAggregationStore::load_summary, (&store, exchange), r),
    ensures
        exchange matches Exchange::Done(reply) ==> summary_load_answered(
            store,
            views(reply@),
            r,
        ),
        exchange matches Exchange::Failed(text) ==> (r matches Err(
            RunAggregationStoreError::Unavailable { operation, message },
        ) && operation@ == "aggregation_load_summary"@ && message@ == text@),
        exchange is TimedOut ==> (r matches Err(RunAggregationStoreError::Timeout { operation }) && operation@
            == "aggregation_load_summary"@),
{
    if exchange is Done {
        lemma_goes_on(views(exchange->Done_0@));
        if r is Ok && r->Ok_0 is Some {
            lemma_stands(views(exchange->Done_0@), r->Ok_0->0);
        }
    }
}

/// Lists are told as they were answered, and taking a run out of the outbox means nothing
/// more; what failed or took too long is an error.
pub proof fn law_lists(
    store: RedisRunAggregationStore,
    due: Exchange<Vec<String>>,
    r: Result<Vec<String>, RunAggregationStoreError>,
    outbox: Exchange<Vec<String>>,
    s: Result<Vec<String>, RunAggregationStoreError>,
    cleaned: Exchange<i64>,
    t: Result<(), RunAggregationStoreError>,
)
    requires
        call_ensures(RedisRunAggregationStore::due_runs, (&store, due), r),
        call_ensures(RedisRunAggregationStore::outbox_runs, (&store, outbox), s),
        call_ensures(RedisRunAggregationStore::clean_outbox_if_settled, (&store, cleaned), t),
    ensures
        due matches Exchange::Done(list) ==> r == Ok::<_, RunAggregationStoreError>(list),
        r is Ok ==> due is Done,
        due is TimedOut ==> r->Err_0 is Timeout,
        due is Failed ==> r->Err_0 is Unavailable,
        outbox matches Exchange::Done(list) ==> s == Ok::<_, RunAggregationStoreError>(list),
        s is Ok ==> outbox is Done,
        outbox is TimedOut ==> s->Err_0 is Timeout,
        outbox is Failed ==> s->Err_0 is Unavailable,
        t is Ok <==> cleaned is Done,
        cleaned is TimedOut ==> t->Err_0 is Timeout,
        cleaned is Failed ==> t->Err_0 is Unavailable,
{
}

} // verus!
