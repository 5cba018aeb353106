//! Summaries are read wherever what is stored of a run can be summed up.
use vstd::prelude::*;
use super::snapshot::{
    bounds_are, ended_as, error_stored, goes_on, histogram_stored, holds, last_at, lemma_fields,
    lemma_goes_on, lemma_held, lemma_label_read, lemma_observed, lemma_parsed, lemma_slice_stored,
    names_slice, reads, revisions, slice_stored, stored, sums_up,
};
use super::text::{apart, glued, lemma_split_glued};
use crate::aggregation::{
    RedisRunAggregationStore, RunAggregationUpdate, RunExpiryOutcome, RunFinalizationOutcome,
};
use crate::coordination::Exchange;
use crate::contracts::{DurableRunSummary, LatencyBucket, ScenarioRunSummary};
use crate::snapshot::{
    bucket_after, bucket_field, buckets_of, durable_summary_from_snapshot, error_field, error_kinds,
    errors_error, fields_of, final_status, head_error, histogram_of, is_slice_field,
    lemma_range_len, lemma_slices_partition, missing_slices, number, slice_index, slice_indexes,
    slices_error, snapshot_error, summary_error, summary_from_snapshot, tail_error, totals_error,
    RunAggregationStoreError,
};
use crate::text::{decimal, parsed_unsigned, views};

verus! {

/// Whether the name at a place is that of a slice below a bound, where it begins as one.
pub open spec fn slice_at(values: Seq<Seq<char>>, expected: u32, k: int) -> bool {
    let name = values[2 * k];
    name.len() >= 6 && name.take(6) == "slice:"@ ==> exists|n: u32|
        n < expected && #[trigger] names_slice(name, n)
}

/// Whether a summary can be read from what is stored: it sums that up, all slices are those
/// of the run, and the number of error kinds is stored with them.
pub open spec fn readable(values: Seq<Seq<char>>, s: ScenarioRunSummary) -> bool {
    &&& sums_up(values, s)
    &&& forall|k: int|
        0 <= k && 2 * k + 1 < values.len() ==> #[trigger] slice_at(values, s.expected_slices, k)
    &&& holds(values, "error_kind_count"@, s.error_breakdown@.len() as int)
}

proof fn lemma_slices_owed(values: Seq<Seq<char>>, s: ScenarioRunSummary)
    requires
        readable(values, s),
    ensures
        slices_error(
            fields_of(values),
            s.expected_slices as nat,
            s.received_slices as nat,
        ) is None,
{
    let f = fields_of(values);
    let received = slice_indexes(f);
    let expected = s.expected_slices as nat;
    reveal_strlit("slice:");
    assert("slice:"@.len() == 6);
    assert forall|name: Seq<char>| #[trigger] f.dom().contains(name) && is_slice_field(name) implies
        slice_index(name) is Some && slice_index(name)->0 < expected by {
        lemma_fields(values, name);
        let k = choose|k: int| #[trigger] last_at(values, name, k) && values[2 * k + 1] == f[name];
        assert(slice_at(values, s.expected_slices, k));
        let n = choose|n: u32| n < s.expected_slices && #[trigger] names_slice(values[2 * k], n);
        lemma_parsed(name.skip(6), u32::MAX as nat);
        assert(reads(name.skip(6), n as int));
    }
    assert forall|n: u32| received.contains(n) implies n < expected by {
        let name = choose|name: Seq<char>| #[trigger]
            f.dom().contains(name) && is_slice_field(name) && slice_index(name) == Some(n as nat);
        assert(f.dom().contains(name) && is_slice_field(name));
    }
    let all = Set::new(|k: u32| k < expected);
    lemma_range_len(expected);
    assert(received.subset_of(all));
    vstd::set_lib::lemma_len_subset(received, all);
    lemma_slices_partition(expected, received);
    let told = s.missing_slices@;
    let found = missing_slices(expected, received);
    assert(told.no_duplicates());
    assert forall|n: u32| told.contains(n) <==> #[trigger] found.contains(n) by {
        lemma_slice_stored(values, n);
        assert(told.contains(n) <==> n < s.expected_slices && !slice_stored(values, n));
        super::snapshot::lemma_missing_ascend(expected, received);
    }
    super::snapshot::lemma_missing_ascend(expected, received);
    assert(found.no_duplicates());
    assert(told.to_set() =~= found.to_set());
    told.unique_seq_to_set();
    found.unique_seq_to_set();
}

proof fn lemma_buckets_owed(
    values: Seq<Seq<char>>,
    parts: Seq<Seq<char>>,
    buckets: Seq<LatencyBucket>,
)
    requires
        values.len() % 2 == 0,
        parts.len() == buckets.len(),
        forall|i: int|
            0 <= i < buckets.len() ==> reads(
                parts[i],
                (#[trigger] buckets[i]).upper_bound_ms as int,
            ) && holds(values, "latency:"@ + decimal(i as nat), buckets[i].count as int),
        forall|i: int, j: int|
            0 <= i < j < buckets.len() ==> (#[trigger] buckets[i]).upper_bound_ms < (
            #[trigger] buckets[j]).upper_bound_ms,
    ensures
        buckets_of(fields_of(values), parts) == Ok::<_, Seq<char>>(buckets),
    decreases parts.len(),
{
    let f = fields_of(values);
    if parts.len() > 0 {
        let last = parts.len() - 1;
        let front = buckets.drop_last();
        let before = parts.drop_last();
        assert forall|i: int| 0 <= i < front.len() implies reads(
            before[i],
            (#[trigger] front[i]).upper_bound_ms as int,
        ) && holds(values, "latency:"@ + decimal(i as nat), front[i].count as int) by {
            assert(buckets[i] == front[i]);
        }
        assert forall|i: int, j: int| 0 <= i < j < front.len() implies (
        #[trigger] front[i]).upper_bound_ms < (#[trigger] front[j]).upper_bound_ms by {
            assert(buckets[i].upper_bound_ms < buckets[j].upper_bound_ms);
        }
        lemma_buckets_owed(values, before, front);
        let b = buckets[last];
        let field = bucket_field(front.len());
        assert(field == "latency:"@ + decimal(last as nat));
        lemma_parsed(parts[last], u64::MAX as nat);
        assert(reads(parts[last], b.upper_bound_ms as int));
        lemma_held(values, field, b.count as int, u64::MAX as nat);
        lemma_parsed(f[field], u64::MAX as nat);
        if front.len() > 0 {
            assert(buckets[last - 1].upper_bound_ms < buckets[last].upper_bound_ms);
        }
        assert(bucket_after(f, front, parts[last]) == Ok::<_, Seq<char>>(b));
        assert(front.push(b) =~= buckets);
    } else {
        assert(buckets =~= Seq::<LatencyBucket>::empty());
    }
}

proof fn lemma_histogram_owed(values: Seq<Seq<char>>, buckets: Seq<LatencyBucket>)
    requires
        values.len() % 2 == 0,
        histogram_stored(values, buckets),
        forall|i: int, j: int|
            0 <= i < j < buckets.len() ==> (#[trigger] buckets[i]).upper_bound_ms < (
            #[trigger] buckets[j]).upper_bound_ms,
    ensures
        histogram_of(fields_of(values)) == Ok::<_, Seq<char>>(buckets),
{
    let text = choose|text: Seq<char>| #[trigger]
        stored(values, "histogram_bounds"@, text) && bounds_are(values, text, buckets);
    lemma_fields(values, "histogram_bounds"@);
    assert(stored(values, "histogram_bounds"@, text));
    if text.len() == 0 {
        assert(buckets =~= Seq::<LatencyBucket>::empty());
    } else {
        let parts = choose|parts: Seq<Seq<char>>| #[trigger]
            glued(parts, ',') == text && apart(parts, ',') && parts.len() == buckets.len()
                && forall|i: int|
                0 <= i < buckets.len() ==> reads(
                    parts[i],
                    (#[trigger] buckets[i]).upper_bound_ms as int,
                ) && holds(values, "latency:"@ + decimal(i as nat), buckets[i].count as int);
        assert(parts.len() >= 1) by {
            if parts.len() == 0 {
                assert(glued(parts, ',').len() == 0);
            }
        }
        lemma_split_glued(parts, ',');
        lemma_buckets_owed(values, parts, buckets);
    }
}

proof fn lemma_errors_owed(values: Seq<Seq<char>>, s: ScenarioRunSummary)
    requires
        readable(values, s),
    ensures
        errors_error(fields_of(values)) is None,
{
    let f = fields_of(values);
    let errors = s.error_breakdown@;
    let names = Seq::new(errors.len(), |i: int| errors[i].kind@);
    assert forall|kind: Seq<char>| #[trigger] error_kinds(f).contains(kind) implies parsed_unsigned(
        f[error_field(kind)],
        u64::MAX as nat,
    ) is Some && names.contains(kind) by {
        lemma_fields(values, error_field(kind));
        assert(stored(values, "error:"@ + kind, f[error_field(kind)]));
        assert(error_stored(values, kind));
        let i = choose|i: int| 0 <= i < errors.len() && (#[trigger] errors[i]).kind@ == kind;
        assert(holds(values, "error:"@ + errors[i].kind@, errors[i].count as int));
        lemma_held(values, "error:"@ + kind, errors[i].count as int, u64::MAX as nat);
        assert(names[i] == kind);
    }
    assert forall|kind: Seq<char>| #[trigger] names.contains(kind) implies error_kinds(
        f,
    ).contains(kind) by {
        let i = names.index_of(kind);
        assert(holds(values, "error:"@ + errors[i].kind@, errors[i].count as int));
        lemma_held(values, "error:"@ + kind, errors[i].count as int, u64::MAX as nat);
    }
    assert(names.no_duplicates()) by {
        assert forall|i: int, j: int| 0 <= i < j < names.len() implies names[i] != names[j] by {
            assert(errors[i].kind@ != errors[j].kind@);
        }
    }
    assert(names.to_set() =~= error_kinds(f));
    names.unique_seq_to_set();
    let n = s.error_breakdown.len();
    assert(n == errors.len());
    lemma_held(values, "error_kind_count"@, errors.len() as int, usize::MAX as nat);
}

proof fn lemma_head_owed(values: Seq<Seq<char>>, s: ScenarioRunSummary)
    requires
        sums_up(values, s),
    ensures
        head_error(fields_of(values)) is None,
        number(fields_of(values), "expected_slices"@) == s.expected_slices,
        number(fields_of(values), "received_slices"@) == s.received_slices,
        final_status(fields_of(values)["status"@]) == Some(s.status),
        fields_of(values).dom().contains("status"@),
        fields_of(values)["status"@] != "open"@,
{
    let label = choose|label: Seq<char>| #[trigger]
        stored(values, "status"@, label) && ended_as(label, s.status);
    lemma_fields(values, "status"@);
    assert(stored(values, "status"@, label));
    lemma_label_read(label, s.status);
    lemma_held(values, "expected_slices"@, s.expected_slices as int, u32::MAX as nat);
    lemma_held(values, "received_slices"@, s.received_slices as int, u32::MAX as nat);
}

proof fn lemma_totals_owed(values: Seq<Seq<char>>, s: ScenarioRunSummary)
    requires
        sums_up(values, s),
    ensures
        totals_error(fields_of(values), s.latency_histogram@) is None,
{
    let buckets = s.latency_histogram@;
    lemma_held(values, "total"@, s.total as int, u64::MAX as nat);
    lemma_held(values, "success"@, s.success as int, u64::MAX as nat);
    lemma_held(values, "failure"@, s.failure as int, u64::MAX as nat);
    lemma_observed(buckets, buckets.len() as int);
    assert(buckets.take(buckets.len() as int) =~= buckets);
}

proof fn lemma_tail_owed(values: Seq<Seq<char>>, s: ScenarioRunSummary)
    requires
        sums_up(values, s),
    ensures
        tail_error(fields_of(values)) is None,
{
    lemma_held(values, "schema_version"@, s.schema_version as int, u16::MAX as nat);
    lemma_held(values, "first_result_at"@, s.first_result_at_unix_ms as int, u128::MAX as nat);
    lemma_held(values, "finalized_at"@, s.finalized_at_unix_ms as int, u128::MAX as nat);
    lemma_fields(values, "scenario_id"@);
    lemma_fields(values, "run_id"@);
    assert(stored(values, "scenario_id"@, s.scenario_id@));
    assert(stored(values, "run_id"@, s.run_id@));
}

pub(crate) proof fn lemma_summary_owed(values: Seq<Seq<char>>, s: ScenarioRunSummary)
    requires
        readable(values, s),
    ensures
        snapshot_error(values) is None,
        summary_error(fields_of(values)) is None,
{
    lemma_head_owed(values, s);
    lemma_slices_owed(values, s);
    lemma_histogram_owed(values, s.latency_histogram@);
    lemma_errors_owed(values, s);
    lemma_totals_owed(values, s);
    lemma_tail_owed(values, s);
}

/// A summary is read wherever there is one that can be read.
pub proof fn law_summary_is_owed(
    values: Vec<String>,
    operation: &'static str,
    s: ScenarioRunSummary,
    r: Result<ScenarioRunSummary, RunAggregationStoreError>,
)
    requires
        readable(views(values@), s),
        call_ensures(summary_from_snapshot, (&values, operation), r),
    ensures
        r is Ok,
{
    lemma_summary_owed(views(values@), s);
}

/// The same with the state of its publication: its revisions are stored, none of them above
/// the revision of the summary.
pub proof fn law_durable_summary_is_owed(
    values: Vec<String>,
    operation: &'static str,
    s: ScenarioRunSummary,
    revision: u64,
    pending: u64,
    acknowledged: u64,
    r: Result<Option<DurableRunSummary>, RunAggregationStoreError>,
)
    requires
        readable(views(values@), s),
        holds(views(values@), "summary_revision"@, revision as int),
        revisions(views(values@), pending as int, acknowledged as int),
        1 <= revision,
        pending <= revision,
        acknowledged <= revision,
        call_ensures(durable_summary_from_snapshot, (&values, operation), r),
    ensures
        r matches Ok(found) && found is Some,
{
    let all = views(values@);
    lemma_summary_owed(all, s);
    lemma_head_owed(all, s);
    lemma_held(all, "summary_revision"@, revision as int, u64::MAX as nat);
    lemma_held(all, "summary_pending_revision"@, pending as int, u64::MAX as nat);
    lemma_held(all, "summary_ack_revision"@, acknowledged as int, u64::MAX as nat);
    lemma_fields(all, "status"@);
    lemma_goes_on(all);
    if goes_on(all) {
        if all.len() == 0 {
            assert(fields_of(all).dom() =~= Set::empty());
        } else {
            assert(stored(all, "status"@, "open"@));
        }
    }
}

/// An answer that a run has ended is read wherever its summary can be read.
pub proof fn law_ended_runs_are_told(
    store: RedisRunAggregationStore,
    code: i64,
    message: String,
    values: Vec<String>,
    s: ScenarioRunSummary,
    a: Result<RunAggregationUpdate, RunAggregationStoreError>,
    b: Result<RunExpiryOutcome, RunAggregationStoreError>,
    c: Result<RunFinalizationOutcome, RunAggregationStoreError>,
)
    requires
        readable(views(values@), s),
        call_ensures(
            RedisRunAggregationStore::ingest_reply,
            (&store, code, message, &values),
            a,
        ),
        call_ensures(
            RedisRunAggregationStore::mark_expired_reply,
            (&store, code, message, &values),
            b,
        ),
        call_ensures(
            RedisRunAggregationStore::finalize_run_reply,
            (&store, code, message, &values),
            c,
        ),
    ensures
        code == 3 ==> (a matches Ok(u) && u is Completed),
        code == 4 ==> (a matches Ok(u) && u is LateCompleted),
        code == 2 ==> (b matches Ok(u) && u is MarkedTimedOut),
        code == 3 ==> (b matches Ok(u) && u is AlreadyFinalized),
        code == 1 ==> (c matches Ok(u) && u is Finalized),
        code == 2 ==> (c matches Ok(u) && u is AlreadyFinalized),
{
    lemma_summary_owed(views(values@), s);
}

/// The same of exchanges that ended well.
pub proof fn law_ended_runs_are_told_by_exchanges(
    store: RedisRunAggregationStore,
    exchange: Exchange<(i64, String, Vec<String>)>,
    s: ScenarioRunSummary,
    a: Result<RunAggregationUpdate, RunAggregationStoreError>,
    b: Result<RunExpiryOutcome, RunAggregationStoreError>,
    c: Result<RunFinalizationOutcome, RunAggregationStoreError>,
)
    requires
        exchange matches Exchange::Done(reply) && readable(views(reply.2@), s),
        call_ensures(RedisRunAggregationStore::ingest, (&store, exchange), a),
        call_ensures(RedisRunAggregationStore::mark_expired, (&store, exchange), b),
        call_ensures(RedisRunAggregationStore::finalize_run, (&store, exchange), c),
    ensures
        exchange->Done_0.0 == 3 ==> (a matches Ok(u) && u is Completed),
        exchange->Done_0.0 == 4 ==> (a matches Ok(u) && u is LateCompleted),
        exchange->Done_0.0 == 2 ==> (b matches Ok(u) && u is MarkedTimedOut),
        exchange->Done_0.0 == 3 ==> (b matches Ok(u) && u is AlreadyFinalized),
        exchange->Done_0.0 == 1 ==> (c matches Ok(u) && u is Finalized),
        exchange->Done_0.0 == 2 ==> (c matches Ok(u) && u is AlreadyFinalized),
{
    lemma_summary_owed(views(exchange->Done_0.2@), s);
}

} // verus!
