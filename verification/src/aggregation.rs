//! The run aggregation store: its bounds, its keys, the calls that it makes and
//! what their replies mean.
use std::time::Duration;
use vstd::prelude::*;
use crate::aggregation_scripts::{
    ACKNOWLEDGE_SUMMARY_SCRIPT, CLEAN_OUTBOX_SCRIPT, DUE_RUNS_SCRIPT, FINALIZE_RUN_SCRIPT,
    INGEST_SCRIPT, MARK_EXPIRED_SCRIPT,
};
use crate::calls::{texts1, texts2, texts3, texts4, ScriptCall};
use crate::contracts::{
    ContractError, DurableRunSummary, ErrorCount, LatencyBucket, ScenarioRunResult,
    ScenarioRunSummary, ScenarioRunSummaryStatus, MAX_CONTRACT_ERROR_KIND_BYTES,
    MAX_CONTRACT_EXACT_INTEGER, MAX_CONTRACT_HISTOGRAM_BUCKETS, MAX_CONTRACT_SLICES,
};
use crate::durations::{is_zero, shorter};
#[allow(unused_imports)]
use crate::durations::{millis, nanos};
use crate::ordered::TextMap;
#[allow(unused_imports)]
use crate::keys::hash_tag;
#[allow(unused_imports)]
use crate::ordered::increasing;
use crate::snapshot::{
    durable_summary_from_snapshot, invalid_state, progress, summary_from_snapshot,
    RunAggregationStoreError,
};
#[allow(unused_imports)]
use crate::snapshot::{
    durable_error, fields_of, final_status, is_durable, is_open, is_summary, number, progress_error,
    snapshot_error,
};
use crate::text::{
    blank, byte_len, concat2, concat3, concat4, contains_char, copy_str, decimal_i64, decimal_u64,
    decimal_usize, join, parse_u64, str_eq,
};
#[allow(unused_imports)]
use crate::text::{
    decimal, decimal_int, is_blank, joined, parsed_unsigned, split_on, text_less, utf8_len, views,
};

verus! {

/// How long one exchange with Redis may take, in milliseconds, unless another
/// bound is set.
pub const DEFAULT_OPERATION_TIMEOUT_MS: u64 = 2_000;

pub const DEFAULT_MAX_ERROR_KINDS: usize = 64;

pub const DEFAULT_MAX_ACTIVE_RUNS: usize = 10_000;

pub const DEFAULT_MAX_SCAN_LIMIT: usize = 1_024;

/// The most bytes of an identity or a key prefix.
pub const MAX_IDENTITY_BYTES: usize = 1_024;

/// The largest integer that Lua, whose numbers are doubles, counts exactly.
pub const MAX_EXACT_LUA_INTEGER: u64 = MAX_CONTRACT_EXACT_INTEGER;

/// What became of a result that was handed in.
#[derive(Debug, PartialEq, Eq)]
pub enum RunAggregationUpdate {
    Accepted { received_slices: u32, expected_slices: u32 },
    LateAccepted { received_slices: u32, expected_slices: u32 },
    Duplicate {
        received_slices: u32,
        expected_slices: u32,
        finalized_status: Option<ScenarioRunSummaryStatus>,
    },
    Completed(ScenarioRunSummary),
    LateCompleted(ScenarioRunSummary),
}

/// What became of a run whose deadline was looked at.
#[derive(Debug, PartialEq, Eq)]
pub enum RunExpiryOutcome {
    Missing,
    NotExpired { retry_after: Duration },
    MarkedTimedOut(ScenarioRunSummary),
    AlreadyFinalized(ScenarioRunSummary),
}

/// What became of a run that was to be ended.
#[derive(Debug, PartialEq, Eq)]
pub enum RunFinalizationOutcome {
    Missing,
    Finalized(ScenarioRunSummary),
    AlreadyFinalized(ScenarioRunSummary),
}

/// What became of the acknowledgement of a summary.
#[derive(Debug, PartialEq, Eq)]
pub enum SummaryAcknowledgement {
    Missing,
    Acknowledged,
    AlreadyAcknowledged,
    Stale { current_revision: u64 },
}

/// The bounds of an aggregation store and the prefix of its keys.
#[derive(Debug)]
pub struct RedisRunAggregationStore {
    key_prefix: String,
    partial_timeout: Duration,
    retention_ttl: Duration,
    operation_timeout: Duration,
    max_error_kinds: usize,
    max_active_runs: usize,
    max_scan_limit: usize,
}

/// A result in the form in which the store counts it.
#[derive(Debug)]
pub struct NormalizedResult {
    pub histogram_bounds: String,
    pub histogram_counts: Vec<u64>,
    pub error_counts: Vec<(String, u64)>,
}

// ---------------------------------------------------------------------------
// Durations
// ---------------------------------------------------------------------------

/// Why a span cannot be handed to Redis in milliseconds.
pub open spec fn duration_error(d: Duration) -> Option<Seq<char>> {
    if nanos(d) == 0 {
        Some("duration must be at least one millisecond"@)
    } else if millis(d) > i64::MAX {
        Some("duration exceeds the Redis integer range"@)
    } else {
        None
    }
}

/// The milliseconds of a span that is not empty.
pub fn checked_duration_ms(operation: &'static str, duration: Duration) -> (r: Result<
    i64,
    RunAggregationStoreError,
>)
    ensures
        match r {
            Ok(ms) => duration_error(duration) is None && ms == millis(duration),
            Err(e) => duration_error(duration) matches Some(m) && e.is_invalid_state(operation@, m),
        },
{
    if is_zero(duration) {
        return Err(invalid_state(operation, "duration must be at least one millisecond"));
    }
    let ms: u128 = duration.as_millis();
    if ms > i64::MAX as u128 {
        return Err(invalid_state(operation, "duration exceeds the Redis integer range"));
    }
    Ok(ms as i64)
}

/// Why a span cannot be counted exactly by Lua.
pub open spec fn lua_duration_error(d: Duration) -> Option<Seq<char>> {
    if duration_error(d) is Some {
        duration_error(d)
    } else if millis(d) > MAX_EXACT_LUA_INTEGER {
        Some("duration exceeds Redis Lua's exact integer range"@)
    } else {
        None
    }
}

/// The milliseconds of a span that Lua counts exactly.
pub fn checked_lua_duration_ms(operation: &'static str, duration: Duration) -> (r: Result<
    i64,
    RunAggregationStoreError,
>)
    ensures
        match r {
            Ok(ms) => lua_duration_error(duration) is None && ms == millis(duration),
            Err(e) => lua_duration_error(duration) matches Some(m) && e.is_invalid_state(
                operation@,
                m,
            ),
        },
{
    let ms: i64 = checked_duration_ms(operation, duration)?;
    if ms > MAX_EXACT_LUA_INTEGER as i64 {
        return Err(invalid_state(operation, "duration exceeds Redis Lua's exact integer range"));
    }
    Ok(ms)
}

// ---------------------------------------------------------------------------
// Configuration
// ---------------------------------------------------------------------------

/// Whether a key prefix may stand before the hash tag.
pub open spec fn prefix_ok(prefix: Seq<char>) -> bool {
    &&& !is_blank(prefix)
    &&& utf8_len(prefix) <= MAX_IDENTITY_BYTES
    &&& !prefix.contains('{')
    &&& !prefix.contains('}')
}

/// Why a store cannot be made.
pub open spec fn store_error(prefix: Seq<char>, partial_timeout: Duration, retention_ttl: Duration) -> Option<
    Seq<char>,
> {
    if !prefix_ok(prefix) {
        Some(
            "Redis aggregation key prefix must be non-empty, bounded, and contain no hash-tag braces"@,
        )
    } else if lua_duration_error(partial_timeout) is Some {
        lua_duration_error(partial_timeout)
    } else if lua_duration_error(retention_ttl) is Some {
        lua_duration_error(retention_ttl)
    } else if nanos(retention_ttl) <= nanos(partial_timeout) {
        Some("aggregation retention TTL must exceed the partial-run timeout"@)
    } else {
        None
    }
}

/// Whether a bound on a count can be handed to Lua.
pub open spec fn limit_ok(n: usize) -> bool {
    0 < n <= MAX_EXACT_LUA_INTEGER
}

fn check_limit(n: usize) -> (ok: bool)
    ensures
        ok == limit_ok(n),
{
    n > 0 && n as u64 <= MAX_EXACT_LUA_INTEGER
}

impl RedisRunAggregationStore {
    pub closed spec fn prefix(&self) -> Seq<char> {
        self.key_prefix@
    }

    pub closed spec fn partial(&self) -> Duration {
        self.partial_timeout
    }

    pub closed spec fn retention(&self) -> Duration {
        self.retention_ttl
    }

    pub closed spec fn exchange_timeout(&self) -> Duration {
        self.operation_timeout
    }

    pub closed spec fn error_kind_limit(&self) -> usize {
        self.max_error_kinds
    }

    pub closed spec fn active_run_limit(&self) -> usize {
        self.max_active_runs
    }

    pub closed spec fn scan_limit(&self) -> usize {
        self.max_scan_limit
    }

    /// The bounds that every store keeps.
    pub open spec fn wf(&self) -> bool {
        &&& store_error(self.prefix(), self.partial(), self.retention()) is None
        &&& duration_error(self.exchange_timeout()) is None
        &&& limit_ok(self.error_kind_limit())
        &&& limit_ok(self.active_run_limit())
        &&& limit_ok(self.scan_limit())
    }

    /// A store whose deadline begins with the first received slice. The retention
    /// must exceed the deadline, so that runs that miss slices stay known.
    pub fn new(key_prefix: String, partial_timeout: Duration, retention_ttl: Duration) -> (r: Result<
        Self,
        RunAggregationStoreError,
    >)
        ensures
            match r {
                Ok(s) => {
                    &&& store_error(key_prefix@, partial_timeout, retention_ttl) is None
                    &&& s.wf()
                    &&& s.prefix() == key_prefix@
                    &&& s.partial() == partial_timeout
                    &&& s.retention() == retention_ttl
                    &&& nanos(s.exchange_timeout()) == DEFAULT_OPERATION_TIMEOUT_MS * 1_000_000
                    &&& s.error_kind_limit() == DEFAULT_MAX_ERROR_KINDS
                    &&& s.active_run_limit() == DEFAULT_MAX_ACTIVE_RUNS
                    &&& s.scan_limit() == DEFAULT_MAX_SCAN_LIMIT
                },
                Err(e) => store_error(key_prefix@, partial_timeout, retention_ttl) matches Some(m)
                    && e.is_invalid_state("aggregation_config"@, m),
            },
    {
        if blank(&key_prefix) || byte_len(&key_prefix) > MAX_IDENTITY_BYTES || contains_char(
            &key_prefix,
            '{',
        ) || contains_char(&key_prefix, '}') {
            return Err(
                invalid_state(
                    "aggregation_config",
                    "Redis aggregation key prefix must be non-empty, bounded, and contain no hash-tag braces",
                ),
            );
        }
        let _ = checked_lua_duration_ms("aggregation_config", partial_timeout)?;
        let _ = checked_lua_duration_ms("aggregation_config", retention_ttl)?;
        if !shorter(partial_timeout, retention_ttl) {
            return Err(
                invalid_state(
                    "aggregation_config",
                    "aggregation retention TTL must exceed the partial-run timeout",
                ),
            );
        }
        Ok(
            RedisRunAggregationStore {
                key_prefix,
                partial_timeout,
                retention_ttl,
                operation_timeout: Duration::from_millis(DEFAULT_OPERATION_TIMEOUT_MS),
                max_error_kinds: DEFAULT_MAX_ERROR_KINDS,
                max_active_runs: DEFAULT_MAX_ACTIVE_RUNS,
                max_scan_limit: DEFAULT_MAX_SCAN_LIMIT,
            },
        )
    }

    /// The same store with another bound on one exchange.
    pub fn with_operation_timeout(self, operation_timeout: Duration) -> (r: Result<
        Self,
        RunAggregationStoreError,
    >)
        requires
            self.wf(),
        ensures
            match r {
                Ok(s) => {
                    &&& duration_error(operation_timeout) is None
                    &&& s.wf()
                    &&& s.exchange_timeout() == operation_timeout
                    &&& s.same_keys(self)
                    &&& s.error_kind_limit() == self.error_kind_limit()
                    &&& s.active_run_limit() == self.active_run_limit()
                    &&& s.scan_limit() == self.scan_limit()
                },
                Err(e) => duration_error(operation_timeout) matches Some(m) && e.is_invalid_state(
                    "aggregation_config"@,
                    m,
                ),
            },
    {
        let _ = checked_duration_ms("aggregation_config", operation_timeout)?;
        let mut store = self;
        store.operation_timeout = operation_timeout;
        Ok(store)
    }

    /// Whether two stores have the same prefix and the same deadlines.
    pub open spec fn same_keys(self, other: Self) -> bool {
        &&& self.prefix() == other.prefix()
        &&& self.partial() == other.partial()
        &&& self.retention() == other.retention()
    }

    /// The same store with another bound on the error kinds of a run.
    pub fn with_max_error_kinds(self, max_error_kinds: usize) -> (r: Result<
        Self,
        RunAggregationStoreError,
    >)
        requires
            self.wf(),
        ensures
            match r {
                Ok(s) => {
                    &&& limit_ok(max_error_kinds)
                    &&& s.wf()
                    &&& s.error_kind_limit() == max_error_kinds
                    &&& s.same_keys(self)
                    &&& s.exchange_timeout() == self.exchange_timeout()
                    &&& s.active_run_limit() == self.active_run_limit()
                    &&& s.scan_limit() == self.scan_limit()
                },
                Err(e) => !limit_ok(max_error_kinds) && e.is_invalid_state(
                    "aggregation_config"@,
                    "maximum error kinds must fit in Redis and be greater than zero"@,
                ),
            },
    {
        if !check_limit(max_error_kinds) {
            return Err(
                invalid_state(
                    "aggregation_config",
                    "maximum error kinds must fit in Redis and be greater than zero",
                ),
            );
        }
        let mut store = self;
        store.max_error_kinds = max_error_kinds;
        Ok(store)
    }

    /// The same store with another bound on the runs that are known at once.
    pub fn with_max_active_runs(self, max_active_runs: usize) -> (r: Result<
        Self,
        RunAggregationStoreError,
    >)
        requires
            self.wf(),
        ensures
            match r {
                Ok(s) => {
                    &&& limit_ok(max_active_runs)
                    &&& s.wf()
                    &&& s.active_run_limit() == max_active_runs
                    &&& s.same_keys(self)
                    &&& s.exchange_timeout() == self.exchange_timeout()
                    &&& s.error_kind_limit() == self.error_kind_limit()
                    &&& s.scan_limit() == self.scan_limit()
                },
                Err(e) => !limit_ok(max_active_runs) && e.is_invalid_state(
                    "aggregation_config"@,
                    "maximum active runs must fit in Redis and be greater than zero"@,
                ),
            },
    {
        if !check_limit(max_active_runs) {
            return Err(
                invalid_state(
                    "aggregation_config",
                    "maximum active runs must fit in Redis and be greater than zero",
                ),
            );
        }
        let mut store = self;
        store.max_active_runs = max_active_runs;
        Ok(store)
    }

    /// The same store with another bound on the runs that one scan lists.
    pub fn with_max_scan_limit(self, max_scan_limit: usize) -> (r: Result<
        Self,
        RunAggregationStoreError,
    >)
        requires
            self.wf(),
        ensures
            match r {
                Ok(s) => {
                    &&& limit_ok(max_scan_limit)
                    &&& s.wf()
                    &&& s.scan_limit() == max_scan_limit
                    &&& s.same_keys(self)
                    &&& s.exchange_timeout() == self.exchange_timeout()
                    &&& s.error_kind_limit() == self.error_kind_limit()
                    &&& s.active_run_limit() == self.active_run_limit()
                },
                Err(e) => !limit_ok(max_scan_limit) && e.is_invalid_state(
                    "aggregation_config"@,
                    "maximum aggregation scan limit must fit in Redis and be greater than zero"@,
                ),
            },
    {
        if !check_limit(max_scan_limit) {
            return Err(
                invalid_state(
                    "aggregation_config",
                    "maximum aggregation scan limit must fit in Redis and be greater than zero",
                ),
            );
        }
        let mut store = self;
        store.max_scan_limit = max_scan_limit;
        Ok(store)
    }

    /// How long one exchange may take.
    pub fn operation_timeout(&self) -> (d: Duration)
        ensures
            d == self.exchange_timeout(),
    {
        self.operation_timeout
    }
}

// ---------------------------------------------------------------------------
// Keys
// ---------------------------------------------------------------------------

/// The key with the fields of a run.
pub open spec fn run_key(prefix: Seq<char>, run_id: Seq<char>) -> Seq<char> {
    prefix + ":{runs}:run:"@ + run_id
}

/// The key of the runs by deadline.
pub open spec fn deadline_key_of(prefix: Seq<char>) -> Seq<char> {
    prefix + ":{runs}:deadlines"@
}

/// The key of the runs with a summary to publish.
pub open spec fn outbox_key_of(prefix: Seq<char>) -> Seq<char> {
    prefix + ":{runs}:summary-outbox"@
}

/// The key of the runs that are known.
pub open spec fn active_key_of(prefix: Seq<char>) -> Seq<char> {
    prefix + ":{runs}:active"@
}

proof fn lemma_tag(prefix: Seq<char>, mid: Seq<char>, rest: Seq<char>)
    requires
        !prefix.contains('{'),
        mid.len() >= 7,
        mid.take(7) == seq![':', '{', 'r', 'u', 'n', 's', '}'],
    ensures
        hash_tag(prefix + mid + rest) == Some("runs"@),
{
    reveal_strlit("runs");
    let key = prefix + mid + rest;
    let p = prefix.len() as int;
    assert forall|i: int| 0 <= i < 7 implies key[p + i] == seq![
        ':',
        '{',
        'r',
        'u',
        'n',
        's',
        '}',
    ][i] by {
        assert(mid.take(7)[i] == mid[i]);
    }
    assert(key[p + 1] == '{');
    key.index_of_first_ensures('{');
    assert forall|i: int| 0 <= i <= p implies key[i] != '{' by {
        if i < p {
            assert(prefix.contains(prefix[i]));
        } else {
            assert(key[p + 0] == ':');
        }
    }
    assert(key.index_of_first('{') == Some(p + 1));
    let tail = key.skip(p + 2);
    assert(tail[0] == key[p + 2] && tail[1] == key[p + 3] && tail[2] == key[p + 4] && tail[3]
        == key[p + 5] && tail[4] == key[p + 6]);
    tail.index_of_first_ensures('}');
    assert(tail.index_of_first('}') == Some(4int));
    assert(tail.take(4) =~= "runs"@);
}

/// All keys of a store carry the same hash tag, so that Redis Cluster keeps them in
/// one slot and a program may change them in one step.
pub proof fn lemma_keys_share_a_slot(prefix: Seq<char>, run_id: Seq<char>)
    requires
        prefix_ok(prefix),
    ensures
        hash_tag(run_key(prefix, run_id)) == Some("runs"@),
        hash_tag(deadline_key_of(prefix)) == Some("runs"@),
        hash_tag(outbox_key_of(prefix)) == Some("runs"@),
        hash_tag(active_key_of(prefix)) == Some("runs"@),
{
    let tag = seq![':', '{', 'r', 'u', 'n', 's', '}'];
    reveal_strlit(":{runs}:run:");
    reveal_strlit(":{runs}:deadlines");
    reveal_strlit(":{runs}:summary-outbox");
    reveal_strlit(":{runs}:active");
    let none = Seq::<char>::empty();
    assert(":{runs}:run:"@.take(7) =~= tag);
    assert(":{runs}:deadlines"@.take(7) =~= tag);
    assert(":{runs}:summary-outbox"@.take(7) =~= tag);
    assert(":{runs}:active"@.take(7) =~= tag);
    lemma_tag(prefix, ":{runs}:run:"@, run_id);
    lemma_tag(prefix, ":{runs}:deadlines"@, none);
    lemma_tag(prefix, ":{runs}:summary-outbox"@, none);
    lemma_tag(prefix, ":{runs}:active"@, none);
    assert(deadline_key_of(prefix) + none =~= deadline_key_of(prefix));
    assert(outbox_key_of(prefix) + none =~= outbox_key_of(prefix));
    assert(active_key_of(prefix) + none =~= active_key_of(prefix));
}

impl RedisRunAggregationStore {
    /// The key with the fields of a run.
    pub fn key_for_run(&self, run_id: &str) -> (key: String)
        ensures
            key@ == run_key(self.prefix(), run_id@),
    {
        concat3(&self.key_prefix, ":{runs}:run:", run_id)
    }

    /// The key of the runs by deadline.
    pub fn deadline_key(&self) -> (key: String)
        ensures
            key@ == deadline_key_of(self.prefix()),
    {
        concat2(&self.key_prefix, ":{runs}:deadlines")
    }

    /// The key of the runs with a summary to publish.
    pub fn outbox_key(&self) -> (key: String)
        ensures
            key@ == outbox_key_of(self.prefix()),
    {
        concat2(&self.key_prefix, ":{runs}:summary-outbox")
    }

    /// The key of the runs that are known.
    pub fn active_key(&self) -> (key: String)
        ensures
            key@ == active_key_of(self.prefix()),
    {
        concat2(&self.key_prefix, ":{runs}:active")
    }

    /// The bound of one scan, where it is within the store's own bound.
    pub fn validate_scan_limit(&self, limit: usize) -> (r: Result<i64, RunAggregationStoreError>)
        requires
            self.wf(),
        ensures
            match r {
                Ok(n) => 0 < limit <= self.scan_limit() && n == limit,
                Err(e) => !(0 < limit <= self.scan_limit()) && e.is_invalid_state(
                    "aggregation_scan"@,
                    "scan limit must be within 1..="@ + decimal(self.scan_limit() as nat),
                ),
            },
    {
        if limit == 0 || limit > self.max_scan_limit {
            return Err(
                invalid_state(
                    "aggregation_scan",
                    &concat2("scan limit must be within 1..=", &decimal_usize(self.max_scan_limit)),
                ),
            );
        }
        Ok(limit as i64)
    }
}

// ---------------------------------------------------------------------------
// Results
// ---------------------------------------------------------------------------

/// Why a result cannot be counted.
pub enum IngestProblem {
    /// It breaks its contract.
    Contract(ContractError),
    /// It lies outside a bound of the store, with a message.
    Invalid(Seq<char>),
    /// A number of it is too large for Lua: what it counts.
    Inexact(Seq<char>),
    /// It names more error kinds than the store keeps.
    Capacity,
}

impl RunAggregationStoreError {
    /// Whether this error reports the problem of a result, in a store with a bound
    /// on the error kinds.
    pub open spec fn reports(self, problem: IngestProblem, max_error_kinds: usize) -> bool {
        match problem {
            IngestProblem::Contract(c) => self == RunAggregationStoreError::Contract(c),
            IngestProblem::Invalid(m) => self.is_invalid_state("aggregation_ingest"@, m),
            IngestProblem::Inexact(field) => {
                self matches RunAggregationStoreError::Contract(ContractError::InvalidResult(m))
                    && m@ == field + " exceeds Redis Lua's exact integer range"@
            },
            IngestProblem::Capacity => self == (RunAggregationStoreError::ErrorKindCapacity {
                max_error_kinds,
            }),
        }
    }
}

/// Whether Lua counts a number exactly.
pub open spec fn exact(n: nat) -> bool {
    n <= MAX_EXACT_LUA_INTEGER
}

/// Refuses a number of a result that Lua does not count exactly.
fn exact_result_integer(field: &'static str, value: u64) -> (r: Result<
    (),
    RunAggregationStoreError,
>)
    ensures
        match r {
            Ok(_) => exact(value as nat),
            Err(e) => !exact(value as nat) && e.reports(IngestProblem::Inexact(field@), 0),
        },
{
    if value > MAX_EXACT_LUA_INTEGER {
        return Err(
            RunAggregationStoreError::Contract(
                ContractError::InvalidResult(
                    concat2(field, " exceeds Redis Lua's exact integer range"),
                ),
            ),
        );
    }
    Ok(())
}

/// Whether a text can be an identity.
pub open spec fn identity_ok(value: Seq<char>) -> bool {
    !is_blank(value) && utf8_len(value) <= MAX_IDENTITY_BYTES
}

/// The message of a text that cannot be an identity.
pub open spec fn identity_message(field: Seq<char>) -> Seq<char> {
    field + " must be non-empty and at most "@ + decimal(MAX_IDENTITY_BYTES as nat) + " bytes"@
}

/// Refuses a text that cannot be an identity.
fn validate_identity(field: &'static str, value: &str) -> (r: Result<(), RunAggregationStoreError>)
    ensures
        match r {
            Ok(_) => identity_ok(value@),
            Err(e) => !identity_ok(value@) && e.is_invalid_state(
                "aggregation_ingest"@,
                identity_message(field@),
            ),
        },
{
    if blank(value) || byte_len(value) > MAX_IDENTITY_BYTES {
        return Err(
            invalid_state(
                "aggregation_ingest",
                &concat4(
                    field,
                    " must be non-empty and at most ",
                    &decimal_usize(MAX_IDENTITY_BYTES),
                    " bytes",
                ),
            ),
        );
    }
    Ok(())
}

/// The counts of an error breakdown by kind; counts of one kind are added.
pub open spec fn merged(errors: Seq<ErrorCount>) -> Map<Seq<char>, nat>
    decreases errors.len(),
{
    if errors.len() == 0 {
        Map::empty()
    } else {
        let before = merged(errors.drop_last());
        let kind = errors.last().kind@;
        before.insert(kind, merged_count(before, kind) + errors.last().count as nat)
    }
}

/// The count of a kind, and 0 where there is none.
pub open spec fn merged_count(counts: Map<Seq<char>, nat>, kind: Seq<char>) -> nat {
    if counts.dom().contains(kind) {
        counts[kind]
    } else {
        0
    }
}

/// What is wrong with the first error count that cannot be counted.
pub open spec fn errors_problem(errors: Seq<ErrorCount>) -> Option<IngestProblem>
    decreases errors.len(),
{
    if errors.len() == 0 {
        None
    } else if errors_problem(errors.drop_last()) is Some {
        errors_problem(errors.drop_last())
    } else {
        let last = errors.last();
        if is_blank(last.kind@) || utf8_len(last.kind@) > MAX_CONTRACT_ERROR_KIND_BYTES {
            Some(IngestProblem::Invalid("error kind must be non-empty and at most 256 bytes"@))
        } else if !exact(last.count as nat) {
            Some(IngestProblem::Inexact("error count"@))
        } else if !exact(merged(errors)[last.kind@]) {
            Some(IngestProblem::Inexact("merged error count"@))
        } else {
            None
        }
    }
}

proof fn lemma_errors_problem_stays(errors: Seq<ErrorCount>, k: int)
    requires
        0 <= k <= errors.len(),
        errors_problem(errors.take(k)) is Some,
    ensures
        errors_problem(errors) == errors_problem(errors.take(k)),
    decreases errors.len(),
{
    if k == errors.len() {
        assert(errors.take(k) == errors);
    } else {
        assert(errors.drop_last().take(k) == errors.take(k));
        lemma_errors_problem_stays(errors.drop_last(), k);
    }
}

/// Whether some bucket's count is too large for Lua.
pub open spec fn inexact_bucket(buckets: Seq<LatencyBucket>) -> bool {
    exists|i: int| 0 <= i < buckets.len() && !exact(#[trigger] buckets[i].count as nat)
}

/// Why a result cannot be counted by a store that keeps so many error kinds: the
/// first rule that it breaks.
pub open spec fn ingest_problem(
    result: ScenarioRunResult,
    contract: Result<(), ContractError>,
    max_error_kinds: usize,
) -> Option<IngestProblem> {
    if contract is Err {
        Some(IngestProblem::Contract(contract->Err_0))
    } else if result.slice.total > MAX_CONTRACT_SLICES {
        Some(
            IngestProblem::Invalid(
                "expected slices exceed the bounded maximum of "@ + decimal(
                    MAX_CONTRACT_SLICES as nat,
                ),
            ),
        )
    } else if result.latency_histogram@.len() > MAX_CONTRACT_HISTOGRAM_BUCKETS {
        Some(
            IngestProblem::Invalid(
                "latency histogram exceeds the bounded maximum of "@ + decimal(
                    MAX_CONTRACT_HISTOGRAM_BUCKETS as nat,
                ) + " buckets"@,
            ),
        )
    } else if result.error_breakdown@.len() > max_error_kinds {
        Some(IngestProblem::Capacity)
    } else if !identity_ok(result.scenario_id@) {
        Some(IngestProblem::Invalid(identity_message("scenario_id"@)))
    } else if !identity_ok(result.run_id@) {
        Some(IngestProblem::Invalid(identity_message("run_id"@)))
    } else if !identity_ok(result.execution_key@) {
        Some(IngestProblem::Invalid(identity_message("execution_key"@)))
    } else if !exact(result.total as nat) {
        Some(IngestProblem::Inexact("total"@))
    } else if !exact(result.success as nat) {
        Some(IngestProblem::Inexact("success"@))
    } else if !exact(result.failure as nat) {
        Some(IngestProblem::Inexact("failure"@))
    } else if inexact_bucket(result.latency_histogram@) {
        Some(IngestProblem::Inexact("latency bucket count"@))
    } else {
        errors_problem(result.error_breakdown@)
    }
}

/// The decimal forms of the bounds of a histogram.
pub open spec fn bound_texts(buckets: Seq<LatencyBucket>) -> Seq<Seq<char>> {
    buckets.map_values(|b: LatencyBucket| decimal(b.upper_bound_ms as nat))
}

/// The counts of a histogram.
pub open spec fn bucket_counts(buckets: Seq<LatencyBucket>) -> Seq<u64> {
    buckets.map_values(|b: LatencyBucket| b.count)
}

/// The kinds of counted errors.
pub open spec fn counted_kinds(pairs: Seq<(String, u64)>) -> Seq<Seq<char>> {
    pairs.map_values(|p: (String, u64)| p.0@)
}

/// Whether these are the counts by kind, in the order of the kinds.
pub open spec fn are_counts(pairs: Seq<(String, u64)>, counts: Map<Seq<char>, nat>) -> bool {
    &&& increasing(counted_kinds(pairs))
    &&& forall|k: Seq<char>| #[trigger] counted_kinds(pairs).contains(k) <==> counts.dom().contains(k)
    &&& forall|i: int| 0 <= i < pairs.len() ==> (#[trigger] pairs[i]).1 == counts[pairs[i].0@]
}

impl NormalizedResult {
    /// Whether this is how a result is counted.
    pub open spec fn counts(self, result: ScenarioRunResult) -> bool {
        &&& self.histogram_bounds@ == joined(bound_texts(result.latency_histogram@), ","@)
        &&& self.histogram_counts@ == bucket_counts(result.latency_histogram@)
        &&& are_counts(self.error_counts@, merged(result.error_breakdown@))
    }
}

/// The counts of the errors by kind.
fn merge_errors(errors: &Vec<ErrorCount>) -> (r: Result<TextMap<u64>, RunAggregationStoreError>)
    ensures
        match r {
            Ok(map) => {
                &&& errors_problem(errors@) is None
                &&& map.wf()
                &&& map@.dom() == merged(errors@).dom()
                &&& forall|k: Seq<char>| #[trigger]
                    map@.dom().contains(k) ==> map@[k] == merged(errors@)[k]
            },
            Err(e) => errors_problem(errors@) matches Some(p) && !(p is Capacity) && e.reports(p, 0),
        },
{
    let mut map: TextMap<u64> = TextMap::new();
    let mut i: usize = 0;
    assert(map@.dom() =~= merged(errors@.take(0)).dom());
    while i < errors.len()
        invariant
            i <= errors@.len(),
            map.wf(),
            map@.dom() == merged(errors@.take(i as int)).dom(),
            forall|k: Seq<char>| #[trigger]
                map@.dom().contains(k) ==> map@[k] == merged(errors@.take(i as int))[k] && exact(
                    map@[k] as nat,
                ),
            errors_problem(errors@.take(i as int)) is None,
        decreases errors@.len() - i,
    {
        let error = &errors[i];
        let ghost next = errors@.take(i + 1);
        proof {
            assert(next.drop_last() == errors@.take(i as int));
            assert(next.last() == *error);
            if errors_problem(next) is Some {
                lemma_errors_problem_stays(errors@, i + 1);
            }
        }
        if blank(&error.kind) || byte_len(&error.kind) > MAX_CONTRACT_ERROR_KIND_BYTES {
            return Err(
                invalid_state(
                    "aggregation_ingest",
                    "error kind must be non-empty and at most 256 bytes",
                ),
            );
        }
        exact_result_integer("error count", error.count)?;
        let before: u64 = match map.get(&error.kind) {
            Some(n) => *n,
            None => 0,
        };
        let count: u64 = before + error.count;
        assert(merged(next)[error.kind@] == count);
        exact_result_integer("merged error count", count)?;
        map.insert(error.kind.clone(), count);
        assert(map@.dom() =~= merged(next).dom());
        i += 1;
    }
    assert(errors@.take(i as int) == errors@);
    Ok(map)
}

impl RedisRunAggregationStore {
    /// Brings a result into the form in which the store counts it. `contract` says
    /// whether the result keeps its contract.
    pub fn normalize_result(
        &self,
        result: &ScenarioRunResult,
        contract: Result<(), ContractError>,
    ) -> (r: Result<NormalizedResult, RunAggregationStoreError>)
        ensures
            match r {
                Ok(n) => {
                    &&& ingest_problem(*result, contract, self.error_kind_limit()) is None
                    &&& n.counts(*result)
                },
                Err(e) => ingest_problem(*result, contract, self.error_kind_limit()) matches Some(p)
                    && e.reports(p, self.error_kind_limit()),
            },
    {
        match contract {
            Ok(_) => {},
            Err(c) => {
                return Err(RunAggregationStoreError::Contract(c));
            },
        }
        if result.slice.total > MAX_CONTRACT_SLICES {
            return Err(
                invalid_state(
                    "aggregation_ingest",
                    &concat2(
                        "expected slices exceed the bounded maximum of ",
                        &decimal_u64(MAX_CONTRACT_SLICES as u64),
                    ),
                ),
            );
        }
        if result.latency_histogram.len() > MAX_CONTRACT_HISTOGRAM_BUCKETS {
            return Err(
                invalid_state(
                    "aggregation_ingest",
                    &concat3(
                        "latency histogram exceeds the bounded maximum of ",
                        &decimal_usize(MAX_CONTRACT_HISTOGRAM_BUCKETS),
                        " buckets",
                    ),
                ),
            );
        }
        if result.error_breakdown.len() > self.max_error_kinds {
            return Err(
                RunAggregationStoreError::ErrorKindCapacity {
                    max_error_kinds: self.max_error_kinds,
                },
            );
        }
        validate_identity("scenario_id", &result.scenario_id)?;
        validate_identity("run_id", &result.run_id)?;
        validate_identity("execution_key", &result.execution_key)?;
        exact_result_integer("total", result.total)?;
        exact_result_integer("success", result.success)?;
        exact_result_integer("failure", result.failure)?;

        let ghost buckets = result.latency_histogram@;
        let mut bounds: Vec<String> = Vec::new();
        let mut histogram_counts: Vec<u64> = Vec::new();
        let mut i: usize = 0;
        while i < result.latency_histogram.len()
            invariant
                buckets == result.latency_histogram@,
                i <= buckets.len(),
                views(bounds@) == bound_texts(buckets.take(i as int)),
                histogram_counts@ == bucket_counts(buckets.take(i as int)),
                forall|j: int| 0 <= j < i ==> exact(#[trigger] buckets[j].count as nat),
                contract is Ok,
                ingest_problem(*result, contract, self.error_kind_limit()) == (if inexact_bucket(
                    buckets,
                ) {
                    Some(IngestProblem::Inexact("latency bucket count"@))
                } else {
                    errors_problem(result.error_breakdown@)
                }),
            decreases buckets.len() - i,
        {
            let bucket: LatencyBucket = result.latency_histogram[i];
            assert(bucket == buckets[i as int]);
            exact_result_integer("latency bucket count", bucket.count)?;
            let ghost shown = views(bounds@);
            bounds.push(decimal_u64(bucket.upper_bound_ms));
            histogram_counts.push(bucket.count);
            proof {
                assert(buckets.take(i + 1) =~= buckets.take(i as int).push(bucket));
                let bound = decimal(bucket.upper_bound_ms as nat);
                assert(views(bounds@) =~= shown.push(bound));
                assert(bound_texts(buckets.take(i + 1)) =~= bound_texts(
                    buckets.take(i as int),
                ).push(bound));
                assert(histogram_counts@ =~= bucket_counts(buckets.take(i + 1)));
            }
            i += 1;
        }
        assert(buckets.take(i as int) == buckets);
        let histogram_bounds = join(&bounds, ",");

        let map = merge_errors(&result.error_breakdown)?;
        let error_counts = counted_errors(&map);
        assert forall|i: int| 0 <= i < error_counts@.len() implies (#[trigger] error_counts@[i]).1
            == merged(result.error_breakdown@)[error_counts@[i].0@] by {
            assert(counted_kinds(error_counts@)[i] == error_counts@[i].0@);
            assert(counted_kinds(error_counts@).contains(error_counts@[i].0@));
        }
        Ok(NormalizedResult { histogram_bounds, histogram_counts, error_counts })
    }
}

/// The entries of a map of counts, in the order of the kinds.
fn counted_errors(map: &TextMap<u64>) -> (pairs: Vec<(String, u64)>)
    requires
        map.wf(),
    ensures
        increasing(counted_kinds(pairs@)),
        forall|k: Seq<char>| #[trigger] counted_kinds(pairs@).contains(k) <==> map@.dom().contains(k),
        forall|i: int| 0 <= i < pairs@.len() ==> (#[trigger] pairs@[i]).1 == map@[pairs@[i].0@],
{
    let mut pairs: Vec<(String, u64)> = Vec::new();
    let mut i: usize = 0;
    while i < map.len()
        invariant
            map.wf(),
            i <= map.keys().len(),
            counted_kinds(pairs@) == map.keys().take(i as int),
            forall|j: int|
                0 <= j < i ==> (#[trigger] pairs@[j]).1 == map@[pairs@[j].0@],
        decreases map.keys().len() - i,
    {
        proof {
            map.lemma_entry(i as int);
        }
        let ghost before = pairs@;
        let kind = map.key_at(i).clone();
        let count: u64 = *map.value_at(i);
        pairs.push((kind, count));
        proof {
            assert(pairs@ =~= before.push((kind, count)));
            assert(counted_kinds(pairs@) =~= counted_kinds(before).push(kind@));
            assert(map.keys().take(i + 1) =~= map.keys().take(i as int).push(map.keys()[i as int]));
        }
        i += 1;
    }
    assert(map.keys().take(i as int) == map.keys());
    pairs
}

// ---------------------------------------------------------------------------
// Handing in a result
// ---------------------------------------------------------------------------

/// The arguments for the counts of a histogram.
pub open spec fn count_args(counts: Seq<u64>) -> Seq<Seq<char>> {
    counts.map_values(|n: u64| decimal(n as nat))
}

/// The arguments for the counted errors: each kind with its count.
pub open spec fn error_args(pairs: Seq<(String, u64)>) -> Seq<Seq<char>>
    decreases pairs.len(),
{
    if pairs.len() == 0 {
        Seq::empty()
    } else {
        error_args(pairs.drop_last()) + seq![pairs.last().0@, decimal(pairs.last().1 as nat)]
    }
}

/// The arguments that come before the counts.
pub open spec fn ingest_head(
    store: RedisRunAggregationStore,
    result: ScenarioRunResult,
    normalized: NormalizedResult,
) -> Seq<Seq<char>> {
    seq![
        result.scenario_id@,
        result.run_id@,
        decimal(result.schema_version as nat),
        decimal(result.slice.total as nat),
        decimal(result.slice.index as nat),
        result.execution_key@,
        normalized.histogram_bounds@,
        decimal(result.total as nat),
        decimal(result.success as nat),
        decimal(result.failure as nat),
        decimal(millis(store.retention())),
        decimal(store.error_kind_limit() as nat),
        decimal(store.active_run_limit() as nat),
        decimal(millis(store.partial())),
        decimal(normalized.histogram_counts@.len()),
    ]
}

/// All arguments of the program that merges a result.
pub open spec fn ingest_args(
    store: RedisRunAggregationStore,
    result: ScenarioRunResult,
    normalized: NormalizedResult,
) -> Seq<Seq<char>> {
    ingest_head(store, result, normalized) + count_args(normalized.histogram_counts@) + seq![
        decimal(normalized.error_counts@.len()),
    ] + error_args(normalized.error_counts@)
}

/// The keys of the programs that change a run: its fields, the deadlines, the
/// outbox and the known runs.
pub open spec fn run_keys(prefix: Seq<char>, run_id: Seq<char>) -> Seq<Seq<char>> {
    seq![
        run_key(prefix, run_id),
        deadline_key_of(prefix),
        outbox_key_of(prefix),
        active_key_of(prefix),
    ]
}

/// The messages by which the merging program refuses a result for good.
pub open spec fn is_permanent_conflict(message: Seq<char>) -> bool {
    ||| message == "scenario, schema, expected slices, or histogram bounds changed"@
    ||| message == "slice index already belongs to a different execution identity"@
    ||| message == "execution identity already belongs to a different slice"@
    ||| message == "terminal run cannot accept an unrecorded slice"@
}

fn is_permanent_result_conflict(message: &str) -> (r: bool)
    ensures
        r == is_permanent_conflict(message@),
{
    str_eq(message, "scenario, schema, expected slices, or histogram bounds changed") || str_eq(
        message,
        "slice index already belongs to a different execution identity",
    ) || str_eq(message, "execution identity already belongs to a different slice") || str_eq(
        message,
        "terminal run cannot accept an unrecorded slice",
    )
}

/// Whether the two counts are those of the fields.
pub open spec fn is_progress(values: Seq<Seq<char>>, received: u32, expected: u32) -> bool {
    &&& progress_error(values) is None
    &&& received == number(fields_of(values), "received_slices"@)
    &&& expected == number(fields_of(values), "expected_slices"@)
}

/// Whether an error says why the fields give no progress.
pub open spec fn no_progress(
    values: Seq<Seq<char>>,
    operation: Seq<char>,
    e: RunAggregationStoreError,
) -> bool {
    progress_error(values) matches Some(m) && e.is_invalid_state(operation, m)
}

/// Whether `s` is the summary of the fields.
pub open spec fn is_summary_of(values: Seq<Seq<char>>, s: ScenarioRunSummary) -> bool {
    snapshot_error(values) is None && is_summary(fields_of(values), s)
}

/// Whether an error says why the fields give no summary.
pub open spec fn no_summary(
    values: Seq<Seq<char>>,
    operation: Seq<char>,
    e: RunAggregationStoreError,
) -> bool {
    snapshot_error(values) matches Some(m) && e.is_invalid_state(operation, m)
}

/// The message of a reply code that no program gives.
pub open spec fn unknown_code(code: i64) -> Seq<char> {
    "unknown Redis response code "@ + decimal_int(code as int)
}

/// Whether `r` is what the reply of the merging program means.
pub open spec fn ingest_means(
    code: i64,
    message: Seq<char>,
    values: Seq<Seq<char>>,
    max_error_kinds: usize,
    max_active_runs: usize,
    r: Result<RunAggregationUpdate, RunAggregationStoreError>,
) -> bool {
    let operation = "aggregation_ingest"@;
    if code == 1 {
        match r {
            Ok(RunAggregationUpdate::Accepted { received_slices, expected_slices }) => is_progress(
                values,
                received_slices,
                expected_slices,
            ),
            Err(e) => no_progress(values, operation, e),
            _ => false,
        }
    } else if code == 2 {
        match r {
            Ok(
                RunAggregationUpdate::Duplicate {
                    received_slices,
                    expected_slices,
                    finalized_status,
                },
            ) => {
                let label = fields_of(values)["status"@];
                &&& is_progress(values, received_slices, expected_slices)
                &&& label == "open"@ ==> finalized_status is None
                &&& label != "open"@ ==> finalized_status == final_status(label)
            },
            Err(e) => no_progress(values, operation, e),
            _ => false,
        }
    } else if code == 3 {
        match r {
            Ok(RunAggregationUpdate::Completed(s)) => is_summary_of(values, s),
            Err(e) => no_summary(values, operation, e),
            _ => false,
        }
    } else if code == 4 {
        match r {
            Ok(RunAggregationUpdate::LateCompleted(s)) => is_summary_of(values, s),
            Err(e) => no_summary(values, operation, e),
            _ => false,
        }
    } else if code == 5 {
        if is_permanent_conflict(message) {
            r matches Err(RunAggregationStoreError::InconsistentResult { message: m }) && m@
                == message
        } else {
            r matches Err(e) && e.is_invalid_state(operation, message)
        }
    } else if code == 6 {
        r matches Err(e) && e == (RunAggregationStoreError::ErrorKindCapacity { max_error_kinds })
    } else if code == 7 {
        match r {
            Ok(RunAggregationUpdate::LateAccepted { received_slices, expected_slices }) => {
                is_progress(values, received_slices, expected_slices)
            },
            Err(e) => no_progress(values, operation, e),
            _ => false,
        }
    } else if code == 8 {
        r matches Err(e) && e == (RunAggregationStoreError::ActiveRunCapacity { max_active_runs })
    } else if code == 9 {
        r matches Err(RunAggregationStoreError::Contract(ContractError::InvalidResult(m))) && m@
            == message
    } else {
        r matches Err(e) && e.is_invalid_state(operation, unknown_code(code))
    }
}

impl RedisRunAggregationStore {
    /// The call that merges a result into its run. `contract` says whether the
    /// result keeps its contract.
    pub fn ingest_call(
        &self,
        result: &ScenarioRunResult,
        contract: Result<(), ContractError>,
    ) -> (r: Result<ScriptCall, RunAggregationStoreError>)
        requires
            self.wf(),
        ensures
            match r {
                Ok(call) => {
                    &&& ingest_problem(*result, contract, self.error_kind_limit()) is None
                    &&& exists|n: NormalizedResult| #[trigger]
                        n.counts(*result) && call.is(
                            INGEST_SCRIPT@,
                            run_keys(self.prefix(), result.run_id@),
                            ingest_args(*self, *result, n),
                        )
                },
                Err(e) => ingest_problem(*result, contract, self.error_kind_limit()) matches Some(p)
                    && e.reports(p, self.error_kind_limit()),
            },
    {
        let normalized = self.normalize_result(result, contract)?;
        let retention_ms: i64 = checked_duration_ms("aggregation_ingest", self.retention_ttl)?;
        let partial_timeout_ms: i64 = checked_duration_ms(
            "aggregation_ingest",
            self.partial_timeout,
        )?;
        let keys = texts4(
            self.key_for_run(&result.run_id),
            self.deadline_key(),
            self.outbox_key(),
            self.active_key(),
        );
        let mut args: Vec<String> = vec![
            result.scenario_id.clone(),
            result.run_id.clone(),
            decimal_u64(result.schema_version as u64),
            decimal_u64(result.slice.total as u64),
            decimal_u64(result.slice.index as u64),
            result.execution_key.clone(),
            normalized.histogram_bounds.clone(),
            decimal_u64(result.total),
            decimal_u64(result.success),
            decimal_u64(result.failure),
            decimal_i64(retention_ms),
            decimal_usize(self.max_error_kinds),
            decimal_usize(self.max_active_runs),
            decimal_i64(partial_timeout_ms),
            decimal_usize(normalized.histogram_counts.len()),
        ];
        let ghost head = ingest_head(*self, *result, normalized);
        assert(views(args@) =~= head);
        let ghost counts = normalized.histogram_counts@;
        let mut i: usize = 0;
        assert(head + count_args(counts.take(0)) =~= head);
        while i < normalized.histogram_counts.len()
            invariant
                i <= counts.len(),
                counts == normalized.histogram_counts@,
                views(args@) == head + count_args(counts.take(i as int)),
            decreases counts.len() - i,
        {
            let ghost before = views(args@);
            let text = decimal_u64(normalized.histogram_counts[i]);
            args.push(text);
            proof {
                assert(views(args@) =~= before.push(text@));
                assert(count_args(counts.take(i + 1)) =~= count_args(counts.take(i as int)).push(
                    text@,
                ));
            }
            i += 1;
        }
        assert(counts.take(i as int) == counts);
        let ghost before = views(args@);
        let text = decimal_usize(normalized.error_counts.len());
        args.push(text);
        let ghost start = head + count_args(counts) + seq![text@];
        assert(views(args@) =~= before.push(text@));
        assert(before.push(text@) =~= start);
        let ghost pairs = normalized.error_counts@;
        let mut k: usize = 0;
        assert(start + error_args(pairs.take(0)) =~= start);
        while k < normalized.error_counts.len()
            invariant
                k <= pairs.len(),
                pairs == normalized.error_counts@,
                views(args@) == start + error_args(pairs.take(k as int)),
            decreases pairs.len() - k,
        {
            let ghost before = views(args@);
            let kind = normalized.error_counts[k].0.clone();
            let count = decimal_u64(normalized.error_counts[k].1);
            args.push(kind);
            args.push(count);
            proof {
                let next = pairs.take(k + 1);
                assert(next.drop_last() =~= pairs.take(k as int));
                assert(next.last() == pairs[k as int]);
                assert(views(args@) =~= before + seq![kind@, count@]);
                assert(before + seq![kind@, count@] =~= start + (error_args(pairs.take(k as int))
                    + seq![kind@, count@]));
            }
            k += 1;
        }
        assert(pairs.take(k as int) == pairs);
        proof {
            assert(normalized.counts(*result));
        }
        Ok(ScriptCall { script: INGEST_SCRIPT, keys, args })
    }

    /// What the reply of the merging program means.
    pub fn ingest_reply(&self, code: i64, message: String, snapshot: &Vec<String>) -> (r: Result<
        RunAggregationUpdate,
        RunAggregationStoreError,
    >)
        ensures
            ingest_means(
                code,
                message@,
                views(snapshot@),
                self.error_kind_limit(),
                self.active_run_limit(),
                r,
            ),
    {
        let operation = "aggregation_ingest";
        match code {
            1 => {
                let (received_slices, expected_slices, _) = progress(snapshot, operation)?;
                Ok(RunAggregationUpdate::Accepted { received_slices, expected_slices })
            },
            2 => {
                let (received_slices, expected_slices, finalized_status) = progress(
                    snapshot,
                    operation,
                )?;
                Ok(
                    RunAggregationUpdate::Duplicate {
                        received_slices,
                        expected_slices,
                        finalized_status,
                    },
                )
            },
            3 => {
                let summary = summary_from_snapshot(snapshot, operation)?;
                Ok(RunAggregationUpdate::Completed(summary))
            },
            4 => {
                let summary = summary_from_snapshot(snapshot, operation)?;
                Ok(RunAggregationUpdate::LateCompleted(summary))
            },
            5 => if is_permanent_result_conflict(&message) {
                Err(RunAggregationStoreError::InconsistentResult { message })
            } else {
                Err(invalid_state(operation, &message))
            },
            6 => Err(
                RunAggregationStoreError::ErrorKindCapacity {
                    max_error_kinds: self.max_error_kinds,
                },
            ),
            7 => {
                let (received_slices, expected_slices, _) = progress(snapshot, operation)?;
                Ok(RunAggregationUpdate::LateAccepted { received_slices, expected_slices })
            },
            8 => Err(
                RunAggregationStoreError::ActiveRunCapacity {
                    max_active_runs: self.max_active_runs,
                },
            ),
            9 => Err(RunAggregationStoreError::Contract(ContractError::InvalidResult(message))),
            other => Err(
                invalid_state(
                    operation,
                    &concat2("unknown Redis response code ", &decimal_i64(other)),
                ),
            ),
        }
    }
}

// ---------------------------------------------------------------------------
// Ending a run
// ---------------------------------------------------------------------------

/// Whether `r` is what the reply of the expiring program means.
pub open spec fn expiry_means(
    code: i64,
    message: Seq<char>,
    values: Seq<Seq<char>>,
    r: Result<RunExpiryOutcome, RunAggregationStoreError>,
) -> bool {
    let operation = "aggregation_mark_expired"@;
    if code == 0 {
        r matches Ok(RunExpiryOutcome::Missing)
    } else if code == 1 {
        match parsed_unsigned(message, u64::MAX as nat) {
            Some(ms) => r matches Ok(RunExpiryOutcome::NotExpired { retry_after }) && nanos(
                retry_after,
            ) == ms * 1_000_000,
            None => r matches Err(e) && e.is_invalid_state(
                operation,
                "Redis returned an invalid expiration delay"@,
            ),
        }
    } else if code == 2 {
        match r {
            Ok(RunExpiryOutcome::MarkedTimedOut(s)) => is_summary_of(values, s),
            Err(e) => no_summary(values, operation, e),
            _ => false,
        }
    } else if code == 3 {
        match r {
            Ok(RunExpiryOutcome::AlreadyFinalized(s)) => is_summary_of(values, s),
            Err(e) => no_summary(values, operation, e),
            _ => false,
        }
    } else if code == 4 {
        r matches Err(e) && e.is_invalid_state(operation, message)
    } else {
        r matches Err(e) && e.is_invalid_state(operation, unknown_code(code))
    }
}

/// The stored label that a run gets when it is ended on request.
pub open spec fn requested_label(status: ScenarioRunSummaryStatus) -> Option<Seq<char>> {
    match status {
        ScenarioRunSummaryStatus::Partial => Some("partial"@),
        ScenarioRunSummaryStatus::Cancelled => Some("cancelled"@),
        _ => None,
    }
}

/// Whether `r` is what the reply of the ending program means.
pub open spec fn finalize_means(
    code: i64,
    message: Seq<char>,
    values: Seq<Seq<char>>,
    r: Result<RunFinalizationOutcome, RunAggregationStoreError>,
) -> bool {
    let operation = "aggregation_finalize_run"@;
    if code == 0 {
        r matches Ok(RunFinalizationOutcome::Missing)
    } else if code == 1 {
        match r {
            Ok(RunFinalizationOutcome::Finalized(s)) => is_summary_of(values, s),
            Err(e) => no_summary(values, operation, e),
            _ => false,
        }
    } else if code == 2 {
        match r {
            Ok(RunFinalizationOutcome::AlreadyFinalized(s)) => is_summary_of(values, s),
            Err(e) => no_summary(values, operation, e),
            _ => false,
        }
    } else if code == 3 {
        r matches Err(e) && e.is_invalid_state(operation, message)
    } else {
        r matches Err(e) && e.is_invalid_state(operation, unknown_code(code))
    }
}

/// Whether `r` is what the reply of the acknowledging program means.
pub open spec fn acknowledge_means(
    code: i64,
    current: i64,
    message: Seq<char>,
    r: Result<SummaryAcknowledgement, RunAggregationStoreError>,
) -> bool {
    let operation = "aggregation_acknowledge_summary"@;
    if code == 0 {
        r matches Ok(SummaryAcknowledgement::Missing)
    } else if code == 1 {
        r matches Ok(SummaryAcknowledgement::Acknowledged)
    } else if code == 2 {
        r matches Ok(SummaryAcknowledgement::AlreadyAcknowledged)
    } else if code == 3 {
        if current >= 0 {
            r matches Ok(SummaryAcknowledgement::Stale { current_revision }) && current_revision
                == current
        } else {
            r matches Err(e) && e.is_invalid_state(
                operation,
                "stored summary revision is negative"@,
            )
        }
    } else if code == 4 {
        r matches Err(e) && e.is_invalid_state(operation, message)
    } else {
        r matches Err(e) && e.is_invalid_state(operation, unknown_code(code))
    }
}

/// Whether `r` is the summary that the fields of a run hold.
pub open spec fn load_means(
    values: Seq<Seq<char>>,
    r: Result<Option<DurableRunSummary>, RunAggregationStoreError>,
) -> bool {
    match r {
        Ok(None) => is_open(values),
        Ok(Some(d)) => {
            &&& !is_open(values)
            &&& durable_error(values) is None
            &&& is_durable(fields_of(values), d)
        },
        Err(e) => {
            &&& !is_open(values)
            &&& durable_error(values) matches Some(m) && e.is_invalid_state(
                "aggregation_load_summary"@,
                m,
            )
        },
    }
}

impl RedisRunAggregationStore {
    /// The call that lists the runs whose deadline has passed.
    pub fn due_runs_call(&self, limit: usize) -> (r: Result<ScriptCall, RunAggregationStoreError>)
        requires
            self.wf(),
        ensures
            match r {
                Ok(call) => {
                    &&& 0 < limit <= self.scan_limit()
                    &&& call.is(
                        DUE_RUNS_SCRIPT@,
                        seq![deadline_key_of(self.prefix())],
                        seq![decimal(limit as nat)],
                    )
                },
                Err(e) => !(0 < limit <= self.scan_limit()) && e.is_invalid_state(
                    "aggregation_scan"@,
                    "scan limit must be within 1..="@ + decimal(self.scan_limit() as nat),
                ),
            },
    {
        let limit: i64 = self.validate_scan_limit(limit)?;
        Ok(
            ScriptCall {
                script: DUE_RUNS_SCRIPT,
                keys: texts1(self.deadline_key()),
                args: texts1(decimal_i64(limit)),
            },
        )
    }

    /// The call that ends a run whose deadline has passed.
    pub fn mark_expired_call(&self, run_id: &str) -> (r: Result<ScriptCall, RunAggregationStoreError>)
        requires
            self.wf(),
        ensures
            match r {
                Ok(call) => {
                    &&& identity_ok(run_id@)
                    &&& call.is(
                        MARK_EXPIRED_SCRIPT@,
                        run_keys(self.prefix(), run_id@),
                        seq![decimal(millis(self.retention())), run_id@],
                    )
                },
                Err(e) => !identity_ok(run_id@) && e.is_invalid_state(
                    "aggregation_ingest"@,
                    identity_message("run_id"@),
                ),
            },
    {
        validate_identity("run_id", run_id)?;
        let retention_ms: i64 = checked_duration_ms("aggregation_mark_expired", self.retention_ttl)?;
        let keys = texts4(
            self.key_for_run(run_id),
            self.deadline_key(),
            self.outbox_key(),
            self.active_key(),
        );
        let args = texts2(decimal_i64(retention_ms), copy_str(run_id));
        Ok(ScriptCall { script: MARK_EXPIRED_SCRIPT, keys, args })
    }

    /// What the reply of the expiring program means.
    pub fn mark_expired_reply(&self, code: i64, message: String, snapshot: &Vec<String>) -> (r: Result<
        RunExpiryOutcome,
        RunAggregationStoreError,
    >)
        ensures
            expiry_means(code, message@, views(snapshot@), r),
    {
        let operation = "aggregation_mark_expired";
        match code {
            0 => Ok(RunExpiryOutcome::Missing),
            1 => match parse_u64(&message) {
                Some(ms) => Ok(
                    RunExpiryOutcome::NotExpired { retry_after: Duration::from_millis(ms) },
                ),
                None => Err(invalid_state(operation, "Redis returned an invalid expiration delay")),
            },
            2 => {
                let summary = summary_from_snapshot(snapshot, operation)?;
                Ok(RunExpiryOutcome::MarkedTimedOut(summary))
            },
            3 => {
                let summary = summary_from_snapshot(snapshot, operation)?;
                Ok(RunExpiryOutcome::AlreadyFinalized(summary))
            },
            4 => Err(invalid_state(operation, &message)),
            other => Err(
                invalid_state(
                    operation,
                    &concat2("unknown Redis response code ", &decimal_i64(other)),
                ),
            ),
        }
    }

    /// The call that ends a run on request; a run can be ended as partial or as
    /// cancelled only.
    pub fn finalize_run_call(&self, run_id: &str, status: ScenarioRunSummaryStatus) -> (r: Result<
        ScriptCall,
        RunAggregationStoreError,
    >)
        requires
            self.wf(),
        ensures
            match r {
                Ok(call) => {
                    &&& identity_ok(run_id@)
                    &&& requested_label(status) matches Some(label) && call.is(
                        FINALIZE_RUN_SCRIPT@,
                        run_keys(self.prefix(), run_id@),
                        seq![label, decimal(millis(self.retention())), run_id@],
                    )
                },
                Err(e) => if !identity_ok(run_id@) {
                    e.is_invalid_state("aggregation_ingest"@, identity_message("run_id"@))
                } else {
                    requested_label(status) is None && e.is_invalid_state(
                        "aggregation_finalize_run"@,
                        "explicit finalization only accepts Partial or Cancelled"@,
                    )
                },
            },
    {
        validate_identity("run_id", run_id)?;
        let label = match status {
            ScenarioRunSummaryStatus::Partial => "partial",
            ScenarioRunSummaryStatus::Cancelled => "cancelled",
            ScenarioRunSummaryStatus::Complete | ScenarioRunSummaryStatus::TimedOut => {
                return Err(
                    invalid_state(
                        "aggregation_finalize_run",
                        "explicit finalization only accepts Partial or Cancelled",
                    ),
                );
            },
        };
        let retention_ms: i64 = checked_duration_ms("aggregation_finalize_run", self.retention_ttl)?;
        let keys = texts4(
            self.key_for_run(run_id),
            self.deadline_key(),
            self.outbox_key(),
            self.active_key(),
        );
        let args = texts3(copy_str(label), decimal_i64(retention_ms), copy_str(run_id));
        Ok(ScriptCall { script: FINALIZE_RUN_SCRIPT, keys, args })
    }

    /// What the reply of the ending program means.
    pub fn finalize_run_reply(&self, code: i64, message: String, snapshot: &Vec<String>) -> (r: Result<
        RunFinalizationOutcome,
        RunAggregationStoreError,
    >)
        ensures
            finalize_means(code, message@, views(snapshot@), r),
    {
        let operation = "aggregation_finalize_run";
        match code {
            0 => Ok(RunFinalizationOutcome::Missing),
            1 => {
                let summary = summary_from_snapshot(snapshot, operation)?;
                Ok(RunFinalizationOutcome::Finalized(summary))
            },
            2 => {
                let summary = summary_from_snapshot(snapshot, operation)?;
                Ok(RunFinalizationOutcome::AlreadyFinalized(summary))
            },
            3 => Err(invalid_state(operation, &message)),
            other => Err(
                invalid_state(
                    operation,
                    &concat2("unknown Redis response code ", &decimal_i64(other)),
                ),
            ),
        }
    }

    /// The key whose fields hold the summary of a run.
    pub fn load_summary_key(&self, run_id: &str) -> (r: Result<String, RunAggregationStoreError>)
        ensures
            match r {
                Ok(key) => identity_ok(run_id@) && key@ == run_key(self.prefix(), run_id@),
                Err(e) => !identity_ok(run_id@) && e.is_invalid_state(
                    "aggregation_ingest"@,
                    identity_message("run_id"@),
                ),
            },
    {
        validate_identity("run_id", run_id)?;
        Ok(self.key_for_run(run_id))
    }

    /// The summary that the fields of a run hold.
    pub fn load_summary_reply(&self, snapshot: &Vec<String>) -> (r: Result<
        Option<DurableRunSummary>,
        RunAggregationStoreError,
    >)
        ensures
            load_means(views(snapshot@), r),
    {
        durable_summary_from_snapshot(snapshot, "aggregation_load_summary")
    }

    /// The call that records that a revision of a summary was published.
    pub fn acknowledge_summary_call(&self, run_id: &str, revision: u64) -> (r: Result<
        ScriptCall,
        RunAggregationStoreError,
    >)
        requires
            self.wf(),
        ensures
            match r {
                Ok(call) => {
                    &&& identity_ok(run_id@)
                    &&& 0 < revision <= i64::MAX
                    &&& call.is(
                        ACKNOWLEDGE_SUMMARY_SCRIPT@,
                        seq![
                            run_key(self.prefix(), run_id@),
                            outbox_key_of(self.prefix()),
                            active_key_of(self.prefix()),
                        ],
                        seq![decimal(revision as nat), run_id@, decimal(millis(self.retention()))],
                    )
                },
                Err(e) => if !identity_ok(run_id@) {
                    e.is_invalid_state("aggregation_ingest"@, identity_message("run_id"@))
                } else {
                    !(0 < revision <= i64::MAX) && e.is_invalid_state(
                        "aggregation_acknowledge_summary"@,
                        "summary revision must be within 1..=i64::MAX"@,
                    )
                },
            },
    {
        validate_identity("run_id", run_id)?;
        if revision == 0 || revision > i64::MAX as u64 {
            return Err(
                invalid_state(
                    "aggregation_acknowledge_summary",
                    "summary revision must be within 1..=i64::MAX",
                ),
            );
        }
        let retention_ms: i64 = checked_duration_ms(
            "aggregation_acknowledge_summary",
            self.retention_ttl,
        )?;
        let keys = texts3(self.key_for_run(run_id), self.outbox_key(), self.active_key());
        let args = texts3(decimal_u64(revision), copy_str(run_id), decimal_i64(retention_ms));
        Ok(ScriptCall { script: ACKNOWLEDGE_SUMMARY_SCRIPT, keys, args })
    }

    /// What the reply of the acknowledging program means.
    pub fn acknowledge_summary_reply(&self, code: i64, current: i64, message: String) -> (r: Result<
        SummaryAcknowledgement,
        RunAggregationStoreError,
    >)
        ensures
            acknowledge_means(code, current, message@, r),
    {
        let operation = "aggregation_acknowledge_summary";
        match code {
            0 => Ok(SummaryAcknowledgement::Missing),
            1 => Ok(SummaryAcknowledgement::Acknowledged),
            2 => Ok(SummaryAcknowledgement::AlreadyAcknowledged),
            3 => if current >= 0 {
                Ok(SummaryAcknowledgement::Stale { current_revision: current as u64 })
            } else {
                Err(invalid_state(operation, "stored summary revision is negative"))
            },
            4 => Err(invalid_state(operation, &message)),
            other => Err(
                invalid_state(
                    operation,
                    &concat2("unknown Redis response code ", &decimal_i64(other)),
                ),
            ),
        }
    }

    /// The call that takes a run that needs no publication out of the outbox.
    pub fn clean_outbox_call(&self, run_id: &str) -> (call: ScriptCall)
        ensures
            call.is(
                CLEAN_OUTBOX_SCRIPT@,
                seq![run_key(self.prefix(), run_id@), outbox_key_of(self.prefix())],
                seq![run_id@],
            ),
    {
        ScriptCall {
            script: CLEAN_OUTBOX_SCRIPT,
            keys: texts2(self.key_for_run(run_id), self.outbox_key()),
            args: texts1(copy_str(run_id)),
        }
    }
}

// ---------------------------------------------------------------------------
// Summaries that wait for publication
// ---------------------------------------------------------------------------

/// Whether the fields are those of a run whose summary waits for publication.
pub open spec fn waits_for_publication(values: Seq<Seq<char>>) -> bool {
    &&& !is_open(values)
    &&& number(fields_of(values), "summary_pending_revision"@) > number(
        fields_of(values),
        "summary_ack_revision"@,
    )
}

/// Whether the fields of a run that has ended cannot be read.
pub open spec fn is_unreadable(values: Seq<Seq<char>>) -> bool {
    !is_open(values) && durable_error(values) is Some
}

/// The fields of several runs.
pub open spec fn batch(snapshots: Seq<Vec<String>>) -> Seq<Seq<Seq<char>>> {
    snapshots.map_values(|v: Vec<String>| views(v@))
}

/// The places below `k` whose runs wait for publication, in order.
pub open spec fn waiting_places(runs: Seq<Seq<Seq<char>>>, k: nat) -> Seq<int>
    decreases k,
{
    if k == 0 {
        Seq::empty()
    } else {
        let before = waiting_places(runs, (k - 1) as nat);
        if waits_for_publication(runs[k - 1]) {
            before.push(k - 1)
        } else {
            before
        }
    }
}

/// The places below `k` whose runs do not wait for publication, in order.
pub open spec fn settled_places(runs: Seq<Seq<Seq<char>>>, k: nat) -> Seq<int>
    decreases k,
{
    if k == 0 {
        Seq::empty()
    } else {
        let before = settled_places(runs, (k - 1) as nat);
        if waits_for_publication(runs[k - 1]) {
            before
        } else {
            before.push(k - 1)
        }
    }
}

/// Whether `r` tells the summaries among the fields of these runs that wait for
/// publication, and the runs that can be taken out of the outbox.
pub open spec fn pending_means(
    run_ids: Seq<Seq<char>>,
    runs: Seq<Seq<Seq<char>>>,
    r: Result<(Vec<DurableRunSummary>, Vec<String>), RunAggregationStoreError>,
) -> bool {
    let operation = "aggregation_pending_summaries"@;
    let n = runs.len();
    match r {
        Ok((summaries, stale)) => {
            &&& run_ids.len() == n
            &&& forall|i: int| 0 <= i < n ==> !is_unreadable(#[trigger] runs[i])
            &&& summaries@.len() == waiting_places(runs, n).len()
            &&& forall|j: int|
                0 <= j < summaries@.len() ==> is_durable(
                    fields_of(runs[waiting_places(runs, n)[j]]),
                    #[trigger] summaries@[j],
                )
            &&& views(stale@) == settled_places(runs, n).map_values(|i: int| run_ids[i])
        },
        Err(e) => if run_ids.len() != n {
            e.is_invalid_state(operation, "Redis aggregation snapshot batch length changed"@)
        } else {
            exists|i: int|
                #![trigger runs[i]]
                {
                    &&& 0 <= i < n
                    &&& is_unreadable(runs[i])
                    &&& forall|k: int| 0 <= k < i ==> !is_unreadable(#[trigger] runs[k])
                    &&& e.is_invalid_state(operation, durable_error(runs[i])->0)
                }
        },
    }
}

/// Each run of a batch either waits for publication or is settled.
pub proof fn lemma_batch_is_divided(runs: Seq<Seq<Seq<char>>>, k: nat)
    ensures
        waiting_places(runs, k).len() + settled_places(runs, k).len() == k,
    decreases k,
{
    if k > 0 {
        lemma_batch_is_divided(runs, (k - 1) as nat);
    }
}

impl RedisRunAggregationStore {
    /// The key of the outbox and the last place to read of it.
    pub fn pending_summaries_range(&self, limit: usize) -> (r: Result<
        (String, i64),
        RunAggregationStoreError,
    >)
        requires
            self.wf(),
        ensures
            match r {
                Ok((key, last)) => {
                    &&& 0 < limit <= self.scan_limit()
                    &&& key@ == outbox_key_of(self.prefix())
                    &&& last == limit - 1
                },
                Err(e) => !(0 < limit <= self.scan_limit()) && e.is_invalid_state(
                    "aggregation_scan"@,
                    "scan limit must be within 1..="@ + decimal(self.scan_limit() as nat),
                ),
            },
    {
        let limit: i64 = self.validate_scan_limit(limit)?;
        Ok((self.outbox_key(), limit - 1))
    }

    /// The summaries among the fields of the runs in the outbox that wait for
    /// publication, and the runs that can be taken out of it.
    pub fn pending_summaries_reply(&self, run_ids: &Vec<String>, snapshots: &Vec<Vec<String>>) -> (r:
        Result<(Vec<DurableRunSummary>, Vec<String>), RunAggregationStoreError>)
        ensures
            pending_means(views(run_ids@), batch(snapshots@), r),
    {
        let operation = "aggregation_pending_summaries";
        if snapshots.len() != run_ids.len() {
            return Err(
                invalid_state(operation, "Redis aggregation snapshot batch length changed"),
            );
        }
        let ghost runs = batch(snapshots@);
        let ghost ids = views(run_ids@);
        let mut summaries: Vec<DurableRunSummary> = Vec::new();
        let mut stale: Vec<String> = Vec::new();
        let mut i: usize = 0;
        assert(views(stale@) =~= settled_places(runs, 0).map_values(|i: int| ids[i]));
        while i < run_ids.len()
            invariant
                runs == batch(snapshots@),
                ids == views(run_ids@),
                run_ids@.len() == snapshots@.len(),
                i <= run_ids@.len(),
                operation@ == "aggregation_pending_summaries"@,
                forall|k: int| 0 <= k < i ==> !is_unreadable(#[trigger] runs[k]),
                summaries@.len() == waiting_places(runs, i as nat).len(),
                forall|j: int|
                    0 <= j < summaries@.len() ==> is_durable(
                        fields_of(runs[waiting_places(runs, i as nat)[j]]),
                        #[trigger] summaries@[j],
                    ),
                views(stale@) == settled_places(runs, i as nat).map_values(
                    |i: int| ids[i],
                ),
            decreases run_ids@.len() - i,
        {
            assert(runs[i as int] == views(snapshots@[i as int]@));
            match durable_summary_from_snapshot(&snapshots[i], operation) {
                Err(e) => {
                    assert(is_unreadable(runs[i as int]));
                    return Err(e);
                },
                Ok(found) => {
                    let ghost was = summaries@;
                    let ghost was_stale = views(stale@);
                    let mut settled: bool = true;
                    match found {
                        Some(summary) => {
                            if summary.pending_publication {
                                settled = false;
                                summaries.push(summary);
                            }
                        },
                        None => {},
                    }
                    assert(settled == !waits_for_publication(runs[i as int]));
                    if settled {
                        stale.push(run_ids[i].clone());
                    }
                    proof {
                        let next = settled_places(runs, (i + 1) as nat);
                        let f = |i: int| ids[i];
                        if settled {
                            assert(views(stale@) =~= was_stale.push(run_ids@[i as int]@));
                            assert(next.map_values(f) =~= settled_places(
                                runs,
                                i as nat,
                            ).map_values(f).push(f(i as int)));
                        } else {
                            assert(forall|j: int|
                                0 <= j < was.len() ==> #[trigger] summaries@[j] == was[j]);
                        }
                    }
                },
            }
            i += 1;
        }
        Ok((summaries, stale))
    }
}

} // verus!
