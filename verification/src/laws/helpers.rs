//! The small functions that the others are made of.
use std::time::Duration;
use vstd::prelude::*;
use super::aggregation::span_fits;
use super::execution::{ms_fit, recorded_as, whole_ms};
use super::rules::{longest_span, names_host};
use super::script::{arg, hands_over, key};
use super::settings::{letters, option_told, reads_signed, stripped, text_told, unset};
use super::snapshot::{holds, lemma_fields, lemma_parsed, reads, stored};
use super::text::{apart, glued, in_digits, white, worth};
use crate::aggregation::{checked_duration_ms, checked_lua_duration_ms, RedisRunAggregationStore};
use crate::calls::ScriptCall;
use crate::config::endpoint::{check_authority, endpoint_host, parsed_endpoint, UriParts};
use crate::config::error::ConfigError;
use crate::config::hosts::{allowlist_entries, distinct_hosts, listed, parse_allowlist};
use crate::config::rules::{
    checked_duration_sum, trimmed_non_empty, validate_capacity, validate_duration_upper_bound,
    validate_inclusive_i32, validate_non_empty,
};
use crate::config::app::{acks_all, AddressFacts, AppConfig};
use crate::config::source::{
    acks_unread, allowlist_unread, source_problem, text_value, ConfigSource,
};
use crate::coordination::{
    as_u64, duration_from_nonnegative_ms, duration_ms, fence_as_i64, map_coordination_error,
    redis_operation, unknown_reply, CoordinationError, Exchange, ExecutionClaim, ExecutionLease,
    TerminalOutcome,
};
use crate::coordination_scripts::CLAIM_SCRIPT;
use crate::durations::{is_zero, longest, nanos, shorter, shortest};
use crate::execution::RedisIdempotencyStore;
use crate::operations::store_operation;
use crate::ordered::TextMap;
use crate::random::{phone_number, RandomUsPhoneGenerator};
use crate::snapshot::{
    fields_of, invalid_state, parse_field, required, snapshot_map, RunAggregationStoreError,
};
use crate::text::{
    ascii_lower, byte_len, chars_of, concat2, concat3, concat4, concat5, contains_char, copy_str,
    decimal, decimal_int, decimal_u64, decimal_usize, is_blank, parse_i32, parse_signed,
    parse_unsigned, parse_usize, split_on, str_eq, str_is_empty, string_of, strip_prefix, trimmed,
    views,
};

verus! {

// ---------------------------------------------------------------------------
// Texts
// ---------------------------------------------------------------------------

/// Texts are put together in the order in which they are given.
pub proof fn law_concat(
    a: &str,
    b: &str,
    c: &str,
    d: &str,
    e: &str,
    two: String,
    three: String,
    four: String,
    five: String,
    copy: String,
)
    requires
        call_ensures(concat2, (a, b), two),
        call_ensures(concat3, (a, b, c), three),
        call_ensures(concat4, (a, b, c, d), four),
        call_ensures(concat5, (a, b, c, d, e), five),
        call_ensures(copy_str, (a,), copy),
    ensures
        copy@ == a@,
        two@ == a@ + b@,
        three@ == a@ + b@ + c@,
        four@ == a@ + b@ + c@ + d@,
        five@ == a@ + b@ + c@ + d@ + e@,
{
}

/// The characters of a text are those that it is made of, and a part of them is a text again.
pub proof fn law_chars(
    s: &str,
    chars: Vec<char>,
    from: usize,
    to: usize,
    part: String,
    n: usize,
    empty: bool,
    c: char,
    has: bool,
)
    requires
        from <= to <= chars@.len(),
        call_ensures(chars_of, (s,), chars),
        call_ensures(string_of, (&chars, from, to), part),
        call_ensures(byte_len, (s,), n),
        call_ensures(str_is_empty, (s,), empty),
        call_ensures(contains_char, (s, c), has),
    ensures
        chars@ == s@,
        part@.len() == to - from,
        forall|i: int| 0 <= i < to - from ==> #[trigger] part@[i] == s@[from + i],
        n == vstd::utf8::encode_utf8(s@).len(),
        empty <==> s@.len() == 0,
        has <==> exists|i: int| 0 <= i < s@.len() && #[trigger] s@[i] == c,
{
}

/// Texts are the same where all their characters are, and a beginning is taken off where it
/// is one.
pub proof fn law_compared(a: &str, b: &str, same: bool, rest: Option<String>)
    requires
        call_ensures(str_eq, (a, b), same),
        call_ensures(strip_prefix, (a, b), rest),
    ensures
        same <==> a@.len() == b@.len() && forall|i: int|
            0 <= i < a@.len() ==> #[trigger] a@[i] == b@[i],
        rest is Some <==> b@.is_prefix_of(a@),
        rest matches Some(r) ==> a@ == b@ + r@,
{
    if a@.len() == b@.len() && (forall|i: int| 0 <= i < a@.len() ==> #[trigger] a@[i] == b@[i]) {
        assert(a@ =~= b@);
    }
    if rest is Some {
        assert(a@ =~= b@ + rest->0@);
    }
    if b@.is_prefix_of(a@) {
        assert(a@.take(b@.len() as int) =~= b@);
    }
}

/// Numbers of other sizes are written in digits of their worth too.
pub proof fn law_decimals(a: u64, b: usize, s: String, t: String)
    requires
        call_ensures(decimal_u64, (a,), s),
        call_ensures(decimal_usize, (b,), t),
    ensures
        in_digits(s@) && worth(s@) == a,
        in_digits(t@) && worth(t@) == b,
{
    super::text::lemma_decimal_form(a as nat);
    super::text::lemma_decimal_form(b as nat);
}

/// Digits are read for what they are worth, within the bounds that are given.
pub proof fn law_parse_bounded(
    s: &str,
    max: u128,
    a: Option<u128>,
    b: Option<usize>,
    low: i128,
    high: i128,
    c: Option<i128>,
    d: Option<i32>,
)
    requires
        i128::MIN < low <= 0 <= high,
        call_ensures(parse_unsigned, (s, max), a),
        call_ensures(parse_usize, (s,), b),
        call_ensures(parse_signed, (s, low, high), c),
        call_ensures(parse_i32, (s,), d),
    ensures
        a matches Some(n) ==> reads(s@, n as int) && n <= max,
        forall|n: int| #[trigger] reads(s@, n) && n <= max ==> (a matches Some(m) && m == n),
        b matches Some(n) ==> reads(s@, n as int),
        forall|n: int| #[trigger]
            reads(s@, n) && n <= usize::MAX ==> (b matches Some(m) && m == n),
        c matches Some(n) ==> reads_signed(s@, n as int) && low <= n <= high,
        forall|n: int| #[trigger]
            reads_signed(s@, n) && low <= n <= high ==> (c matches Some(m) && m == n),
        d matches Some(n) ==> reads_signed(s@, n as int),
        forall|n: int| #[trigger]
            reads_signed(s@, n) && -2_147_483_648 <= n <= 2_147_483_647 ==> (d matches Some(m) && m
                == n),
{
    lemma_parsed(s@, max as nat);
    lemma_parsed(s@, usize::MAX as nat);
    super::wire::lemma_signed_text(s@, low as int, high as int);
    super::wire::lemma_signed_text(s@, i32::MIN as int, i32::MAX as int);
}

// ---------------------------------------------------------------------------
// Spans
// ---------------------------------------------------------------------------

/// Spans are compared by their nanoseconds.
pub proof fn law_spans(
    a: Duration,
    b: Duration,
    zero: bool,
    less: bool,
    short: Duration,
    long: Duration,
)
    requires
        call_ensures(is_zero, (a,), zero),
        call_ensures(shorter, (a, b), less),
        call_ensures(shortest, (a, b), short),
        call_ensures(longest, (a, b), long),
    ensures
        zero <==> nanos(a) == 0,
        less <==> nanos(a) < nanos(b),
        nanos(short) <= nanos(a) && nanos(short) <= nanos(b),
        nanos(short) == nanos(a) || nanos(short) == nanos(b),
        nanos(long) >= nanos(a) && nanos(long) >= nanos(b),
        nanos(long) == nanos(a) || nanos(long) == nanos(b),
{
}

/// Spans are handed to Redis in whole milliseconds that it can count, and read from it as
/// milliseconds; a negative number is an empty span.
pub proof fn law_redis_spans(
    operation: &'static str,
    d: Duration,
    a: Result<i64, CoordinationError>,
    b: Result<i64, RunAggregationStoreError>,
    c: Result<i64, RunAggregationStoreError>,
    n: i64,
    back: Duration,
)
    requires
        call_ensures(duration_ms, (operation, d), a),
        call_ensures(checked_duration_ms, (operation, d), b),
        call_ensures(checked_lua_duration_ms, (operation, d), c),
        call_ensures(duration_from_nonnegative_ms, (n,), back),
    ensures
        a is Ok <==> ms_fit(whole_ms(d)),
        a matches Ok(ms) ==> ms == whole_ms(d),
        b is Ok <==> nanos(d) >= 1 && whole_ms(d) <= 9_223_372_036_854_775_807,
        b matches Ok(ms) ==> ms == whole_ms(d),
        c is Ok <==> span_fits(d),
        c matches Ok(ms) ==> ms == whole_ms(d),
        n >= 0 ==> nanos(back) == n * 1_000_000,
        n < 0 ==> nanos(back) == 0,
{
}

/// Several spans together are as long as all of them, where that can be held.
pub proof fn law_duration_sum(
    name: &str,
    a: Vec<Duration>,
    b: Vec<Duration>,
    x: Duration,
    r: Result<Duration, ConfigError>,
    s: Result<Duration, ConfigError>,
)
    requires
        b@ == a@.push(x),
        call_ensures(checked_duration_sum, (name, &a), r),
        call_ensures(checked_duration_sum, (name, &b), s),
    ensures
        a@.len() == 0 ==> (r matches Ok(d) && nanos(d) == 0),
        s is Ok <==> r is Ok && nanos(r->Ok_0) + nanos(x) <= longest_span(),
        s matches Ok(d) ==> nanos(d) == nanos(r->Ok_0) + nanos(x),
{
    assert(b@.drop_last() =~= a@);
    assert(b@.last() == x);
}

// ---------------------------------------------------------------------------
// Exchanges with Redis
// ---------------------------------------------------------------------------

/// What an exchange brought is the outcome of the operation; a failure and a timeout are
/// errors of it.
pub proof fn law_exchanges<T>(
    operation: &'static str,
    exchange: Exchange<T>,
    a: Result<T, CoordinationError>,
    b: Result<T, RunAggregationStoreError>,
)
    requires
        call_ensures(redis_operation::<T>, (operation, exchange), a),
        call_ensures(store_operation::<T>, (operation, exchange), b),
    ensures
        exchange matches Exchange::Done(value) ==> a == Ok::<T, CoordinationError>(value) && b
            == Ok::<T, RunAggregationStoreError>(value),
        exchange matches Exchange::Failed(text) ==> {
            &&& (a matches Err(CoordinationError::Unavailable { operation: o, message: m }) && o@
                == operation@ && m@ == text@)
            &&& (b matches Err(RunAggregationStoreError::Unavailable { operation: o, message: m })
                && o@ == operation@ && m@ == text@)
        },
        exchange is TimedOut ==> {
            &&& (a matches Err(CoordinationError::Timeout { operation: o }) && o@ == operation@)
            &&& (b matches Err(RunAggregationStoreError::Timeout { operation: o }) && o@
                == operation@)
        },
{
}

/// An error of the coordination is the same error of the aggregation; that another owner took
/// over is none that it expects.
pub proof fn law_errors(
    error: CoordinationError,
    e: RunAggregationStoreError,
    operation: &'static str,
    message: &str,
    a: CoordinationError,
    b: CoordinationError,
    c: RunAggregationStoreError,
    code: i64,
    d: CoordinationError,
)
    requires
        call_ensures(map_coordination_error, (error,), e),
        call_ensures(CoordinationError::invalid_state, (operation, message), a),
        call_ensures(CoordinationError::stale_owner, (operation,), b),
        call_ensures(invalid_state, (operation, message), c),
        call_ensures(unknown_reply, (operation, code), d),
    ensures
        error matches CoordinationError::Unavailable { operation: o, message: m } ==> e
            == (RunAggregationStoreError::Unavailable { operation: o, message: m }),
        error matches CoordinationError::Timeout { operation: o } ==> e
            == (RunAggregationStoreError::Timeout { operation: o }),
        error matches CoordinationError::InvalidState { operation: o, message: m } ==> e
            == (RunAggregationStoreError::InvalidState { operation: o, message: m }),
        error matches CoordinationError::StaleOwner { operation: o } ==> (e matches
            RunAggregationStoreError::InvalidState { operation: p, message: m } && p@ == o@ && m@
            == "unexpected stale-owner response"@),
        a matches CoordinationError::InvalidState { operation: o, message: m } && o@ == operation@
            && m@ == message@,
        b matches CoordinationError::StaleOwner { operation: o } && o@ == operation@,
        c matches RunAggregationStoreError::InvalidState { operation: o, message: m } && o@
            == operation@ && m@ == message@,
        d matches CoordinationError::InvalidState { operation: o, message: m } && o@ == operation@
            && m@ == "unknown Redis response code "@ + decimal_int(code as int),
{
}

/// Numbers change between the forms of Redis and of the node where they fit both.
pub proof fn law_redis_numbers(
    operation: &'static str,
    field: &'static str,
    value: i64,
    a: Result<u64, CoordinationError>,
    token: u64,
    b: Result<i64, CoordinationError>,
)
    requires
        call_ensures(as_u64, (operation, field, value), a),
        call_ensures(fence_as_i64, (operation, token), b),
    ensures
        a is Ok <==> value >= 0,
        a matches Ok(n) ==> n == value,
        b is Ok <==> token <= 9_223_372_036_854_775_807,
        b matches Ok(n) ==> n == token,
{
}

/// Every outcome is recorded under a name of its own, from which it is read again.
pub proof fn law_outcome_names(
    outcome: TerminalOutcome,
    name: &'static str,
    text: &str,
    r: Result<TerminalOutcome, String>,
)
    requires
        call_ensures(TerminalOutcome::as_str, (&outcome,), name),
        call_ensures(TerminalOutcome::parse, (text,), r),
    ensures
        recorded_as(outcome, name@),
        text@ == name@ ==> (r matches Ok(o) && o == outcome),
        r matches Ok(o) ==> recorded_as(o, text@),
        r is Err ==> text@ != "completed"@ && text@ != "retry_published"@ && text@
            != "dlq_published"@,
{
    if text@ == name@ && r is Ok {
        crate::execution::lemma_outcome_labels_differ(outcome, r->Ok_0);
    }
    if r is Err {
        assert(text@ != TerminalOutcome::ResultPublished.label());
        assert(text@ != TerminalOutcome::RetryPublished.label());
        assert(text@ != TerminalOutcome::DeadLetterPublished.label());
    }
}

/// An attempt has one key, as a claim and as a lease; it is remembered four leases long, or
/// as long as outcomes are, whichever is longer.
pub proof fn law_execution_keys(
    store: RedisIdempotencyStore,
    claim: ExecutionClaim,
    lease: ExecutionLease,
    a: String,
    b: String,
    ttl: Duration,
    kept: Duration,
)
    requires
        call_ensures(RedisIdempotencyStore::key_for, (&store, &claim), a),
        call_ensures(RedisIdempotencyStore::key_for_lease, (&store, &lease), b),
        call_ensures(RedisIdempotencyStore::lease_ttl, (&store,), ttl),
        call_ensures(RedisIdempotencyStore::running_retention, (&store,), kept),
    ensures
        a@ == store.prefix() + ":"@ + claim.execution_key@ + ":attempt-"@ + decimal(
            claim.attempt as nat,
        ),
        b@ == store.prefix() + ":"@ + lease.execution_key@ + ":attempt-"@ + decimal(
            lease.attempt as nat,
        ),
        ttl == store.lease(),
        nanos(kept) >= nanos(store.terminal()),
        nanos(store.lease()) * 4 <= longest_span() ==> nanos(kept) >= nanos(store.lease()) * 4,
        nanos(kept) == nanos(store.terminal()) || nanos(kept) == nanos(store.lease()) * 4
            || nanos(kept) == longest_span(),
{
}

/// A claim under a fresh token asks for what a claim under a given one does.
pub proof fn law_fresh_claim(
    store: RedisIdempotencyStore,
    claim: ExecutionClaim,
    r: Result<(ScriptCall, String), CoordinationError>,
)
    requires
        call_ensures(RedisIdempotencyStore::claim_call, (&store, &claim), r),
    ensures
        r is Ok ==> !is_blank(claim.execution_key@),
        r matches Ok((call, owner)) ==> {
            &&& call.script@ == CLAIM_SCRIPT@
            &&& hands_over(call, 1, 5)
            &&& key(call, 1) == store.prefix() + ":"@ + claim.execution_key@ + ":attempt-"@
                + decimal(claim.attempt as nat)
            &&& arg(call, 1) == owner@
            &&& arg(call, 2) == claim.execution_key@
            &&& arg(call, 3) == decimal(claim.attempt as nat)
            &&& arg(call, 4) == decimal(whole_ms(store.lease()))
            &&& owner@.len() == 36
        },
{
    if r is Ok {
        super::script::lemma_texts(r->Ok_0.0);
    }
}

/// A scan asks for no more than the store allows, and for something.
pub proof fn law_scan_limit(
    store: RedisRunAggregationStore,
    limit: usize,
    r: Result<i64, RunAggregationStoreError>,
    error: &str,
    e: RunAggregationStoreError,
)
    requires
        store.wf(),
        call_ensures(RedisRunAggregationStore::validate_scan_limit, (&store, limit), r),
        call_ensures(RedisRunAggregationStore::outbox_cleanup_lost, (&store, error), e),
    ensures
        r is Ok <==> 1 <= limit <= store.scan_limit(),
        r matches Ok(n) ==> n == limit,
        e matches RunAggregationStoreError::InvalidState { operation, message } && operation@
            == "aggregation_pending_summaries"@ && message@ == "outbox cleanup task failed: "@
            + error@,
{
}

// ---------------------------------------------------------------------------
// Stored fields
// ---------------------------------------------------------------------------

/// A flat list of names and values is a table of the last values.
pub proof fn law_snapshot_map(
    values: Vec<String>,
    operation: &'static str,
    r: Result<TextMap<String>, RunAggregationStoreError>,
    field: &'static str,
    text: Result<&str, RunAggregationStoreError>,
    max: u128,
    n: Result<u128, RunAggregationStoreError>,
)
    requires
        call_ensures(snapshot_map, (&values, operation), r),
        r is Ok ==> call_ensures(required, (&r->Ok_0, field, operation), text),
        r is Ok ==> call_ensures(parse_field, (&r->Ok_0, field, max, operation), n),
    ensures
        r is Ok <==> values@.len() % 2 == 0,
        r is Ok ==> (text matches Ok(t) ==> stored(views(values@), field@, t@)),
        r is Ok ==> forall|t: Seq<char>| #[trigger]
            stored(views(values@), field@, t) ==> (text matches Ok(u) && u@ == t),
        r is Ok ==> (n matches Ok(m) ==> holds(views(values@), field@, m as int) && m <= max),
        r is Ok ==> forall|m: int| #[trigger]
            holds(views(values@), field@, m) && m <= max ==> (n matches Ok(k) && k == m),
{
    if r is Ok {
        let all = views(values@);
        lemma_fields(all, field@);
        let f = fields_of(all);
        if f.dom().contains(field@) {
            lemma_parsed(f[field@], max as nat);
            assert(stored(all, field@, f[field@]));
        }
    }
}

// ---------------------------------------------------------------------------
// Settings
// ---------------------------------------------------------------------------

/// An error holds the names that it is given, and tells them.
pub proof fn law_config_errors(
    name: &str,
    path: &str,
    reason: &str,
    a: ConfigError,
    b: ConfigError,
    c: ConfigError,
    s: String,
    t: String,
    u: String,
)
    requires
        call_ensures(ConfigError::invalid, (name, reason), a),
        call_ensures(ConfigError::environment, (name, reason), b),
        call_ensures(ConfigError::file, (name, path, reason), c),
        call_ensures(ConfigError::message, (&a,), s),
        call_ensures(ConfigError::message, (&b,), t),
        call_ensures(ConfigError::message, (&c,), u),
    ensures
        a matches ConfigError::Invalid { name: n, reason: r } && n@ == name@ && r@ == reason@,
        b matches ConfigError::Environment { name: n, reason: r } && n@ == name@ && r@ == reason@,
        c matches ConfigError::File { name: n, path: p, reason: r } && n@ == name@ && p@ == path@
            && r@ == reason@,
        s@ == "invalid configuration for "@ + name@ + ": "@ + reason@,
        t@ == "failed to read environment setting "@ + name@ + ": "@ + reason@,
        u@ == "failed to load "@ + name@ + " from '"@ + path@ + ("': "@ + reason@),
{
}

/// A setting that must hold something is refused where it is white space alone; numbers and
/// spans are refused outside their ranges. The error names the setting.
pub proof fn law_single_rules(
    name: &str,
    text: &str,
    a: Result<String, ConfigError>,
    b: Result<(), ConfigError>,
    n: usize,
    most: usize,
    c: Result<(), ConfigError>,
    m: i32,
    low: i32,
    high: i32,
    d: Result<(), ConfigError>,
    span: Duration,
    ms: u64,
    e: Result<(), ConfigError>,
)
    requires
        call_ensures(trimmed_non_empty, (name, text), a),
        call_ensures(validate_non_empty, (name, text), b),
        call_ensures(validate_capacity, (name, n, most), c),
        call_ensures(validate_inclusive_i32, (name, m, low, high), d),
        call_ensures(validate_duration_upper_bound, (name, span, ms), e),
    ensures
        a is Ok <==> exists|i: int| 0 <= i < text@.len() && !white(#[trigger] text@[i]),
        a matches Ok(t) ==> stripped(text@, t@),
        b is Ok <==> a is Ok,
        c is Ok <==> 1 <= n <= most,
        d is Ok <==> low <= m <= high,
        e is Ok <==> 1 <= nanos(span) <= ms * 1_000_000,
        a matches Err(x) ==> (x matches ConfigError::Invalid { name: y, .. } && y@ == name@),
        b matches Err(x) ==> (x matches ConfigError::Invalid { name: y, .. } && y@ == name@),
        c matches Err(x) ==> (x matches ConfigError::Invalid { name: y, .. } && y@ == name@),
        d matches Err(x) ==> (x matches ConfigError::Invalid { name: y, .. } && y@ == name@),
        e matches Err(x) ==> (x matches ConfigError::Invalid { name: y, .. } && y@ == name@),
{
    super::settings::lemma_stripped(text@);
    super::text::lemma_trimmed(text@);
}

/// The address of a broker holds a host and a port, and no path and no query.
pub proof fn law_authority(uri: Result<UriParts, String>, r: Result<(), ConfigError>)
    requires
        call_ensures(check_authority, (uri,), r),
    ensures
        r is Ok <==> (uri matches Ok(p) && p.host is Some && p.port is Some && (p.path@.len() == 0
            || p.path@ == seq!['/']) && p.query is None),
{
    if uri is Ok {
        super::rules::lemma_paths(uri->Ok_0.path@);
    }
}

/// Whether a text is an entry as it is compared: without white space round it, in small
/// letters.
pub open spec fn as_entry(raw: Seq<char>, entry: Seq<char>) -> bool {
    exists|text: Seq<char>| #[trigger] stripped(raw, text) && letters(text, entry)
}

proof fn lemma_entry(raw: Seq<char>)
    ensures
        as_entry(raw, ascii_lower(trimmed(raw))),
{
    super::settings::lemma_stripped(raw);
    super::settings::lemma_letters(trimmed(raw), ascii_lower(trimmed(raw)));
    assert(stripped(raw, trimmed(raw)));
}

/// The entries of an allowlist stand between its commas.
pub proof fn law_allowlist_entries(raw: &str, r: Vec<String>)
    requires
        call_ensures(allowlist_entries, (raw,), r),
    ensures
        exists|parts: Seq<Seq<char>>| #[trigger]
            glued(parts, ',') == raw@ && apart(parts, ',') && parts.len() == r@.len() && forall|
                i: int,
            |
                0 <= i < r@.len() ==> as_entry(parts[i], (#[trigger] r@[i])@),
{
    let parts = split_on(raw@, ',');
    super::text::lemma_glued_split(raw@, ',');
    assert(views(r@).len() == r@.len());
    assert forall|i: int| 0 <= i < r@.len() implies as_entry(parts[i], (#[trigger] r@[i])@) by {
        assert(views(r@)[i] == r@[i]@);
        lemma_entry(parts[i]);
    }
    assert(glued(parts, ',') == raw@);
}

proof fn lemma_distinct(entries: Seq<Seq<char>>, addresses: Seq<Seq<char>>)
    ensures
        distinct_hosts(entries, addresses) is Ok <==> forall|i: int|
            0 <= i < entries.len() ==> host_entry(#[trigger] entries[i], addresses),
        distinct_hosts(entries, addresses) matches Ok(hosts) ==> {
            &&& hosts.no_duplicates()
            &&& forall|i: int| 0 <= i < entries.len() ==> hosts.contains(#[trigger] entries[i])
            &&& forall|k: int|
                0 <= k < hosts.len() ==> #[trigger] first_listed(entries, hosts, k)
        },
    decreases entries.len(),
{
    if entries.len() > 0 {
        let front = entries.drop_last();
        let last = entries.len() - 1;
        lemma_distinct(front, addresses);
        super::rules::lemma_names_host(entries.last());
        if distinct_hosts(entries, addresses) is Ok {
            let before = distinct_hosts(front, addresses)->Ok_0;
            let hosts = distinct_hosts(entries, addresses)->Ok_0;
            assert forall|i: int| 0 <= i < entries.len() implies host_entry(
                #[trigger] entries[i],
                addresses,
            ) by {
                if i < last {
                    assert(front[i] == entries[i]);
                }
            }
            assert forall|i: int| 0 <= i < entries.len() implies hosts.contains(
                #[trigger] entries[i],
            ) by {
                if i < last {
                    assert(before.contains(front[i]));
                    let k = before.index_of(front[i]);
                    assert(hosts[k] == before[k]);
                } else if !before.contains(entries[i]) {
                    assert(hosts[before.len() as int] == entries[i]);
                }
            }
            assert forall|k: int| 0 <= k < hosts.len() implies #[trigger] first_listed(
                entries,
                hosts,
                k,
            ) by {
                if k < before.len() {
                    assert(first_listed(front, before, k));
                    let i = choose|i: int|
                        0 <= i < front.len() && #[trigger] front[i] == before[k] && forall|j: int|
                            0 <= j < i ==> before.take(k).contains(#[trigger] front[j]);
                    assert(entries[i] == hosts[k]);
                    assert(hosts.take(k) =~= before.take(k));
                    assert forall|j: int| 0 <= j < i implies hosts.take(k).contains(
                        #[trigger] entries[j],
                    ) by {
                        assert(front[j] == entries[j]);
                    }
                } else {
                    assert(hosts.take(k) =~= before);
                    assert(entries[last] == hosts[k]);
                    assert forall|j: int| 0 <= j < last implies hosts.take(k).contains(
                        #[trigger] entries[j],
                    ) by {
                        assert(front[j] == entries[j]);
                    }
                }
            }
        }
        if forall|i: int|
            0 <= i < entries.len() ==> host_entry(#[trigger] entries[i], addresses) {
            assert(host_entry(entries[last], addresses));
            assert forall|i: int| 0 <= i < front.len() implies host_entry(
                #[trigger] front[i],
                addresses,
            ) by {
                assert(entries[i] == front[i]);
            }
        }
    }
}

/// Whether an entry is a host: it is not empty, and an IP address or a host name.
pub open spec fn host_entry(entry: Seq<char>, addresses: Seq<Seq<char>>) -> bool {
    entry.len() >= 1 && (addresses.contains(entry) || names_host(entry))
}

/// Whether a host stands in the order in which the entries first name it: before the entry
/// that does, only earlier hosts are named.
pub open spec fn first_listed(entries: Seq<Seq<char>>, hosts: Seq<Seq<char>>, k: int) -> bool {
    exists|i: int|
        0 <= i < entries.len() && #[trigger] entries[i] == hosts[k] && forall|j: int|
            0 <= j < i ==> hosts.take(k).contains(#[trigger] entries[j])
}

/// An allowlist is read where all its entries are hosts, each of them once and in the order
/// in which they first stand there.
pub proof fn law_parse_allowlist(
    raw: &str,
    addresses: Vec<String>,
    entries: Vec<String>,
    r: Result<Vec<String>, ConfigError>,
    text: &str,
    has: bool,
)
    requires
        call_ensures(allowlist_entries, (raw,), entries),
        call_ensures(parse_allowlist, (raw, &addresses), r),
        call_ensures(listed, (&addresses, text), has),
    ensures
        has <==> exists|i: int| 0 <= i < addresses@.len() && (#[trigger] addresses@[i])@ == text@,
        r is Ok <==> forall|i: int|
            0 <= i < entries@.len() ==> host_entry(
                (#[trigger] entries@[i])@,
                views(addresses@),
            ),
        r matches Ok(hosts) ==> {
            &&& views(hosts@).no_duplicates()
            &&& forall|i: int|
                0 <= i < entries@.len() ==> views(hosts@).contains((#[trigger] entries@[i])@)
            &&& forall|k: int|
                0 <= k < hosts@.len() ==> #[trigger] first_listed(
                    views(entries@),
                    views(hosts@),
                    k,
                )
        },
{
    let all = views(entries@);
    lemma_distinct(all, views(addresses@));
    assert forall|i: int| 0 <= i < entries@.len() implies all[i] == (#[trigger] entries@[i])@ by {}
    if has {
        let i = views(addresses@).index_of(text@);
        assert(views(addresses@)[i] == addresses@[i]@);
    }
    if exists|i: int| 0 <= i < addresses@.len() && (#[trigger] addresses@[i])@ == text@ {
        let i = choose|i: int|
            0 <= i < addresses@.len() && (#[trigger] addresses@[i])@ == text@;
        assert(views(addresses@)[i] == text@);
    }
    if r is Ok {
        assert forall|i: int| 0 <= i < entries@.len() implies host_entry(
            (#[trigger] entries@[i])@,
            views(addresses@),
        ) by {
            assert(host_entry(all[i], views(addresses@)));
        }
        assert forall|i: int| 0 <= i < entries@.len() implies views(r->Ok_0@).contains(
            (#[trigger] entries@[i])@,
        ) by {
            assert(views(r->Ok_0@).contains(all[i]));
        }
    }
    if forall|i: int|
        0 <= i < entries@.len() ==> host_entry((#[trigger] entries@[i])@, views(addresses@)) {
        assert forall|i: int| 0 <= i < all.len() implies host_entry(
            #[trigger] all[i],
            views(addresses@),
        ) by {
            assert(host_entry(entries@[i]@, views(addresses@)));
        }
    }
}

/// The hosts of the allowlist, the address for metrics, the text of the rate and the path of
/// the file with the Redis URL are those of their variables.
pub proof fn law_asked_facts(
    s: ConfigSource,
    allowlist: &str,
    entries: Vec<String>,
    hosts: Vec<String>,
    address: Option<String>,
    rate: Option<String>,
    path: Option<String>,
)
    requires
        call_ensures(allowlist_entries, (allowlist,), entries),
        call_ensures(ConfigSource::allowlist_hosts, (&s,), hosts),
        call_ensures(ConfigSource::metrics_address, (&s,), address),
        call_ensures(ConfigSource::rate_text, (&s,), rate),
        call_ensures(ConfigSource::secret_path, (&s,), path),
    ensures
        text_told(s, "PULSE_TARGET_ALLOWLIST"@, "localhost,127.0.0.1,::1"@, allowlist@) ==> views(
            hosts@,
        ) == views(entries@),
        address matches Some(text) ==> text_told(
            s,
            "PULSE_METRICS_BIND"@,
            "0.0.0.0:9090"@,
            text@,
        ),
        unset(s, "PULSE_METRICS_BIND"@) ==> address is Some,
        rate is Some ==> option_told(s, "PULSE_MAX_SCENARIOS_PER_SEC"@, rate),
        unset(s, "PULSE_MAX_SCENARIOS_PER_SEC"@) ==> rate is None,
        path is Some ==> unset(s, "PULSE_REDIS_URL"@) && option_told(
            s,
            "PULSE_REDIS_URL_FILE"@,
            path,
        ),
{
    let name = "PULSE_TARGET_ALLOWLIST"@;
    let default = "localhost,127.0.0.1,::1"@;
    super::settings::lemma_told_text(s, name, default);
    super::settings::lemma_variable(s, "PULSE_METRICS_BIND"@);
    super::settings::lemma_variable(s, "PULSE_REDIS_URL"@);
    super::settings::lemma_variable(s, "PULSE_MAX_SCENARIOS_PER_SEC"@);
    if address is Some {
        super::settings::lemma_text(s, "PULSE_METRICS_BIND"@, "0.0.0.0:9090"@);
    }
    reveal_strlit("0.0.0.0:9090");
    super::text::lemma_trimmed("0.0.0.0:9090"@);
    assert("0.0.0.0:9090"@[0] == '0');
    super::text::lemma_not_white('0');
    if rate is Some {
        super::settings::lemma_option(s, "PULSE_MAX_SCENARIOS_PER_SEC"@);
    }
    if path is Some {
        super::settings::lemma_option(s, "PULSE_REDIS_URL_FILE"@);
    }
}

proof fn lemma_acks_in_letters(acks: Seq<char>)
    requires
        acks_all(ascii_lower(acks)),
    ensures
        letters(acks, seq!['a', 'l', 'l']) || letters(acks, seq!['-', '1']),
{
    reveal_strlit("all");
    reveal_strlit("-1");
    assert("all"@ =~= seq!['a', 'l', 'l']);
    assert("-1"@ =~= seq!['-', '1']);
    super::settings::lemma_letters(acks, seq!['a', 'l', 'l']);
    super::settings::lemma_letters(acks, seq!['-', '1']);
}

proof fn lemma_acks(s: ConfigSource)
    requires
        acks_unread(s) is None,
    ensures
        exists|acks: Seq<char>| #[trigger]
            text_told(s, "PULSE_KAFKA_PRODUCER_ACKS"@, "all"@, acks) && (letters(
                acks,
                seq!['a', 'l', 'l'],
            ) || letters(acks, seq!['-', '1'])),
{
    super::settings::lemma_text(s, "PULSE_KAFKA_PRODUCER_ACKS"@, "all"@);
    let acks = text_value(s, "PULSE_KAFKA_PRODUCER_ACKS"@, "all"@);
    lemma_acks_in_letters(acks);
    assert(text_told(s, "PULSE_KAFKA_PRODUCER_ACKS"@, "all"@, acks));
}

proof fn lemma_no_source_problem(s: ConfigSource, facts: AddressFacts)
    requires
        source_problem(s, facts) is None,
    ensures
        acks_unread(s) is None,
        allowlist_unread(s, facts) is None,
{
}

/// The hosts that may be targeted are those that the variable for them lists, and records are
/// acknowledged by all replicas, where the variable for it says so.
pub proof fn law_read_hosts_and_acks(
    s: ConfigSource,
    facts: AddressFacts,
    r: Result<AppConfig, ConfigError>,
    raw: &str,
    hosts: Result<Vec<String>, ConfigError>,
)
    requires
        call_ensures(AppConfig::from_sources, (&s, &facts), r),
        call_ensures(parse_allowlist, (raw, &facts.ip_addresses), hosts),
    ensures
        r matches Ok(c) ==> (text_told(
            s,
            "PULSE_TARGET_ALLOWLIST"@,
            "localhost,127.0.0.1,::1"@,
            raw@,
        ) ==> (hosts matches Ok(found) && views(found@) == views(c.target_allowlist@))),
        r matches Ok(c) ==> c.kafka_producer_acks@ == "all"@ && exists|acks: Seq<char>| #[trigger]
            text_told(s, "PULSE_KAFKA_PRODUCER_ACKS"@, "all"@, acks) && (letters(
                acks,
                seq!['a', 'l', 'l'],
            ) || letters(acks, seq!['-', '1'])),
{
    if r is Ok {
        lemma_no_source_problem(s, facts);
        lemma_acks(s);
        super::settings::lemma_told_text(
            s,
            "PULSE_TARGET_ALLOWLIST"@,
            "localhost,127.0.0.1,::1"@,
        );
    }
}

/// The host of an endpoint is read off its parts.
pub proof fn law_host(
    name: &str,
    value: &str,
    parts: UriParts,
    a: Result<String, ConfigError>,
    b: Result<String, ConfigError>,
)
    requires
        call_ensures(endpoint_host, (name, value), a),
        parsed_endpoint(value@) == Ok::<_, Seq<char>>(parts@),
        call_ensures(crate::config::endpoint::host_of_parts, (name, Ok(parts)), b),
    ensures
        a is Ok <==> b is Ok,
        a matches Ok(host) ==> host@ == b->Ok_0@,
{
}

// ---------------------------------------------------------------------------
// Telephone numbers
// ---------------------------------------------------------------------------

/// A telephone number is its three groups behind the country code; one by chance has ten
/// digits, the first of them not below 2.
pub proof fn law_phones(
    a: u16,
    b: u16,
    c: u16,
    phone: String,
    maker: RandomUsPhoneGenerator,
    made: String,
)
    requires
        call_ensures(phone_number, (a, b, c), phone),
        call_ensures(RandomUsPhoneGenerator::generate, (&maker,), made),
    ensures
        phone@ == "+1"@ + decimal(a as nat) + decimal(b as nat) + decimal(c as nat),
        made@.len() == 12,
        made@.take(2) == "+1"@,
        in_digits(made@.skip(2)),
        exists|x: nat, y: nat, z: nat|
            200 <= x < 999 && 100 <= y < 999 && 1000 <= z < 9999 && made@ == "+1"@
                + #[trigger] decimal(x) + #[trigger] decimal(y) + #[trigger] decimal(z),
{
    let (x, y, z) = choose|x: nat, y: nat, z: nat|
        crate::random::is_phone(x, y, z) && made@ == #[trigger] crate::random::phone_text(x, y, z);
    crate::random::lemma_phone_has_ten_digits(x, y, z);
    let digits = made@.skip(2);
    assert forall|i: int| 0 <= i < digits.len() implies 48 <= (#[trigger] digits[i]) as int <= 57 by {
        assert(crate::text::is_digit(digits[i]));
    }
    assert(made@ == "+1"@ + decimal(x) + decimal(y) + decimal(z));
}

} // verus!
