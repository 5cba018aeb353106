//! Settings are read wherever every variable can be read and the rules are kept.
use std::time::Duration;
use vstd::prelude::*;
use super::readers::{found, lemma_told_secret};
use super::rules::{lemma_sound, sound, spans_held};
use super::settings::{
    flag_told, flags_told, integer_told, integers_told, lemma_flags, lemma_integers, lemma_letters,
    lemma_numbers, lemma_options, lemma_rate, lemma_secret, lemma_spans, lemma_spells, lemma_texts,
    lemma_told_text, lemma_variable, letters, number_told, numbers_told, option_told, options_told,
    rate_told, reads_signed, secret_told, span_told, spans_told, spells, text_told, texts_told,
    unset,
};
use super::snapshot::{lemma_parsed, reads};
use super::text::{in_digits, lemma_worth};
use crate::config::app::{acks_all, config_problem, AddressFacts, AppConfig};
use crate::config::error::ConfigError;
use crate::config::hosts::parse_allowlist;
use crate::config::source::{
    acks_unread, aggregation_unread, allowlist_unread, flag_problem, flag_value, is_read,
    kafka_names_unread, kafka_sizes_unread, kafka_times_unread, leases_unread, lifecycle_unread,
    load_unread, ms_problem, ms_value, number_problem, number_value, rate_problem,
    redis_names_unread, secret_problem, set_problem, signed_problem, signed_value, source_problem,
    text_problem, text_value, ConfigSource,
};
use crate::durations::nanos;
use crate::text::{ascii_lower, is_digit};

verus! {

proof fn lemma_set(s: ConfigSource, name: Seq<char>, text: Seq<char>)
    requires
        !unset(s, name),
        text_told(s, name, seq![' '], text),
    ensures
        set_problem(s, name) is None,
        text_value(s, name, ""@) == text,
{
    lemma_variable(s, name);
    lemma_told_text(s, name, seq![' ']);
}

pub(crate) proof fn lemma_told_number(
    s: ConfigSource,
    name: Seq<char>,
    default: nat,
    n: nat,
    max: nat,
    kind: Seq<char>,
)
    requires
        number_told(s, name, default as int, n as int),
        n <= max,
    ensures
        number_problem(s, name, max, kind) is None,
        number_value(s, name, default, max) == n,
{
    lemma_variable(s, name);
    if !unset(s, name) {
        let text = choose|text: Seq<char>| #[trigger]
            text_told(s, name, seq![' '], text) && reads(text, n as int);
        lemma_set(s, name, text);
        lemma_parsed(text, max);
    }
}

proof fn lemma_told_integer(s: ConfigSource, name: Seq<char>, default: int, n: int)
    requires
        integer_told(s, name, default, n),
        i32::MIN <= n <= i32::MAX,
    ensures
        signed_problem(s, name) is None,
        signed_value(s, name, default) == n,
{
    lemma_variable(s, name);
    if !unset(s, name) {
        let text = choose|text: Seq<char>| #[trigger]
            text_told(s, name, seq![' '], text) && reads_signed(text, n);
        lemma_set(s, name, text);
        lemma_parsed(text, i32::MAX as nat);
        if text[0] == '-' {
            if reads(text, n) {
                assert(!is_digit('-'));
                assert(in_digits(text) ==> 48 <= text[0] as int);
            }
            lemma_worth(text.skip(1));
            assert forall|i: int| 0 <= i < text.skip(1).len() implies is_digit(
                #[trigger] text.skip(1)[i],
            ) by {}
        }
    }
}

proof fn lemma_told_span(s: ConfigSource, name: Seq<char>, default: nat, d: Duration)
    requires
        span_told(s, name, default as int, d),
        nanos(d) as int / 1_000_000 <= u64::MAX,
    ensures
        ms_problem(s, name, default) is None,
        ms_value(s, name, default) * 1_000_000 == nanos(d),
{
    lemma_told_number(
        s,
        name,
        default,
        (nanos(d) as int / 1_000_000) as nat,
        u64::MAX as nat,
        "u64"@,
    );
}

proof fn lemma_told_flag(s: ConfigSource, name: Seq<char>, default: bool, yes: bool)
    requires
        flag_told(s, name, default, yes),
    ensures
        flag_problem(s, name) is None,
        flag_value(s, name, default) == yes,
{
    lemma_variable(s, name);
    if !unset(s, name) {
        let text = choose|text: Seq<char>| #[trigger]
            text_told(s, name, seq![' '], text) && spells(text, yes) && !spells(text, !yes);
        lemma_set(s, name, text);
        lemma_spells(text);
    }
}

proof fn lemma_told_option(s: ConfigSource, name: Seq<char>, text: Option<String>)
    requires
        option_told(s, name, text),
    ensures
        set_problem(s, name) is None,
{
    lemma_variable(s, name);
    if let Some(t) = text {
        lemma_set(s, name, t@);
    }
}

/// A number, a signed number or a span is read wherever a variable denotes it, or from the
/// default.
pub proof fn law_numbers_are_owed(
    s: ConfigSource,
    name: &str,
    size: usize,
    count: u32,
    long: u64,
    signed: i32,
    a: Result<usize, ConfigError>,
    b: Result<u32, ConfigError>,
    c: Result<u64, ConfigError>,
    d: Result<i32, ConfigError>,
    e: Result<Duration, ConfigError>,
)
    requires
        call_ensures(ConfigSource::parse_size, (&s, name, size), a),
        call_ensures(ConfigSource::parse_count, (&s, name, count), b),
        call_ensures(ConfigSource::parse_long, (&s, name, long), c),
        call_ensures(ConfigSource::parse_signed, (&s, name, signed), d),
        call_ensures(ConfigSource::duration_ms, (&s, name, long), e),
    ensures
        forall|n: usize| #[trigger]
            number_told(s, name@, size as int, n as int) ==> a == Ok::<_, ConfigError>(n),
        forall|n: u32| #[trigger]
            number_told(s, name@, count as int, n as int) ==> b == Ok::<_, ConfigError>(n),
        forall|n: u64| #[trigger]
            number_told(s, name@, long as int, n as int) ==> c == Ok::<_, ConfigError>(n),
        forall|n: i32| #[trigger]
            integer_told(s, name@, signed as int, n as int) ==> d == Ok::<_, ConfigError>(n),
        forall|n: u64| n > 0 && #[trigger] number_told(s, name@, long as int, n as int) ==> (
        e matches Ok(span) && nanos(span) == n * 1_000_000),
{
    assert forall|n: usize| #[trigger] number_told(s, name@, size as int, n as int) implies a == Ok::<
        _,
        ConfigError,
    >(n) by {
        lemma_told_number(s, name@, size as nat, n as nat, usize::MAX as nat, "usize"@);
    }
    assert forall|n: u32| #[trigger] number_told(s, name@, count as int, n as int) implies b == Ok::<
        _,
        ConfigError,
    >(n) by {
        lemma_told_number(s, name@, count as nat, n as nat, u32::MAX as nat, "u32"@);
    }
    assert forall|n: u64| #[trigger] number_told(s, name@, long as int, n as int) implies c == Ok::<
        _,
        ConfigError,
    >(n) by {
        lemma_told_number(s, name@, long as nat, n as nat, u64::MAX as nat, "u64"@);
    }
    assert forall|n: i32| #[trigger] integer_told(s, name@, signed as int, n as int) implies d == Ok::<
        _,
        ConfigError,
    >(n) by {
        lemma_told_integer(s, name@, signed as int, n as int);
    }
    assert forall|n: u64| n > 0 && #[trigger] number_told(s, name@, long as int, n as int) implies (
    e matches Ok(span) && nanos(span) == n * 1_000_000) by {
        lemma_told_number(s, name@, long as nat, n as nat, u64::MAX as nat, "u64"@);
    }
}

/// Whether settings are those of the variables.
pub open spec fn told(s: ConfigSource, c: AppConfig) -> bool {
    &&& texts_told(s, c)
    &&& spans_told(s, c)
    &&& numbers_told(s, c)
    &&& integers_told(s, c)
    &&& flags_told(s, c)
    &&& options_told(s, c)
    &&& secret_told(s, c.redis_url@)
    &&& rate_told(s, c.max_scenarios_per_sec)
}

/// Whether all times are numbers of milliseconds of 64 bits.
pub open spec fn spans_are_small(c: AppConfig) -> bool {
    &&& nanos(c.kafka_max_poll_interval) as int / 1_000_000 <= 18_446_744_073_709_551_615
    &&& nanos(c.kafka_session_timeout) as int / 1_000_000 <= 18_446_744_073_709_551_615
    &&& nanos(c.kafka_message_timeout) as int / 1_000_000 <= 18_446_744_073_709_551_615
    &&& nanos(c.kafka_delivery_timeout) as int / 1_000_000 <= 18_446_744_073_709_551_615
    &&& nanos(c.kafka_request_timeout) as int / 1_000_000 <= 18_446_744_073_709_551_615
    &&& nanos(c.leader_renew_interval) as int / 1_000_000 <= 18_446_744_073_709_551_615
    &&& nanos(c.scheduler_tick_interval) as int / 1_000_000 <= 18_446_744_073_709_551_615
    &&& nanos(c.execution_lease_ttl) as int / 1_000_000 <= 18_446_744_073_709_551_615
    &&& nanos(c.execution_lease_renew_interval) as int / 1_000_000 <= 18_446_744_073_709_551_615
    &&& nanos(c.execution_terminal_retention) as int / 1_000_000 <= 18_446_744_073_709_551_615
    &&& nanos(c.worker_retry_base_delay) as int / 1_000_000 <= 18_446_744_073_709_551_615
    &&& nanos(c.worker_retry_max_delay) as int / 1_000_000 <= 18_446_744_073_709_551_615
    &&& nanos(c.aggregation_partial_timeout) as int / 1_000_000 <= 18_446_744_073_709_551_615
    &&& nanos(c.aggregation_retention) as int / 1_000_000 <= 18_446_744_073_709_551_615
    &&& nanos(c.aggregation_scan_interval) as int / 1_000_000 <= 18_446_744_073_709_551_615
    &&& nanos(c.startup_deadline) as int / 1_000_000 <= 18_446_744_073_709_551_615
    &&& nanos(c.shutdown_drain_timeout) as int / 1_000_000 <= 18_446_744_073_709_551_615
    &&& nanos(c.grpc_connect_timeout) as int / 1_000_000 <= 18_446_744_073_709_551_615
    &&& nanos(c.grpc_request_timeout) as int / 1_000_000 <= 18_446_744_073_709_551_615
    &&& nanos(c.grpc_scenario_timeout) as int / 1_000_000 <= 18_446_744_073_709_551_615
    &&& nanos(c.max_duration) as int / 1_000_000 <= 18_446_744_073_709_551_615
}

proof fn lemma_texts_owed(s: ConfigSource, c: AppConfig)
    requires
        texts_told(s, c),
    ensures
        text_problem(s, "PULSE_KAFKA_BROKERS"@, "localhost:9092"@) is None,
        text_problem(s, "PULSE_KAFKA_JOBS_TOPIC"@, "pulse.scenario.jobs"@) is None,
        text_problem(s, "PULSE_KAFKA_RESULTS_TOPIC"@, "pulse.scenario.results"@) is None,
        text_problem(s, "PULSE_KAFKA_SUMMARIES_TOPIC"@, "pulse.scenario.summaries"@) is None,
        text_problem(s, "PULSE_KAFKA_DLQ_TOPIC"@, "pulse.scenario.dlq"@) is None,
        text_problem(s, "PULSE_KAFKA_GROUP_ID"@, "pulse-workers"@) is None,
        text_problem(s, "PULSE_KAFKA_AGGREGATOR_GROUP_ID"@, "pulse-aggregators"@) is None,
        text_problem(s, "PULSE_REDIS_LEADER_KEY"@, "pulse:{coordination}:leader"@) is None,
        text_problem(s, "PULSE_REDIS_SCHEDULE_PREFIX"@, "pulse:{coordination}:schedule"@) is None,
        text_problem(s, "PULSE_REDIS_IDEMPOTENCY_PREFIX"@, "pulse:dedupe"@) is None,
        text_problem(s, "PULSE_REDIS_AGGREGATION_PREFIX"@, "pulse:aggregation"@) is None,
        text_problem(s, "PULSE_NODE_ID"@, s.default_node_id@) is None,
        text_problem(s, "PULSE_ENDPOINT"@, "http://127.0.0.1:8080"@) is None,
        text_problem(s, "PULSE_METRICS_BIND"@, "0.0.0.0:9090"@) is None,
{
    lemma_told_text(s, "PULSE_KAFKA_BROKERS"@, "localhost:9092"@);
    lemma_told_text(s, "PULSE_KAFKA_JOBS_TOPIC"@, "pulse.scenario.jobs"@);
    lemma_told_text(s, "PULSE_KAFKA_RESULTS_TOPIC"@, "pulse.scenario.results"@);
    lemma_told_text(s, "PULSE_KAFKA_SUMMARIES_TOPIC"@, "pulse.scenario.summaries"@);
    lemma_told_text(s, "PULSE_KAFKA_DLQ_TOPIC"@, "pulse.scenario.dlq"@);
    lemma_told_text(s, "PULSE_KAFKA_GROUP_ID"@, "pulse-workers"@);
    lemma_told_text(s, "PULSE_KAFKA_AGGREGATOR_GROUP_ID"@, "pulse-aggregators"@);
    lemma_told_text(s, "PULSE_REDIS_LEADER_KEY"@, "pulse:{coordination}:leader"@);
    lemma_told_text(s, "PULSE_REDIS_SCHEDULE_PREFIX"@, "pulse:{coordination}:schedule"@);
    lemma_told_text(s, "PULSE_REDIS_IDEMPOTENCY_PREFIX"@, "pulse:dedupe"@);
    lemma_told_text(s, "PULSE_REDIS_AGGREGATION_PREFIX"@, "pulse:aggregation"@);
    lemma_told_text(s, "PULSE_NODE_ID"@, s.default_node_id@);
    lemma_told_text(s, "PULSE_ENDPOINT"@, "http://127.0.0.1:8080"@);
    lemma_told_text(s, "PULSE_METRICS_BIND"@, "0.0.0.0:9090"@);
}

proof fn lemma_spans_owed(s: ConfigSource, c: AppConfig)
    requires
        spans_told(s, c),
        spans_are_small(c),
    ensures
        ms_problem(s, "PULSE_KAFKA_MAX_POLL_INTERVAL_MS"@, 300_000) is None,
        ms_problem(s, "PULSE_KAFKA_SESSION_TIMEOUT_MS"@, 10_000) is None,
        ms_problem(s, "PULSE_KAFKA_MESSAGE_TIMEOUT_MS"@, 10_000) is None,
        ms_problem(s, "PULSE_KAFKA_DELIVERY_TIMEOUT_MS"@, 10_000) is None,
        ms_problem(s, "PULSE_KAFKA_REQUEST_TIMEOUT_MS"@, 5_000) is None,
        ms_problem(s, "PULSE_LEADER_RENEW_INTERVAL_MS"@, 3_000) is None,
        ms_problem(s, "PULSE_SCHEDULER_TICK_INTERVAL_MS"@, 500) is None,
        ms_problem(s, "PULSE_EXECUTION_LEASE_TTL_MS"@, 30_000) is None,
        ms_problem(s, "PULSE_EXECUTION_LEASE_RENEW_INTERVAL_MS"@, 10_000) is None,
        ms_problem(s, "PULSE_EXECUTION_TERMINAL_RETENTION_MS"@, 86_400_000) is None,
        ms_problem(s, "PULSE_WORKER_RETRY_BASE_DELAY_MS"@, 500) is None,
        ms_problem(s, "PULSE_WORKER_RETRY_MAX_DELAY_MS"@, 30_000) is None,
        ms_problem(s, "PULSE_AGGREGATION_PARTIAL_TIMEOUT_MS"@, 60_000) is None,
        ms_problem(s, "PULSE_AGGREGATION_RETENTION_MS"@, 86_400_000) is None,
        ms_problem(s, "PULSE_AGGREGATION_SCAN_INTERVAL_MS"@, 1_000) is None,
        ms_problem(s, "PULSE_STARTUP_DEADLINE_MS"@, 60_000) is None,
        ms_problem(s, "PULSE_SHUTDOWN_DRAIN_TIMEOUT_MS"@, 30_000) is None,
        ms_problem(s, "PULSE_GRPC_CONNECT_TIMEOUT_MS"@, 5_000) is None,
        ms_problem(s, "PULSE_GRPC_REQUEST_TIMEOUT_MS"@, 5_000) is None,
        ms_problem(s, "PULSE_GRPC_SCENARIO_TIMEOUT_MS"@, 30_000) is None,
        ms_problem(s, "PULSE_MAX_DURATION_MS"@, 60_000) is None,
{
    lemma_told_span(s, "PULSE_KAFKA_MAX_POLL_INTERVAL_MS"@, 300_000, c.kafka_max_poll_interval);
    lemma_told_span(s, "PULSE_KAFKA_SESSION_TIMEOUT_MS"@, 10_000, c.kafka_session_timeout);
    lemma_told_span(s, "PULSE_KAFKA_MESSAGE_TIMEOUT_MS"@, 10_000, c.kafka_message_timeout);
    lemma_told_span(s, "PULSE_KAFKA_DELIVERY_TIMEOUT_MS"@, 10_000, c.kafka_delivery_timeout);
    lemma_told_span(s, "PULSE_KAFKA_REQUEST_TIMEOUT_MS"@, 5_000, c.kafka_request_timeout);
    lemma_told_span(s, "PULSE_LEADER_RENEW_INTERVAL_MS"@, 3_000, c.leader_renew_interval);
    lemma_told_span(s, "PULSE_SCHEDULER_TICK_INTERVAL_MS"@, 500, c.scheduler_tick_interval);
    lemma_told_span(s, "PULSE_EXECUTION_LEASE_TTL_MS"@, 30_000, c.execution_lease_ttl);
    lemma_told_span(s, "PULSE_EXECUTION_LEASE_RENEW_INTERVAL_MS"@, 10_000, c.execution_lease_renew_interval);
    lemma_told_span(s, "PULSE_EXECUTION_TERMINAL_RETENTION_MS"@, 86_400_000, c.execution_terminal_retention);
    lemma_told_span(s, "PULSE_WORKER_RETRY_BASE_DELAY_MS"@, 500, c.worker_retry_base_delay);
    lemma_told_span(s, "PULSE_WORKER_RETRY_MAX_DELAY_MS"@, 30_000, c.worker_retry_max_delay);
    lemma_told_span(s, "PULSE_AGGREGATION_PARTIAL_TIMEOUT_MS"@, 60_000, c.aggregation_partial_timeout);
    lemma_told_span(s, "PULSE_AGGREGATION_RETENTION_MS"@, 86_400_000, c.aggregation_retention);
    lemma_told_span(s, "PULSE_AGGREGATION_SCAN_INTERVAL_MS"@, 1_000, c.aggregation_scan_interval);
    lemma_told_span(s, "PULSE_STARTUP_DEADLINE_MS"@, 60_000, c.startup_deadline);
    lemma_told_span(s, "PULSE_SHUTDOWN_DRAIN_TIMEOUT_MS"@, 30_000, c.shutdown_drain_timeout);
    lemma_told_span(s, "PULSE_GRPC_CONNECT_TIMEOUT_MS"@, 5_000, c.grpc_connect_timeout);
    lemma_told_span(s, "PULSE_GRPC_REQUEST_TIMEOUT_MS"@, 5_000, c.grpc_request_timeout);
    lemma_told_span(s, "PULSE_GRPC_SCENARIO_TIMEOUT_MS"@, 30_000, c.grpc_scenario_timeout);
    lemma_told_span(s, "PULSE_MAX_DURATION_MS"@, 60_000, c.max_duration);
}

proof fn lemma_numbers_owed(s: ConfigSource, c: AppConfig)
    requires
        numbers_told(s, c),
    ensures
        number_problem(s, "PULSE_KAFKA_PRODUCER_MESSAGE_MAX_BYTES"@, usize::MAX as nat, "usize"@) is None,
        number_problem(s, "PULSE_KAFKA_PRODUCER_QUEUE_MESSAGES"@, usize::MAX as nat, "usize"@) is None,
        number_problem(s, "PULSE_KAFKA_CONSUMER_QUEUE_KBYTES"@, usize::MAX as nat, "usize"@) is None,
        number_problem(s, "PULSE_KAFKA_CONSUMER_PARTITION_FETCH_MAX_BYTES"@, usize::MAX as nat, "usize"@) is None,
        number_problem(s, "PULSE_KAFKA_CONSUMER_FETCH_MAX_BYTES"@, usize::MAX as nat, "usize"@) is None,
        number_problem(s, "PULSE_KAFKA_CONSUMER_RECORD_MAX_BYTES"@, usize::MAX as nat, "usize"@) is None,
        number_problem(s, "PULSE_LEADER_LOCK_TTL_MS"@, u64::MAX as nat, "u64"@) is None,
        number_problem(s, "PULSE_WORKER_MAX_RETRIES"@, u32::MAX as nat, "u32"@) is None,
        number_problem(s, "PULSE_RETRY_QUEUE_CAPACITY"@, usize::MAX as nat, "usize"@) is None,
        number_problem(s, "PULSE_AGGREGATION_SCAN_BATCH"@, usize::MAX as nat, "usize"@) is None,
        number_problem(s, "PULSE_AGGREGATION_MAX_ACTIVE_RUNS"@, usize::MAX as nat, "usize"@) is None,
        number_problem(s, "PULSE_AGGREGATION_MAX_ERROR_KINDS"@, usize::MAX as nat, "usize"@) is None,
        number_problem(s, "PULSE_MAX_CONCURRENCY"@, usize::MAX as nat, "usize"@) is None,
        number_problem(s, "PULSE_STARTUP_BURST"@, usize::MAX as nat, "usize"@) is None,
{
    lemma_told_number(s, "PULSE_KAFKA_PRODUCER_MESSAGE_MAX_BYTES"@, 1_000_000, c.kafka_producer_message_max_bytes as nat, usize::MAX as nat, "usize"@);
    lemma_told_number(s, "PULSE_KAFKA_PRODUCER_QUEUE_MESSAGES"@, 1_024, c.producer_queue_messages as nat, usize::MAX as nat, "usize"@);
    lemma_told_number(s, "PULSE_KAFKA_CONSUMER_QUEUE_KBYTES"@, 4_096, c.consumer_queue_kbytes as nat, usize::MAX as nat, "usize"@);
    lemma_told_number(s, "PULSE_KAFKA_CONSUMER_PARTITION_FETCH_MAX_BYTES"@, 524_288, c.consumer_partition_fetch_max_bytes as nat, usize::MAX as nat, "usize"@);
    lemma_told_number(s, "PULSE_KAFKA_CONSUMER_FETCH_MAX_BYTES"@, 4_194_304, c.consumer_fetch_max_bytes as nat, usize::MAX as nat, "usize"@);
    lemma_told_number(s, "PULSE_KAFKA_CONSUMER_RECORD_MAX_BYTES"@, 1_000_000, c.consumer_record_max_bytes as nat, usize::MAX as nat, "usize"@);
    lemma_told_number(s, "PULSE_LEADER_LOCK_TTL_MS"@, 10_000, c.leader_lock_ttl_ms as nat, u64::MAX as nat, "u64"@);
    lemma_told_number(s, "PULSE_WORKER_MAX_RETRIES"@, 2, c.worker_max_retries as nat, u32::MAX as nat, "u32"@);
    lemma_told_number(s, "PULSE_RETRY_QUEUE_CAPACITY"@, 1_024, c.retry_queue_capacity as nat, usize::MAX as nat, "usize"@);
    lemma_told_number(s, "PULSE_AGGREGATION_SCAN_BATCH"@, 128, c.aggregation_scan_batch as nat, usize::MAX as nat, "usize"@);
    lemma_told_number(s, "PULSE_AGGREGATION_MAX_ACTIVE_RUNS"@, 10_000, c.aggregation_max_active_runs as nat, usize::MAX as nat, "usize"@);
    lemma_told_number(s, "PULSE_AGGREGATION_MAX_ERROR_KINDS"@, 64, c.aggregation_max_error_kinds as nat, usize::MAX as nat, "usize"@);
    lemma_told_number(s, "PULSE_MAX_CONCURRENCY"@, 256, c.max_concurrency as nat, usize::MAX as nat, "usize"@);
    lemma_told_number(s, "PULSE_STARTUP_BURST"@, 0, c.startup_burst as nat, usize::MAX as nat, "usize"@);
}

proof fn lemma_others_owed(s: ConfigSource, c: AppConfig)
    requires
        integers_told(s, c),
        flags_told(s, c),
        options_told(s, c),
        secret_told(s, c.redis_url@),
        rate_told(s, c.max_scenarios_per_sec),
        unset(s, "PULSE_MAX_SCENARIOS_PER_SEC"@) || set_problem(s, "PULSE_MAX_SCENARIOS_PER_SEC"@) is None,
    ensures
        signed_problem(s, "PULSE_KAFKA_TOPIC_PARTITIONS"@) is None,
        signed_problem(s, "PULSE_KAFKA_TOPIC_REPLICATION_FACTOR"@) is None,
        flag_problem(s, "PULSE_KAFKA_PRODUCER_IDEMPOTENCE"@) is None,
        flag_problem(s, "PULSE_KAFKA_TOPIC_MANAGEMENT_ENABLED"@) is None,
        flag_problem(s, "PULSE_AGGREGATION_ENABLED"@) is None,
        flag_problem(s, "PULSE_DRY_RUN"@) is None,
        flag_problem(s, "PULSE_ALLOW_PARTIAL_START"@) is None,
        flag_problem(s, "PULSE_ACKNOWLEDGE_NON_LOCAL_TARGETS"@) is None,
        flag_problem(s, "PULSE_METRICS_ENABLED"@) is None,
        set_problem(s, "PULSE_SCENARIOS_FILE"@) is None,
        set_problem(s, "PULSE_GRPC_DESCRIPTOR_SET"@) is None,
        secret_problem(s, "PULSE_REDIS_URL"@, "redis://127.0.0.1:6379"@) is None,
        rate_problem(s, "PULSE_MAX_SCENARIOS_PER_SEC"@) is None,
{
    lemma_told_integer(s, "PULSE_KAFKA_TOPIC_PARTITIONS"@, 3, c.kafka_topic_partitions as int);
    lemma_told_integer(s, "PULSE_KAFKA_TOPIC_REPLICATION_FACTOR"@, 1, c.kafka_topic_replication_factor as int);
    lemma_told_flag(s, "PULSE_KAFKA_PRODUCER_IDEMPOTENCE"@, true, c.kafka_producer_idempotence);
    lemma_told_flag(s, "PULSE_KAFKA_TOPIC_MANAGEMENT_ENABLED"@, false, c.kafka_topic_management_enabled);
    lemma_told_flag(s, "PULSE_AGGREGATION_ENABLED"@, true, c.aggregation_enabled);
    lemma_told_flag(s, "PULSE_DRY_RUN"@, false, c.dry_run);
    lemma_told_flag(s, "PULSE_ALLOW_PARTIAL_START"@, false, c.allow_partial_start);
    lemma_told_flag(s, "PULSE_ACKNOWLEDGE_NON_LOCAL_TARGETS"@, false, c.acknowledge_non_local_targets);
    lemma_told_flag(s, "PULSE_METRICS_ENABLED"@, true, c.metrics_enabled);
    lemma_told_option(s, "PULSE_SCENARIOS_FILE"@, c.scenarios_file);
    lemma_told_option(s, "PULSE_GRPC_DESCRIPTOR_SET"@, c.grpc_descriptor_set);
    assert(found(s, "PULSE_REDIS_URL"@, "redis://127.0.0.1:6379"@, c.redis_url@));
    lemma_told_secret(s, "PULSE_REDIS_URL"@, "redis://127.0.0.1:6379"@, c.redis_url@);
    lemma_variable(s, "PULSE_MAX_SCENARIOS_PER_SEC"@);
}

proof fn lemma_acks_owed(s: ConfigSource, acks: Seq<char>)
    requires
        text_told(s, "PULSE_KAFKA_PRODUCER_ACKS"@, "all"@, acks),
        letters(acks, seq!['a', 'l', 'l']) || letters(acks, seq!['-', '1']),
    ensures
        acks_unread(s) is None,
{
    lemma_told_text(s, "PULSE_KAFKA_PRODUCER_ACKS"@, "all"@);
    lemma_acks_letters(acks);
}

proof fn lemma_acks_letters(acks: Seq<char>)
    requires
        letters(acks, seq!['a', 'l', 'l']) || letters(acks, seq!['-', '1']),
    ensures
        acks_all(ascii_lower(acks)),
{
    reveal_strlit("all");
    reveal_strlit("-1");
    assert("all"@ =~= seq!['a', 'l', 'l']);
    assert("-1"@ =~= seq!['-', '1']);
    lemma_letters(acks, seq!['a', 'l', 'l']);
    lemma_letters(acks, seq!['-', '1']);
}

proof fn lemma_read_is_told(s: ConfigSource, facts: AddressFacts, c: AppConfig)
    requires
        source_problem(s, facts) is None,
        is_read(c, s, facts),
    ensures
        told(s, c),
{
    lemma_texts(s, facts, c);
    lemma_spans(s, facts, c);
    lemma_numbers(s, facts, c);
    lemma_integers(s, facts, c);
    lemma_flags(s, facts, c);
    lemma_options(s, facts, c);
    lemma_secret(s);
    lemma_rate(s);
}

/// Where every variable can be read, the hosts are hosts and records are acknowledged by all
/// replicas, the settings are refused only where those of the variables break a rule.
pub proof fn law_settings_are_owed(
    s: ConfigSource,
    facts: AddressFacts,
    c: AppConfig,
    rate: Seq<char>,
    acks: Seq<char>,
    raw: &str,
    hosts: Result<Vec<String>, ConfigError>,
    r: Result<AppConfig, ConfigError>,
)
    requires
        call_ensures(AppConfig::from_sources, (&s, &facts), r),
        told(s, c),
        spans_are_small(c),
        unset(s, "PULSE_MAX_SCENARIOS_PER_SEC"@) || text_told(
            s,
            "PULSE_MAX_SCENARIOS_PER_SEC"@,
            seq![' '],
            rate,
        ),
        text_told(s, "PULSE_KAFKA_PRODUCER_ACKS"@, "all"@, acks),
        letters(acks, seq!['a', 'l', 'l']) || letters(acks, seq!['-', '1']),
        text_told(s, "PULSE_TARGET_ALLOWLIST"@, "localhost,127.0.0.1,::1"@, raw@),
        call_ensures(parse_allowlist, (raw, &facts.ip_addresses), hosts),
        hosts is Ok,
    ensures
        r matches Err(e) ==> exists|d: AppConfig| #[trigger]
            told(s, d) && !(sound(d, facts) && spans_held(d)) && e is Invalid,
{
    if !unset(s, "PULSE_MAX_SCENARIOS_PER_SEC"@) {
        lemma_set(s, "PULSE_MAX_SCENARIOS_PER_SEC"@, rate);
    }
    lemma_texts_owed(s, c);
    lemma_spans_owed(s, c);
    lemma_numbers_owed(s, c);
    lemma_others_owed(s, c);
    lemma_acks_owed(s, acks);
    lemma_told_text(s, "PULSE_TARGET_ALLOWLIST"@, "localhost,127.0.0.1,::1"@);
    assert(allowlist_unread(s, facts) is None);
    assert(kafka_names_unread(s) is None);
    assert(kafka_times_unread(s) is None);
    assert(kafka_sizes_unread(s) is None);
    assert(redis_names_unread(s) is None);
    assert(leases_unread(s) is None);
    assert(aggregation_unread(s) is None);
    assert(lifecycle_unread(s) is None);
    assert(load_unread(s) is None);
    assert(source_problem(s, facts) is None);
    if let Err(e) = r {
        let d = choose|d: AppConfig|
            #![trigger is_read(d, s, facts)]
            is_read(d, s, facts) && config_problem(d, facts) is Some && e.is_invalid(
                config_problem(d, facts)->0,
            );
        lemma_read_is_told(s, facts, d);
        lemma_sound(d, facts);
    }
}

} // verus!
