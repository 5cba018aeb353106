//! The settings of a node and the rules that hold between them.
use std::time::Duration;
use vstd::prelude::*;
use super::endpoint::{endpoint_host, validate_brokers};
#[allow(unused_imports)]
use super::endpoint::{
    brokers_problem, host_of, is_origin_path, parsed_endpoint, without_brackets,
};
use super::error::{reports, ConfigError};
#[allow(unused_imports)]
use super::error::{first, Problem};
use super::hosts::validate_allowlist_host;
#[allow(unused_imports)]
use super::hosts::host_problem;
use super::rate::{Rate, MAX_SAFETY_RATE_BITS};
use super::rules::{
    checked_duration_sum, poison_record_size_bound, retry_backoff_upper_bound, validate_capacity,
    validate_duration_upper_bound, validate_inclusive_i32, validate_non_empty, validate_topic,
};
#[allow(unused_imports)]
use super::rules::{
    backoff_problem, backoff_sum, blank_problem, capacity_problem, least, poison_bound,
    range_problem, span_problem, sum_nanos, sum_problem, topic_problem,
};
use crate::contracts::MAX_POISON_EVIDENCE_FIELD_BYTES;
use crate::durations::{is_zero, longest, shorter, shortest};
#[allow(unused_imports)]
use crate::durations::{max_nanos, millis, nanos};
use crate::keys::redis_hash_tag;
#[allow(unused_imports)]
use crate::keys::hash_tag;
use crate::text::{
    concat2, concat3, concat5, copy_str, decimal_u128, decimal_u64, decimal_usize,
    eq_ignoring_ascii_case, str_eq,
};
#[allow(unused_imports)]
use crate::text::{ascii_lower, decimal, opt_view, views};

verus! {

pub const MAX_KAFKA_POLL_INTERVAL_MS: u64 = 86_400_000;

pub const MAX_KAFKA_SESSION_TIMEOUT_MS: u64 = 3_600_000;

pub const MAX_CONFIGURED_DURATION_MS: u64 = 86_400_000;

pub const MAX_QUEUE_CAPACITY: usize = 1_000_000;

pub const MAX_CONSUMER_QUEUE_KBYTES: usize = 1_048_576;

pub const MAX_KAFKA_MESSAGE_BYTES: usize = 268_435_456;

pub const MAX_TOPIC_PARTITIONS: i32 = 10_000;

pub const MAX_TOPIC_REPLICATION_FACTOR: i32 = 32;

pub const MAX_WORKER_RETRIES: u32 = 32;

pub const MAX_SAFETY_CONCURRENCY: usize = 1_000_000;

pub const MAX_ERROR_KINDS: usize = 10_000;

pub const REDIS_OPERATION_TIMEOUT_CEILING_MS: u64 = 2_000;

pub const KAFKA_POLL_SAFETY_MARGIN_MS: u64 = 1_000;

/// The settings of a node.
#[derive(Debug)]
pub struct AppConfig {
    pub kafka_brokers: String,
    pub kafka_jobs_topic: String,
    pub kafka_results_topic: String,
    pub kafka_summaries_topic: String,
    pub kafka_dlq_topic: String,
    pub kafka_group_id: String,
    pub kafka_aggregator_group_id: String,
    pub kafka_max_poll_interval: Duration,
    pub kafka_session_timeout: Duration,
    pub kafka_message_timeout: Duration,
    pub kafka_delivery_timeout: Duration,
    pub kafka_request_timeout: Duration,
    pub kafka_producer_acks: String,
    pub kafka_producer_idempotence: bool,
    pub kafka_producer_message_max_bytes: usize,
    pub kafka_topic_management_enabled: bool,
    pub kafka_topic_partitions: i32,
    pub kafka_topic_replication_factor: i32,
    pub producer_queue_messages: usize,
    pub consumer_queue_kbytes: usize,
    pub consumer_partition_fetch_max_bytes: usize,
    pub consumer_fetch_max_bytes: usize,
    pub consumer_record_max_bytes: usize,
    pub redis_url: String,
    pub redis_leader_key: String,
    pub redis_schedule_prefix: String,
    pub redis_idempotency_prefix: String,
    pub redis_aggregation_prefix: String,
    pub node_id: String,
    pub leader_lock_ttl_ms: u64,
    pub leader_renew_interval: Duration,
    pub scheduler_tick_interval: Duration,
    pub execution_lease_ttl: Duration,
    pub execution_lease_renew_interval: Duration,
    pub execution_terminal_retention: Duration,
    pub worker_max_retries: u32,
    pub worker_retry_base_delay: Duration,
    pub worker_retry_max_delay: Duration,
    pub retry_queue_capacity: usize,
    pub aggregation_enabled: bool,
    pub aggregation_partial_timeout: Duration,
    pub aggregation_retention: Duration,
    pub aggregation_scan_interval: Duration,
    pub aggregation_scan_batch: usize,
    pub aggregation_max_active_runs: usize,
    pub aggregation_max_error_kinds: usize,
    pub startup_deadline: Duration,
    pub shutdown_drain_timeout: Duration,
    pub pulse_endpoint: String,
    pub scenarios_file: Option<String>,
    pub grpc_descriptor_set: Option<String>,
    pub grpc_connect_timeout: Duration,
    pub grpc_request_timeout: Duration,
    pub grpc_scenario_timeout: Duration,
    pub max_duration: Duration,
    pub max_scenarios_per_sec: Rate,
    pub max_concurrency: usize,
    pub dry_run: bool,
    pub startup_burst: usize,
    pub allow_partial_start: bool,
    pub target_allowlist: Vec<String>,
    pub acknowledge_non_local_targets: bool,
    pub metrics_enabled: bool,
    pub metrics_bind: String,
}

/// Whether settings are the same.
pub open spec fn same_settings(a: AppConfig, b: AppConfig) -> bool {
    &&& a.kafka_brokers@ == b.kafka_brokers@
    &&& a.kafka_jobs_topic@ == b.kafka_jobs_topic@
    &&& a.kafka_results_topic@ == b.kafka_results_topic@
    &&& a.kafka_summaries_topic@ == b.kafka_summaries_topic@
    &&& a.kafka_dlq_topic@ == b.kafka_dlq_topic@
    &&& a.kafka_group_id@ == b.kafka_group_id@
    &&& a.kafka_aggregator_group_id@ == b.kafka_aggregator_group_id@
    &&& a.kafka_max_poll_interval == b.kafka_max_poll_interval
    &&& a.kafka_session_timeout == b.kafka_session_timeout
    &&& a.kafka_message_timeout == b.kafka_message_timeout
    &&& a.kafka_delivery_timeout == b.kafka_delivery_timeout
    &&& a.kafka_request_timeout == b.kafka_request_timeout
    &&& a.kafka_producer_acks@ == b.kafka_producer_acks@
    &&& a.kafka_producer_idempotence == b.kafka_producer_idempotence
    &&& a.kafka_producer_message_max_bytes == b.kafka_producer_message_max_bytes
    &&& a.kafka_topic_management_enabled == b.kafka_topic_management_enabled
    &&& a.kafka_topic_partitions == b.kafka_topic_partitions
    &&& a.kafka_topic_replication_factor == b.kafka_topic_replication_factor
    &&& a.producer_queue_messages == b.producer_queue_messages
    &&& a.consumer_queue_kbytes == b.consumer_queue_kbytes
    &&& a.consumer_partition_fetch_max_bytes == b.consumer_partition_fetch_max_bytes
    &&& a.consumer_fetch_max_bytes == b.consumer_fetch_max_bytes
    &&& a.consumer_record_max_bytes == b.consumer_record_max_bytes
    &&& a.redis_url@ == b.redis_url@
    &&& a.redis_leader_key@ == b.redis_leader_key@
    &&& a.redis_schedule_prefix@ == b.redis_schedule_prefix@
    &&& a.redis_idempotency_prefix@ == b.redis_idempotency_prefix@
    &&& a.redis_aggregation_prefix@ == b.redis_aggregation_prefix@
    &&& a.node_id@ == b.node_id@
    &&& a.leader_lock_ttl_ms == b.leader_lock_ttl_ms
    &&& a.leader_renew_interval == b.leader_renew_interval
    &&& a.scheduler_tick_interval == b.scheduler_tick_interval
    &&& a.execution_lease_ttl == b.execution_lease_ttl
    &&& a.execution_lease_renew_interval == b.execution_lease_renew_interval
    &&& a.execution_terminal_retention == b.execution_terminal_retention
    &&& a.worker_max_retries == b.worker_max_retries
    &&& a.worker_retry_base_delay == b.worker_retry_base_delay
    &&& a.worker_retry_max_delay == b.worker_retry_max_delay
    &&& a.retry_queue_capacity == b.retry_queue_capacity
    &&& a.aggregation_enabled == b.aggregation_enabled
    &&& a.aggregation_partial_timeout == b.aggregation_partial_timeout
    &&& a.aggregation_retention == b.aggregation_retention
    &&& a.aggregation_scan_interval == b.aggregation_scan_interval
    &&& a.aggregation_scan_batch == b.aggregation_scan_batch
    &&& a.aggregation_max_active_runs == b.aggregation_max_active_runs
    &&& a.aggregation_max_error_kinds == b.aggregation_max_error_kinds
    &&& a.startup_deadline == b.startup_deadline
    &&& a.shutdown_drain_timeout == b.shutdown_drain_timeout
    &&& a.pulse_endpoint@ == b.pulse_endpoint@
    &&& opt_view(a.scenarios_file) == opt_view(b.scenarios_file)
    &&& opt_view(a.grpc_descriptor_set) == opt_view(b.grpc_descriptor_set)
    &&& a.grpc_connect_timeout == b.grpc_connect_timeout
    &&& a.grpc_request_timeout == b.grpc_request_timeout
    &&& a.grpc_scenario_timeout == b.grpc_scenario_timeout
    &&& a.max_duration == b.max_duration
    &&& a.max_scenarios_per_sec == b.max_scenarios_per_sec
    &&& a.max_concurrency == b.max_concurrency
    &&& a.dry_run == b.dry_run
    &&& a.startup_burst == b.startup_burst
    &&& a.allow_partial_start == b.allow_partial_start
    &&& views(a.target_allowlist@) == views(b.target_allowlist@)
    &&& a.acknowledge_non_local_targets == b.acknowledge_non_local_targets
    &&& a.metrics_enabled == b.metrics_enabled
    &&& a.metrics_bind@ == b.metrics_bind@
}

fn copy_option(text: &Option<String>) -> (copy: Option<String>)
    ensures
        opt_view(copy) == opt_view(*text),
{
    match text {
        Some(text) => Some(copy_str(text)),
        None => None,
    }
}

fn copy_texts(texts: &Vec<String>) -> (copy: Vec<String>)
    ensures
        views(copy@) == views(texts@),
{
    let mut copy: Vec<String> = Vec::new();
    let mut i: usize = 0;
    assert(views(copy@) =~= views(texts@).take(0));
    while i < texts.len()
        invariant
            i <= texts@.len(),
            views(copy@) == views(texts@).take(i as int),
        decreases texts@.len() - i,
    {
        let ghost before = views(copy@);
        let text = copy_str(&texts[i]);
        copy.push(text);
        assert(views(copy@) =~= before.push(text@));
        assert(views(texts@).take(i + 1) =~= views(texts@).take(i as int).push(text@));
        i += 1;
    }
    assert(views(texts@).take(i as int) =~= views(texts@));
    copy
}

impl Clone for AppConfig {
    fn clone(&self) -> (c: Self)
        ensures
            same_settings(c, *self),
    {
        AppConfig {
            kafka_brokers: copy_str(&self.kafka_brokers),
            kafka_jobs_topic: copy_str(&self.kafka_jobs_topic),
            kafka_results_topic: copy_str(&self.kafka_results_topic),
            kafka_summaries_topic: copy_str(&self.kafka_summaries_topic),
            kafka_dlq_topic: copy_str(&self.kafka_dlq_topic),
            kafka_group_id: copy_str(&self.kafka_group_id),
            kafka_aggregator_group_id: copy_str(&self.kafka_aggregator_group_id),
            kafka_max_poll_interval: self.kafka_max_poll_interval,
            kafka_session_timeout: self.kafka_session_timeout,
            kafka_message_timeout: self.kafka_message_timeout,
            kafka_delivery_timeout: self.kafka_delivery_timeout,
            kafka_request_timeout: self.kafka_request_timeout,
            kafka_producer_acks: copy_str(&self.kafka_producer_acks),
            kafka_producer_idempotence: self.kafka_producer_idempotence,
            kafka_producer_message_max_bytes: self.kafka_producer_message_max_bytes,
            kafka_topic_management_enabled: self.kafka_topic_management_enabled,
            kafka_topic_partitions: self.kafka_topic_partitions,
            kafka_topic_replication_factor: self.kafka_topic_replication_factor,
            producer_queue_messages: self.producer_queue_messages,
            consumer_queue_kbytes: self.consumer_queue_kbytes,
            consumer_partition_fetch_max_bytes: self.consumer_partition_fetch_max_bytes,
            consumer_fetch_max_bytes: self.consumer_fetch_max_bytes,
            consumer_record_max_bytes: self.consumer_record_max_bytes,
            redis_url: copy_str(&self.redis_url),
            redis_leader_key: copy_str(&self.redis_leader_key),
            redis_schedule_prefix: copy_str(&self.redis_schedule_prefix),
            redis_idempotency_prefix: copy_str(&self.redis_idempotency_prefix),
            redis_aggregation_prefix: copy_str(&self.redis_aggregation_prefix),
            node_id: copy_str(&self.node_id),
            leader_lock_ttl_ms: self.leader_lock_ttl_ms,
            leader_renew_interval: self.leader_renew_interval,
            scheduler_tick_interval: self.scheduler_tick_interval,
            execution_lease_ttl: self.execution_lease_ttl,
            execution_lease_renew_interval: self.execution_lease_renew_interval,
            execution_terminal_retention: self.execution_terminal_retention,
            worker_max_retries: self.worker_max_retries,
            worker_retry_base_delay: self.worker_retry_base_delay,
            worker_retry_max_delay: self.worker_retry_max_delay,
            retry_queue_capacity: self.retry_queue_capacity,
            aggregation_enabled: self.aggregation_enabled,
            aggregation_partial_timeout: self.aggregation_partial_timeout,
            aggregation_retention: self.aggregation_retention,
            aggregation_scan_interval: self.aggregation_scan_interval,
            aggregation_scan_batch: self.aggregation_scan_batch,
            aggregation_max_active_runs: self.aggregation_max_active_runs,
            aggregation_max_error_kinds: self.aggregation_max_error_kinds,
            startup_deadline: self.startup_deadline,
            shutdown_drain_timeout: self.shutdown_drain_timeout,
            pulse_endpoint: copy_str(&self.pulse_endpoint),
            scenarios_file: copy_option(&self.scenarios_file),
            grpc_descriptor_set: copy_option(&self.grpc_descriptor_set),
            grpc_connect_timeout: self.grpc_connect_timeout,
            grpc_request_timeout: self.grpc_request_timeout,
            grpc_scenario_timeout: self.grpc_scenario_timeout,
            max_duration: self.max_duration,
            max_scenarios_per_sec: self.max_scenarios_per_sec,
            max_concurrency: self.max_concurrency,
            dry_run: self.dry_run,
            startup_burst: self.startup_burst,
            allow_partial_start: self.allow_partial_start,
            target_allowlist: copy_texts(&self.target_allowlist),
            acknowledge_non_local_targets: self.acknowledge_non_local_targets,
            metrics_enabled: self.metrics_enabled,
            metrics_bind: copy_str(&self.metrics_bind),
        }
    }
}

/// What is known of texts that should be numeric addresses.
#[derive(Debug)]
pub struct AddressFacts {
    /// Texts that are IP addresses.
    pub ip_addresses: Vec<String>,
    /// Texts that are no socket addresses, each with the reason.
    pub bad_sockets: Vec<(String, String)>,
}

/// The reason why a text is no socket address; none where it is one.
pub open spec fn socket_error(bad: Seq<(String, String)>, text: Seq<char>) -> Option<Seq<char>>
    decreases bad.len(),
{
    if bad.len() == 0 {
        None
    } else if bad[0].0@ == text {
        Some(bad[0].1@)
    } else {
        socket_error(bad.skip(1), text)
    }
}

fn find_socket_error<'a>(bad: &'a Vec<(String, String)>, text: &str) -> (r: Option<&'a String>)
    ensures
        match r {
            Some(reason) => socket_error(bad@, text@) == Some(reason@),
            None => socket_error(bad@, text@) is None,
        },
{
    let mut i: usize = 0;
    assert(bad@.skip(0) == bad@);
    while i < bad.len()
        invariant
            i <= bad@.len(),
            socket_error(bad@.skip(i as int), text@) == socket_error(bad@, text@),
        decreases bad@.len() - i,
    {
        let ghost rest = bad@.skip(i as int);
        assert(rest[0] == bad@[i as int]);
        assert(rest.skip(1) == bad@.skip(i + 1));
        if str_eq(&bad[i].0, text) {
            return Some(&bad[i].1);
        }
        i += 1;
    }
    None
}

/// What `redis::Client::open` finds wrong with a URL, in words; none where it
/// accepts it.
pub uninterp spec fn redis_url_error(url: Seq<char>) -> Option<Seq<char>>;

/// `redis::Client::open`: checks a Redis URL without opening a connection. Which
/// URLs are accepted is left to that function.
#[verifier::external_body]
fn check_redis_url(url: &str) -> (r: Result<(), String>)
    ensures
        match r {
            Ok(_) => redis_url_error(url@) is None,
            Err(m) => redis_url_error(url@) == Some(m@),
        },
{
    match redis::Client::open(url) {
        Ok(_) => Ok(()),
        Err(error) => Err(error.to_string()),
    }
}

// ---------------------------------------------------------------------------
// The rules
// ---------------------------------------------------------------------------

/// What is wrong with the names of topics and consumer groups.
pub open spec fn kafka_names_problem(c: AppConfig) -> Option<Problem> {
    first(
        brokers_problem(c.kafka_brokers@),
        first(
            topic_problem("PULSE_KAFKA_JOBS_TOPIC"@, c.kafka_jobs_topic@),
            first(
                topic_problem("PULSE_KAFKA_RESULTS_TOPIC"@, c.kafka_results_topic@),
                first(
                    topic_problem("PULSE_KAFKA_SUMMARIES_TOPIC"@, c.kafka_summaries_topic@),
                    first(
                        topic_problem("PULSE_KAFKA_DLQ_TOPIC"@, c.kafka_dlq_topic@),
                        first(
                            distinct_topics_problem(c),
                            first(
                                blank_problem("PULSE_KAFKA_GROUP_ID"@, c.kafka_group_id@),
                                first(
                                    blank_problem(
                                        "PULSE_KAFKA_AGGREGATOR_GROUP_ID"@,
                                        c.kafka_aggregator_group_id@,
                                    ),
                                    if c.kafka_group_id@ == c.kafka_aggregator_group_id@ {
                                        Some(
                                            (
                                                "PULSE_KAFKA_AGGREGATOR_GROUP_ID"@,
                                                "must differ from the job-worker consumer group"@,
                                            ),
                                        )
                                    } else {
                                        None
                                    },
                                ),
                            ),
                        ),
                    ),
                ),
            ),
        ),
    )
}

/// What is wrong where two topics have one name.
pub open spec fn distinct_topics_problem(c: AppConfig) -> Option<Problem> {
    let jobs = c.kafka_jobs_topic@;
    let results = c.kafka_results_topic@;
    let summaries = c.kafka_summaries_topic@;
    let dlq = c.kafka_dlq_topic@;
    if jobs == results || jobs == summaries || jobs == dlq || results == summaries || results == dlq
        || summaries == dlq {
        Some(("Kafka topics"@, "jobs, results, summaries, and DLQ topics must be distinct"@))
    } else {
        None
    }
}

fn validate_kafka_names(c: &AppConfig) -> (r: Result<(), ConfigError>)
    ensures
        reports(r, kafka_names_problem(*c)),
{
    validate_brokers(&c.kafka_brokers)?;
    validate_topic("PULSE_KAFKA_JOBS_TOPIC", &c.kafka_jobs_topic)?;
    validate_topic("PULSE_KAFKA_RESULTS_TOPIC", &c.kafka_results_topic)?;
    validate_topic("PULSE_KAFKA_SUMMARIES_TOPIC", &c.kafka_summaries_topic)?;
    validate_topic("PULSE_KAFKA_DLQ_TOPIC", &c.kafka_dlq_topic)?;
    if str_eq(&c.kafka_jobs_topic, &c.kafka_results_topic) || str_eq(
        &c.kafka_jobs_topic,
        &c.kafka_summaries_topic,
    ) || str_eq(&c.kafka_jobs_topic, &c.kafka_dlq_topic) || str_eq(
        &c.kafka_results_topic,
        &c.kafka_summaries_topic,
    ) || str_eq(&c.kafka_results_topic, &c.kafka_dlq_topic) || str_eq(
        &c.kafka_summaries_topic,
        &c.kafka_dlq_topic,
    ) {
        return Err(
            ConfigError::invalid(
                "Kafka topics",
                "jobs, results, summaries, and DLQ topics must be distinct",
            ),
        );
    }
    validate_non_empty("PULSE_KAFKA_GROUP_ID", &c.kafka_group_id)?;
    validate_non_empty("PULSE_KAFKA_AGGREGATOR_GROUP_ID", &c.kafka_aggregator_group_id)?;
    if str_eq(&c.kafka_group_id, &c.kafka_aggregator_group_id) {
        return Err(
            ConfigError::invalid(
                "PULSE_KAFKA_AGGREGATOR_GROUP_ID",
                "must differ from the job-worker consumer group",
            ),
        );
    }
    Ok(())
}

/// What is wrong with the hash tags of the coordination keys.
pub open spec fn hash_tags_problem(c: AppConfig) -> Option<Problem> {
    match (hash_tag(c.redis_leader_key@), hash_tag(c.redis_schedule_prefix@)) {
        (None, _) => Some(
            (
                "PULSE_REDIS_LEADER_KEY"@,
                "must contain a non-empty Redis Cluster hash tag such as '{coordination}'"@,
            ),
        ),
        (_, None) => Some(
            (
                "PULSE_REDIS_SCHEDULE_PREFIX"@,
                "must contain the same Redis Cluster hash tag as PULSE_REDIS_LEADER_KEY"@,
            ),
        ),
        (Some(leader), Some(schedule)) => if leader != schedule {
            Some(
                (
                    "Redis coordination hash tag"@,
                    "leader and schedule keys must share one Redis Cluster hash tag"@,
                ),
            )
        } else {
            None
        },
    }
}

/// What is wrong where two Redis prefixes are the same.
pub open spec fn distinct_prefixes_problem(c: AppConfig) -> Option<Problem> {
    let schedule = c.redis_schedule_prefix@;
    let idempotency = c.redis_idempotency_prefix@;
    let aggregation = c.redis_aggregation_prefix@;
    if schedule == idempotency || schedule == aggregation || idempotency == aggregation {
        Some(("Redis prefixes"@, "schedule, execution, and aggregation prefixes must be distinct"@))
    } else {
        None
    }
}

/// What is wrong with the names that Redis knows.
pub open spec fn redis_names_problem(c: AppConfig) -> Option<Problem> {
    first(
        blank_problem("PULSE_REDIS_LEADER_KEY"@, c.redis_leader_key@),
        first(
            blank_problem("PULSE_REDIS_SCHEDULE_PREFIX"@, c.redis_schedule_prefix@),
            first(
                hash_tags_problem(c),
                first(
                    blank_problem("PULSE_REDIS_IDEMPOTENCY_PREFIX"@, c.redis_idempotency_prefix@),
                    first(
                        blank_problem(
                            "PULSE_REDIS_AGGREGATION_PREFIX"@,
                            c.redis_aggregation_prefix@,
                        ),
                        first(
                            distinct_prefixes_problem(c),
                            first(
                                blank_problem("PULSE_NODE_ID"@, c.node_id@),
                                match redis_url_error(c.redis_url@) {
                                    Some(m) => Some(
                                        ("PULSE_REDIS_URL"@, "invalid Redis URL: "@ + m),
                                    ),
                                    None => None,
                                },
                            ),
                        ),
                    ),
                ),
            ),
        ),
    )
}

fn validate_hash_tags(c: &AppConfig) -> (r: Result<(), ConfigError>)
    ensures
        reports(r, hash_tags_problem(*c)),
{
    let leader = match redis_hash_tag(&c.redis_leader_key) {
        Some(tag) => tag,
        None => {
            return Err(
                ConfigError::invalid(
                    "PULSE_REDIS_LEADER_KEY",
                    "must contain a non-empty Redis Cluster hash tag such as '{coordination}'",
                ),
            );
        },
    };
    let schedule = match redis_hash_tag(&c.redis_schedule_prefix) {
        Some(tag) => tag,
        None => {
            return Err(
                ConfigError::invalid(
                    "PULSE_REDIS_SCHEDULE_PREFIX",
                    "must contain the same Redis Cluster hash tag as PULSE_REDIS_LEADER_KEY",
                ),
            );
        },
    };
    if !str_eq(&leader, &schedule) {
        return Err(
            ConfigError::invalid(
                "Redis coordination hash tag",
                "leader and schedule keys must share one Redis Cluster hash tag",
            ),
        );
    }
    Ok(())
}

fn validate_redis_names(c: &AppConfig) -> (r: Result<(), ConfigError>)
    ensures
        reports(r, redis_names_problem(*c)),
{
    validate_non_empty("PULSE_REDIS_LEADER_KEY", &c.redis_leader_key)?;
    validate_non_empty("PULSE_REDIS_SCHEDULE_PREFIX", &c.redis_schedule_prefix)?;
    validate_hash_tags(c)?;
    validate_non_empty("PULSE_REDIS_IDEMPOTENCY_PREFIX", &c.redis_idempotency_prefix)?;
    validate_non_empty("PULSE_REDIS_AGGREGATION_PREFIX", &c.redis_aggregation_prefix)?;
    if str_eq(&c.redis_schedule_prefix, &c.redis_idempotency_prefix) || str_eq(
        &c.redis_schedule_prefix,
        &c.redis_aggregation_prefix,
    ) || str_eq(&c.redis_idempotency_prefix, &c.redis_aggregation_prefix) {
        return Err(
            ConfigError::invalid(
                "Redis prefixes",
                "schedule, execution, and aggregation prefixes must be distinct",
            ),
        );
    }
    validate_non_empty("PULSE_NODE_ID", &c.node_id)?;
    match check_redis_url(&c.redis_url) {
        Ok(_) => Ok(()),
        Err(m) => Err(
            ConfigError::invalid("PULSE_REDIS_URL", &concat2("invalid Redis URL: ", &m)),
        ),
    }
}

/// Whether publications are acknowledged by all replicas.
pub open spec fn acks_all(acks: Seq<char>) -> bool {
    acks == "all"@ || acks == "-1"@
}

/// What is wrong with the times of the Kafka client.
pub open spec fn kafka_times_problem(c: AppConfig) -> Option<Problem> {
    first(
        span_problem(
            "PULSE_KAFKA_MAX_POLL_INTERVAL_MS"@,
            c.kafka_max_poll_interval,
            MAX_KAFKA_POLL_INTERVAL_MS as nat,
        ),
        first(
            span_problem(
                "PULSE_KAFKA_SESSION_TIMEOUT_MS"@,
                c.kafka_session_timeout,
                MAX_KAFKA_SESSION_TIMEOUT_MS as nat,
            ),
            if nanos(c.kafka_session_timeout) >= nanos(c.kafka_max_poll_interval) {
                Some(
                    (
                        "PULSE_KAFKA_SESSION_TIMEOUT_MS"@,
                        "must be less than PULSE_KAFKA_MAX_POLL_INTERVAL_MS"@,
                    ),
                )
            } else if nanos(c.kafka_message_timeout) != nanos(c.kafka_delivery_timeout) {
                Some(
                    (
                        "PULSE_KAFKA_MESSAGE_TIMEOUT_MS"@,
                        "must equal PULSE_KAFKA_DELIVERY_TIMEOUT_MS because librdkafka treats them as aliases"@,
                    ),
                )
            } else if nanos(c.kafka_request_timeout) > nanos(c.kafka_delivery_timeout) {
                Some(
                    (
                        "PULSE_KAFKA_REQUEST_TIMEOUT_MS"@,
                        "must not exceed the producer delivery timeout"@,
                    ),
                )
            } else if !acks_all(c.kafka_producer_acks@) {
                Some(
                    (
                        "PULSE_KAFKA_PRODUCER_ACKS"@,
                        "must be 'all' or '-1' so terminal publications are durably acknowledged"@,
                    ),
                )
            } else {
                None
            },
        ),
    )
}

fn validate_kafka_times(c: &AppConfig) -> (r: Result<(), ConfigError>)
    ensures
        reports(r, kafka_times_problem(*c)),
{
    validate_duration_upper_bound(
        "PULSE_KAFKA_MAX_POLL_INTERVAL_MS",
        c.kafka_max_poll_interval,
        MAX_KAFKA_POLL_INTERVAL_MS,
    )?;
    validate_duration_upper_bound(
        "PULSE_KAFKA_SESSION_TIMEOUT_MS",
        c.kafka_session_timeout,
        MAX_KAFKA_SESSION_TIMEOUT_MS,
    )?;
    if !shorter(c.kafka_session_timeout, c.kafka_max_poll_interval) {
        return Err(
            ConfigError::invalid(
                "PULSE_KAFKA_SESSION_TIMEOUT_MS",
                "must be less than PULSE_KAFKA_MAX_POLL_INTERVAL_MS",
            ),
        );
    }
    if c.kafka_message_timeout.as_nanos() != c.kafka_delivery_timeout.as_nanos() {
        return Err(
            ConfigError::invalid(
                "PULSE_KAFKA_MESSAGE_TIMEOUT_MS",
                "must equal PULSE_KAFKA_DELIVERY_TIMEOUT_MS because librdkafka treats them as aliases",
            ),
        );
    }
    if shorter(c.kafka_delivery_timeout, c.kafka_request_timeout) {
        return Err(
            ConfigError::invalid(
                "PULSE_KAFKA_REQUEST_TIMEOUT_MS",
                "must not exceed the producer delivery timeout",
            ),
        );
    }
    if !str_eq(&c.kafka_producer_acks, "all") && !str_eq(&c.kafka_producer_acks, "-1") {
        return Err(
            ConfigError::invalid(
                "PULSE_KAFKA_PRODUCER_ACKS",
                "must be 'all' or '-1' so terminal publications are durably acknowledged",
            ),
        );
    }
    Ok(())
}

/// What is wrong with the sizes of queues and records.
pub open spec fn kafka_sizes_problem(c: AppConfig) -> Option<Problem> {
    first(
        range_problem(
            "PULSE_KAFKA_TOPIC_PARTITIONS"@,
            c.kafka_topic_partitions as int,
            1,
            MAX_TOPIC_PARTITIONS as int,
        ),
        first(
            range_problem(
                "PULSE_KAFKA_TOPIC_REPLICATION_FACTOR"@,
                c.kafka_topic_replication_factor as int,
                1,
                MAX_TOPIC_REPLICATION_FACTOR as int,
            ),
            first(
                capacity_problem(
                    "PULSE_KAFKA_PRODUCER_QUEUE_MESSAGES"@,
                    c.producer_queue_messages as nat,
                    MAX_QUEUE_CAPACITY as nat,
                ),
                first(
                    capacity_problem(
                        "PULSE_KAFKA_CONSUMER_QUEUE_KBYTES"@,
                        c.consumer_queue_kbytes as nat,
                        MAX_CONSUMER_QUEUE_KBYTES as nat,
                    ),
                    first(
                        capacity_problem(
                            "PULSE_KAFKA_PRODUCER_MESSAGE_MAX_BYTES"@,
                            c.kafka_producer_message_max_bytes as nat,
                            MAX_KAFKA_MESSAGE_BYTES as nat,
                        ),
                        first(
                            capacity_problem(
                                "PULSE_KAFKA_CONSUMER_PARTITION_FETCH_MAX_BYTES"@,
                                c.consumer_partition_fetch_max_bytes as nat,
                                MAX_KAFKA_MESSAGE_BYTES as nat,
                            ),
                            first(
                                capacity_problem(
                                    "PULSE_KAFKA_CONSUMER_FETCH_MAX_BYTES"@,
                                    c.consumer_fetch_max_bytes as nat,
                                    MAX_KAFKA_MESSAGE_BYTES as nat,
                                ),
                                first(
                                    capacity_problem(
                                        "PULSE_KAFKA_CONSUMER_RECORD_MAX_BYTES"@,
                                        c.consumer_record_max_bytes as nat,
                                        MAX_KAFKA_MESSAGE_BYTES as nat,
                                    ),
                                    record_sizes_problem(c),
                                ),
                            ),
                        ),
                    ),
                ),
            ),
        ),
    )
}

/// What is wrong between the record sizes of consumers and producers.
pub open spec fn record_sizes_problem(c: AppConfig) -> Option<Problem> {
    let bound = poison_bound((MAX_POISON_EVIDENCE_FIELD_BYTES * 2) as nat);
    if c.consumer_fetch_max_bytes < c.consumer_partition_fetch_max_bytes {
        Some(
            (
                "PULSE_KAFKA_CONSUMER_FETCH_MAX_BYTES"@,
                "must be greater than or equal to PULSE_KAFKA_CONSUMER_PARTITION_FETCH_MAX_BYTES"@,
            ),
        )
    } else if c.consumer_fetch_max_bytes < c.consumer_record_max_bytes {
        Some(
            (
                "PULSE_KAFKA_CONSUMER_RECORD_MAX_BYTES"@,
                "must be less than or equal to PULSE_KAFKA_CONSUMER_FETCH_MAX_BYTES"@,
            ),
        )
    } else if c.consumer_record_max_bytes < c.kafka_producer_message_max_bytes {
        Some(
            (
                "PULSE_KAFKA_CONSUMER_RECORD_MAX_BYTES"@,
                "must be greater than or equal to PULSE_KAFKA_PRODUCER_MESSAGE_MAX_BYTES so Pulse can consume every record it can publish"@,
            ),
        )
    } else if c.kafka_producer_message_max_bytes < bound {
        Some(
            (
                "PULSE_KAFKA_PRODUCER_MESSAGE_MAX_BYTES"@,
                "must be at least "@ + decimal(bound)
                    + " bytes to carry the bounded base64 poison evidence envelope"@,
            ),
        )
    } else {
        None
    }
}

fn validate_record_sizes(c: &AppConfig) -> (r: Result<(), ConfigError>)
    ensures
        reports(r, record_sizes_problem(*c)),
{
    if c.consumer_fetch_max_bytes < c.consumer_partition_fetch_max_bytes {
        return Err(
            ConfigError::invalid(
                "PULSE_KAFKA_CONSUMER_FETCH_MAX_BYTES",
                "must be greater than or equal to PULSE_KAFKA_CONSUMER_PARTITION_FETCH_MAX_BYTES",
            ),
        );
    }
    if c.consumer_fetch_max_bytes < c.consumer_record_max_bytes {
        return Err(
            ConfigError::invalid(
                "PULSE_KAFKA_CONSUMER_RECORD_MAX_BYTES",
                "must be less than or equal to PULSE_KAFKA_CONSUMER_FETCH_MAX_BYTES",
            ),
        );
    }
    if c.consumer_record_max_bytes < c.kafka_producer_message_max_bytes {
        return Err(
            ConfigError::invalid(
                "PULSE_KAFKA_CONSUMER_RECORD_MAX_BYTES",
                "must be greater than or equal to PULSE_KAFKA_PRODUCER_MESSAGE_MAX_BYTES so Pulse can consume every record it can publish",
            ),
        );
    }
    let bound: usize = match poison_record_size_bound(MAX_POISON_EVIDENCE_FIELD_BYTES * 2) {
        Some(bound) => bound,
        None => {
            return Err(
                ConfigError::invalid(
                    "PULSE_KAFKA_PRODUCER_MESSAGE_MAX_BYTES",
                    "cannot calculate a safe base64 poison-record size bound",
                ),
            );
        },
    };
    if c.kafka_producer_message_max_bytes < bound {
        return Err(
            ConfigError::invalid(
                "PULSE_KAFKA_PRODUCER_MESSAGE_MAX_BYTES",
                &concat3(
                    "must be at least ",
                    &decimal_usize(bound),
                    " bytes to carry the bounded base64 poison evidence envelope",
                ),
            ),
        );
    }
    Ok(())
}

fn validate_kafka_sizes(c: &AppConfig) -> (r: Result<(), ConfigError>)
    ensures
        reports(r, kafka_sizes_problem(*c)),
{
    validate_inclusive_i32(
        "PULSE_KAFKA_TOPIC_PARTITIONS",
        c.kafka_topic_partitions,
        1,
        MAX_TOPIC_PARTITIONS,
    )?;
    validate_inclusive_i32(
        "PULSE_KAFKA_TOPIC_REPLICATION_FACTOR",
        c.kafka_topic_replication_factor,
        1,
        MAX_TOPIC_REPLICATION_FACTOR,
    )?;
    validate_capacity(
        "PULSE_KAFKA_PRODUCER_QUEUE_MESSAGES",
        c.producer_queue_messages,
        MAX_QUEUE_CAPACITY,
    )?;
    validate_capacity(
        "PULSE_KAFKA_CONSUMER_QUEUE_KBYTES",
        c.consumer_queue_kbytes,
        MAX_CONSUMER_QUEUE_KBYTES,
    )?;
    validate_capacity(
        "PULSE_KAFKA_PRODUCER_MESSAGE_MAX_BYTES",
        c.kafka_producer_message_max_bytes,
        MAX_KAFKA_MESSAGE_BYTES,
    )?;
    validate_capacity(
        "PULSE_KAFKA_CONSUMER_PARTITION_FETCH_MAX_BYTES",
        c.consumer_partition_fetch_max_bytes,
        MAX_KAFKA_MESSAGE_BYTES,
    )?;
    validate_capacity(
        "PULSE_KAFKA_CONSUMER_FETCH_MAX_BYTES",
        c.consumer_fetch_max_bytes,
        MAX_KAFKA_MESSAGE_BYTES,
    )?;
    validate_capacity(
        "PULSE_KAFKA_CONSUMER_RECORD_MAX_BYTES",
        c.consumer_record_max_bytes,
        MAX_KAFKA_MESSAGE_BYTES,
    )?;
    validate_record_sizes(c)
}

/// What is wrong with the settings of the aggregation.
pub open spec fn aggregation_problem(c: AppConfig) -> Option<Problem> {
    first(
        capacity_problem(
            "PULSE_RETRY_QUEUE_CAPACITY"@,
            c.retry_queue_capacity as nat,
            MAX_QUEUE_CAPACITY as nat,
        ),
        first(
            capacity_problem(
                "PULSE_AGGREGATION_SCAN_BATCH"@,
                c.aggregation_scan_batch as nat,
                MAX_QUEUE_CAPACITY as nat,
            ),
            first(
                capacity_problem(
                    "PULSE_AGGREGATION_MAX_ACTIVE_RUNS"@,
                    c.aggregation_max_active_runs as nat,
                    MAX_QUEUE_CAPACITY as nat,
                ),
                first(
                    capacity_problem(
                        "PULSE_AGGREGATION_MAX_ERROR_KINDS"@,
                        c.aggregation_max_error_kinds as nat,
                        MAX_ERROR_KINDS as nat,
                    ),
                    aggregation_times_problem(c),
                ),
            ),
        ),
    )
}

/// What is wrong between the times of the aggregation.
pub open spec fn aggregation_times_problem(c: AppConfig) -> Option<Problem> {
    let discovery = seq![c.max_duration, c.aggregation_partial_timeout];
    if c.aggregation_scan_batch > c.aggregation_max_active_runs {
        Some(
            (
                "PULSE_AGGREGATION_SCAN_BATCH"@,
                "must not exceed PULSE_AGGREGATION_MAX_ACTIVE_RUNS"@,
            ),
        )
    } else if nanos(c.aggregation_retention) <= nanos(c.aggregation_partial_timeout) {
        Some(
            (
                "PULSE_AGGREGATION_RETENTION_MS"@,
                "must exceed PULSE_AGGREGATION_PARTIAL_TIMEOUT_MS so finalized summaries remain recoverable"@,
            ),
        )
    } else if sum_problem("PULSE_AGGREGATION_RETENTION_MS"@, discovery) is Some {
        sum_problem("PULSE_AGGREGATION_RETENTION_MS"@, discovery)
    } else if nanos(c.aggregation_retention) <= sum_nanos(discovery) {
        Some(
            (
                "PULSE_AGGREGATION_RETENTION_MS"@,
                "must exceed PULSE_MAX_DURATION_MS plus PULSE_AGGREGATION_PARTIAL_TIMEOUT_MS so a zero-result run remains discoverable"@,
            ),
        )
    } else if nanos(c.aggregation_scan_interval) > nanos(c.aggregation_partial_timeout) {
        Some(
            (
                "PULSE_AGGREGATION_SCAN_INTERVAL_MS"@,
                "must not exceed PULSE_AGGREGATION_PARTIAL_TIMEOUT_MS"@,
            ),
        )
    } else {
        None
    }
}

fn validate_aggregation(c: &AppConfig) -> (r: Result<(), ConfigError>)
    ensures
        reports(r, aggregation_problem(*c)),
{
    validate_capacity("PULSE_RETRY_QUEUE_CAPACITY", c.retry_queue_capacity, MAX_QUEUE_CAPACITY)?;
    validate_capacity("PULSE_AGGREGATION_SCAN_BATCH", c.aggregation_scan_batch, MAX_QUEUE_CAPACITY)?;
    validate_capacity(
        "PULSE_AGGREGATION_MAX_ACTIVE_RUNS",
        c.aggregation_max_active_runs,
        MAX_QUEUE_CAPACITY,
    )?;
    validate_capacity(
        "PULSE_AGGREGATION_MAX_ERROR_KINDS",
        c.aggregation_max_error_kinds,
        MAX_ERROR_KINDS,
    )?;
    if c.aggregation_scan_batch > c.aggregation_max_active_runs {
        return Err(
            ConfigError::invalid(
                "PULSE_AGGREGATION_SCAN_BATCH",
                "must not exceed PULSE_AGGREGATION_MAX_ACTIVE_RUNS",
            ),
        );
    }
    if !shorter(c.aggregation_partial_timeout, c.aggregation_retention) {
        return Err(
            ConfigError::invalid(
                "PULSE_AGGREGATION_RETENTION_MS",
                "must exceed PULSE_AGGREGATION_PARTIAL_TIMEOUT_MS so finalized summaries remain recoverable",
            ),
        );
    }
    let spans: Vec<Duration> = vec![c.max_duration, c.aggregation_partial_timeout];
    assert(spans@ =~= seq![c.max_duration, c.aggregation_partial_timeout]);
    let discovery = checked_duration_sum("PULSE_AGGREGATION_RETENTION_MS", &spans)?;
    if !shorter(discovery, c.aggregation_retention) {
        return Err(
            ConfigError::invalid(
                "PULSE_AGGREGATION_RETENTION_MS",
                "must exceed PULSE_MAX_DURATION_MS plus PULSE_AGGREGATION_PARTIAL_TIMEOUT_MS so a zero-result run remains discoverable",
            ),
        );
    }
    if shorter(c.aggregation_partial_timeout, c.aggregation_scan_interval) {
        return Err(
            ConfigError::invalid(
                "PULSE_AGGREGATION_SCAN_INTERVAL_MS",
                "must not exceed PULSE_AGGREGATION_PARTIAL_TIMEOUT_MS",
            ),
        );
    }
    Ok(())
}

/// What is wrong with the retries of a worker.
pub open spec fn retries_problem(c: AppConfig) -> Option<Problem> {
    if c.worker_max_retries > MAX_WORKER_RETRIES {
        Some(
            ("PULSE_WORKER_MAX_RETRIES"@, "must not exceed "@ + decimal(MAX_WORKER_RETRIES as nat)),
        )
    } else if nanos(c.worker_retry_base_delay) == 0 {
        Some(
            (
                "PULSE_WORKER_RETRY_BASE_DELAY_MS"@,
                "must be greater than zero to prevent a tight retry loop"@,
            ),
        )
    } else if nanos(c.worker_retry_max_delay) == 0 {
        Some(
            (
                "PULSE_WORKER_RETRY_MAX_DELAY_MS"@,
                "must be greater than zero to prevent a tight retry loop"@,
            ),
        )
    } else if nanos(c.worker_retry_base_delay) > nanos(c.worker_retry_max_delay) {
        Some(
            (
                "PULSE_WORKER_RETRY_BASE_DELAY_MS"@,
                "must not exceed PULSE_WORKER_RETRY_MAX_DELAY_MS"@,
            ),
        )
    } else if nanos(c.worker_retry_max_delay) >= nanos(c.kafka_max_poll_interval) {
        Some(
            (
                "PULSE_WORKER_RETRY_MAX_DELAY_MS"@,
                "must be less than PULSE_KAFKA_MAX_POLL_INTERVAL_MS"@,
            ),
        )
    } else {
        None
    }
}

fn validate_retries(c: &AppConfig) -> (r: Result<(), ConfigError>)
    ensures
        reports(r, retries_problem(*c)),
{
    if c.worker_max_retries > MAX_WORKER_RETRIES {
        return Err(
            ConfigError::invalid(
                "PULSE_WORKER_MAX_RETRIES",
                &concat2("must not exceed ", &decimal_u64(MAX_WORKER_RETRIES as u64)),
            ),
        );
    }
    if is_zero(c.worker_retry_base_delay) {
        return Err(
            ConfigError::invalid(
                "PULSE_WORKER_RETRY_BASE_DELAY_MS",
                "must be greater than zero to prevent a tight retry loop",
            ),
        );
    }
    if is_zero(c.worker_retry_max_delay) {
        return Err(
            ConfigError::invalid(
                "PULSE_WORKER_RETRY_MAX_DELAY_MS",
                "must be greater than zero to prevent a tight retry loop",
            ),
        );
    }
    if shorter(c.worker_retry_max_delay, c.worker_retry_base_delay) {
        return Err(
            ConfigError::invalid(
                "PULSE_WORKER_RETRY_BASE_DELAY_MS",
                "must not exceed PULSE_WORKER_RETRY_MAX_DELAY_MS",
            ),
        );
    }
    if !shorter(c.worker_retry_max_delay, c.kafka_max_poll_interval) {
        return Err(
            ConfigError::invalid(
                "PULSE_WORKER_RETRY_MAX_DELAY_MS",
                "must be less than PULSE_KAFKA_MAX_POLL_INTERVAL_MS",
            ),
        );
    }
    Ok(())
}

/// The nanoseconds that one exchange with Redis may take.
pub open spec fn redis_timeout_nanos(c: AppConfig) -> nat {
    least(
        (REDIS_OPERATION_TIMEOUT_CEILING_MS * 1_000_000) as nat,
        nanos(c.kafka_request_timeout),
    )
}

/// The nanoseconds that a lease must last at least: three renewals, and one renewal
/// with the answer of Redis and a millisecond.
pub open spec fn lease_budget(renew: Duration, redis: nat) -> nat {
    if nanos(renew) * 3 <= redis + nanos(renew) + 1_000_000 {
        redis + nanos(renew) + 1_000_000
    } else {
        nanos(renew) * 3
    }
}

/// What is wrong with the time between renewals of a lease.
pub open spec fn renewal_problem(name: Seq<char>, renew: Duration, redis: nat) -> Option<Problem> {
    if nanos(renew) * 3 > max_nanos() {
        Some((name, "three renewal intervals overflow Duration"@))
    } else if redis + nanos(renew) + 1_000_000 > max_nanos() {
        Some((name, "Redis response safety budget overflowed Duration"@))
    } else {
        None
    }
}

/// The message of a lease that is too short.
pub open spec fn lease_message(budget: nat) -> Seq<char> {
    "must cover three renewal intervals and the Redis operation response budget (at least "@
        + decimal(budget / 1_000_000) + " ms)"@
}

/// What is wrong with the leases of leadership and executions.
pub open spec fn leases_problem(c: AppConfig) -> Option<Problem> {
    let redis = redis_timeout_nanos(c);
    let lock = (c.leader_lock_ttl_ms * 1_000_000) as nat;
    let leader = lease_budget(c.leader_renew_interval, redis);
    let execution = lease_budget(c.execution_lease_renew_interval, redis);
    first(
        renewal_problem("PULSE_LEADER_RENEW_INTERVAL_MS"@, c.leader_renew_interval, redis),
        if lock < leader {
            Some(("PULSE_LEADER_LOCK_TTL_MS"@, lease_message(leader)))
        } else if nanos(c.scheduler_tick_interval) >= lock {
            Some(
                (
                    "PULSE_SCHEDULER_TICK_INTERVAL_MS"@,
                    "must be less than the leader lock TTL"@,
                ),
            )
        } else if renewal_problem(
            "PULSE_EXECUTION_LEASE_RENEW_INTERVAL_MS"@,
            c.execution_lease_renew_interval,
            redis,
        ) is Some {
            renewal_problem(
                "PULSE_EXECUTION_LEASE_RENEW_INTERVAL_MS"@,
                c.execution_lease_renew_interval,
                redis,
            )
        } else if nanos(c.execution_lease_ttl) < execution {
            Some(("PULSE_EXECUTION_LEASE_TTL_MS"@, lease_message(execution)))
        } else if nanos(c.execution_terminal_retention) < nanos(c.kafka_max_poll_interval) {
            Some(
                (
                    "PULSE_EXECUTION_TERMINAL_RETENTION_MS"@,
                    "must be at least the Kafka max poll interval so redelivery can verify terminal state"@,
                ),
            )
        } else {
            None
        },
    )
}

/// The span that a lease must last at least.
fn required_lease(name: &'static str, renew: Duration, redis: Duration) -> (r: Result<
    Duration,
    ConfigError,
>)
    ensures
        reports(r, renewal_problem(name@, renew, nanos(redis))),
        r matches Ok(d) ==> nanos(d) == lease_budget(renew, nanos(redis)),
{
    let three = match renew.checked_mul(3) {
        Some(d) => d,
        None => {
            return Err(ConfigError::invalid(name, "three renewal intervals overflow Duration"));
        },
    };
    let answer = match redis.checked_add(renew) {
        Some(d) => d.checked_add(Duration::from_millis(1)),
        None => None,
    };
    match answer {
        Some(d) => Ok(longest(three, d)),
        None => Err(
            ConfigError::invalid(name, "Redis response safety budget overflowed Duration"),
        ),
    }
}

fn short_lease(name: &'static str, budget: Duration) -> (e: ConfigError)
    ensures
        e.is_invalid((name@, lease_message(nanos(budget)))),
{
    ConfigError::invalid(
        name,
        &concat3(
            "must cover three renewal intervals and the Redis operation response budget (at least ",
            &decimal_u128(budget.as_millis()),
            " ms)",
        ),
    )
}

fn validate_leases(c: &AppConfig) -> (r: Result<(), ConfigError>)
    ensures
        reports(r, leases_problem(*c)),
{
    let redis = c.redis_operation_timeout();
    let leader = required_lease("PULSE_LEADER_RENEW_INTERVAL_MS", c.leader_renew_interval, redis)?;
    let lock = Duration::from_millis(c.leader_lock_ttl_ms);
    if shorter(lock, leader) {
        return Err(short_lease("PULSE_LEADER_LOCK_TTL_MS", leader));
    }
    if !shorter(c.scheduler_tick_interval, lock) {
        return Err(
            ConfigError::invalid(
                "PULSE_SCHEDULER_TICK_INTERVAL_MS",
                "must be less than the leader lock TTL",
            ),
        );
    }
    let execution = required_lease(
        "PULSE_EXECUTION_LEASE_RENEW_INTERVAL_MS",
        c.execution_lease_renew_interval,
        redis,
    )?;
    if shorter(c.execution_lease_ttl, execution) {
        return Err(short_lease("PULSE_EXECUTION_LEASE_TTL_MS", execution));
    }
    if shorter(c.execution_terminal_retention, c.kafka_max_poll_interval) {
        return Err(
            ConfigError::invalid(
                "PULSE_EXECUTION_TERMINAL_RETENTION_MS",
                "must be at least the Kafka max poll interval so redelivery can verify terminal state",
            ),
        );
    }
    Ok(())
}

/// What is wrong with the bounds on the load and the time for a request.
pub open spec fn load_problem(c: AppConfig) -> Option<Problem> {
    first(
        span_problem("PULSE_MAX_DURATION_MS"@, c.max_duration, MAX_CONFIGURED_DURATION_MS as nat),
        if !c.max_scenarios_per_sec.is_positive() {
            Some(("PULSE_MAX_SCENARIOS_PER_SEC"@, "must be finite and greater than zero"@))
        } else if c.max_scenarios_per_sec.above((Rate { bits: MAX_SAFETY_RATE_BITS })) {
            Some(("PULSE_MAX_SCENARIOS_PER_SEC"@, "must not exceed 1000000000"@))
        } else if c.max_concurrency == 0 || c.max_concurrency > MAX_SAFETY_CONCURRENCY {
            Some(
                (
                    "PULSE_MAX_CONCURRENCY"@,
                    "must be between 1 and "@ + decimal(MAX_SAFETY_CONCURRENCY as nat),
                ),
            )
        } else if c.startup_burst > c.max_concurrency {
            Some(("PULSE_STARTUP_BURST"@, "must not exceed PULSE_MAX_CONCURRENCY"@))
        } else if nanos(c.grpc_request_timeout) > nanos(c.grpc_scenario_timeout) {
            Some(
                (
                    "PULSE_GRPC_REQUEST_TIMEOUT_MS"@,
                    "must not exceed PULSE_GRPC_SCENARIO_TIMEOUT_MS"@,
                ),
            )
        } else {
            None
        },
    )
}

fn validate_load(c: &AppConfig) -> (r: Result<(), ConfigError>)
    ensures
        reports(r, load_problem(*c)),
{
    validate_duration_upper_bound(
        "PULSE_MAX_DURATION_MS",
        c.max_duration,
        MAX_CONFIGURED_DURATION_MS,
    )?;
    if !c.max_scenarios_per_sec.positive() {
        return Err(
            ConfigError::invalid(
                "PULSE_MAX_SCENARIOS_PER_SEC",
                "must be finite and greater than zero",
            ),
        );
    }
    if c.max_scenarios_per_sec.exceeds(Rate { bits: MAX_SAFETY_RATE_BITS }) {
        return Err(
            ConfigError::invalid("PULSE_MAX_SCENARIOS_PER_SEC", "must not exceed 1000000000"),
        );
    }
    if c.max_concurrency == 0 || c.max_concurrency > MAX_SAFETY_CONCURRENCY {
        return Err(
            ConfigError::invalid(
                "PULSE_MAX_CONCURRENCY",
                &concat2("must be between 1 and ", &decimal_usize(MAX_SAFETY_CONCURRENCY)),
            ),
        );
    }
    if c.startup_burst > c.max_concurrency {
        return Err(
            ConfigError::invalid("PULSE_STARTUP_BURST", "must not exceed PULSE_MAX_CONCURRENCY"),
        );
    }
    if shorter(c.grpc_scenario_timeout, c.grpc_request_timeout) {
        return Err(
            ConfigError::invalid(
                "PULSE_GRPC_REQUEST_TIMEOUT_MS",
                "must not exceed PULSE_GRPC_SCENARIO_TIMEOUT_MS",
            ),
        );
    }
    Ok(())
}

/// What is wrong with the times for starting up and shutting down.
pub open spec fn lifecycle_problem(c: AppConfig) -> Option<Problem> {
    let startup = seq![c.grpc_connect_timeout, c.kafka_request_timeout];
    let shutdown = seq![c.kafka_delivery_timeout, c.kafka_request_timeout];
    if sum_problem("PULSE_STARTUP_DEADLINE_MS"@, startup) is Some {
        sum_problem("PULSE_STARTUP_DEADLINE_MS"@, startup)
    } else if nanos(c.startup_deadline) < sum_nanos(startup) {
        Some(
            (
                "PULSE_STARTUP_DEADLINE_MS"@,
                "must cover the gRPC connect and Kafka request timeout budgets"@,
            ),
        )
    } else if sum_problem("PULSE_SHUTDOWN_DRAIN_TIMEOUT_MS"@, shutdown) is Some {
        sum_problem("PULSE_SHUTDOWN_DRAIN_TIMEOUT_MS"@, shutdown)
    } else if nanos(c.shutdown_drain_timeout) < sum_nanos(shutdown) {
        Some(
            (
                "PULSE_SHUTDOWN_DRAIN_TIMEOUT_MS"@,
                "must cover Kafka delivery and request timeout budgets"@,
            ),
        )
    } else {
        None
    }
}

fn validate_lifecycle(c: &AppConfig) -> (r: Result<(), ConfigError>)
    ensures
        reports(r, lifecycle_problem(*c)),
{
    let startup: Vec<Duration> = vec![c.grpc_connect_timeout, c.kafka_request_timeout];
    assert(startup@ =~= seq![c.grpc_connect_timeout, c.kafka_request_timeout]);
    let budget = checked_duration_sum("PULSE_STARTUP_DEADLINE_MS", &startup)?;
    if shorter(c.startup_deadline, budget) {
        return Err(
            ConfigError::invalid(
                "PULSE_STARTUP_DEADLINE_MS",
                "must cover the gRPC connect and Kafka request timeout budgets",
            ),
        );
    }
    let shutdown: Vec<Duration> = vec![c.kafka_delivery_timeout, c.kafka_request_timeout];
    assert(shutdown@ =~= seq![c.kafka_delivery_timeout, c.kafka_request_timeout]);
    let budget = checked_duration_sum("PULSE_SHUTDOWN_DRAIN_TIMEOUT_MS", &shutdown)?;
    if shorter(c.shutdown_drain_timeout, budget) {
        return Err(
            ConfigError::invalid(
                "PULSE_SHUTDOWN_DRAIN_TIMEOUT_MS",
                "must cover Kafka delivery and request timeout budgets",
            ),
        );
    }
    Ok(())
}

/// How often a worker tries a publication at most.
pub open spec fn local_attempts(c: AppConfig) -> nat {
    c.worker_max_retries as nat + 1
}

/// The delays before the retries of a worker together, in nanoseconds.
pub open spec fn local_backoff(c: AppConfig) -> nat {
    backoff_sum(
        nanos(c.worker_retry_base_delay),
        nanos(c.worker_retry_max_delay),
        c.worker_max_retries as nat,
    )
}

/// The nanoseconds of a job with everything that settles it.
pub open spec fn settlement_budget(c: AppConfig) -> nat {
    nanos(c.max_duration) + nanos(c.grpc_scenario_timeout) + nanos(c.worker_retry_max_delay)
        + nanos(c.kafka_delivery_timeout) * (local_attempts(c) * 2) + nanos(c.kafka_request_timeout)
        * local_attempts(c) + local_backoff(c) * 3
}

/// What is wrong with the time between two polls.
pub open spec fn poll_problem(c: AppConfig) -> Option<Problem> {
    let name = "PULSE_KAFKA_MAX_POLL_INTERVAL_MS"@;
    let margin = (KAFKA_POLL_SAFETY_MARGIN_MS * 1_000_000) as nat;
    if nanos(c.kafka_delivery_timeout) * (local_attempts(c) * 2) > max_nanos() {
        Some((name, "bounded result/retry delivery budget overflowed Duration"@))
    } else if nanos(c.kafka_request_timeout) * local_attempts(c) > max_nanos() {
        Some((name, "bounded completion request budget overflowed Duration"@))
    } else if local_backoff(c) > max_nanos() {
        Some((name, "bounded retry backoff sum overflowed Duration"@))
    } else if local_backoff(c) * 3 > max_nanos() {
        Some((name, "bounded publication/completion backoff budget overflowed Duration"@))
    } else if settlement_budget(c) > max_nanos() {
        Some((name, "duration budget overflowed"@))
    } else if settlement_budget(c) + margin > max_nanos() {
        Some((name, "bounded job, settlement, and poll safety margin overflowed Duration"@))
    } else if nanos(c.kafka_max_poll_interval) <= settlement_budget(c) + margin {
        Some(
            (
                name,
                "must exceed the bounded job/settlement budget plus the "@ + decimal(
                    KAFKA_POLL_SAFETY_MARGIN_MS as nat,
                ) + " ms poll safety margin (more than "@ + decimal(
                    (settlement_budget(c) + margin) / 1_000_000,
                ) + " ms total)"@,
            ),
        )
    } else {
        None
    }
}

fn validate_poll(c: &AppConfig) -> (r: Result<(), ConfigError>)
    requires
        c.worker_max_retries <= MAX_WORKER_RETRIES,
    ensures
        reports(r, poll_problem(*c)),
{
    let name = "PULSE_KAFKA_MAX_POLL_INTERVAL_MS";
    let attempts: u32 = c.worker_max_retries + 1;
    let delivery = match c.kafka_delivery_timeout.checked_mul(attempts * 2) {
        Some(d) => d,
        None => {
            return Err(
                ConfigError::invalid(
                    name,
                    "bounded result/retry delivery budget overflowed Duration",
                ),
            );
        },
    };
    let completion = match c.kafka_request_timeout.checked_mul(attempts) {
        Some(d) => d,
        None => {
            return Err(
                ConfigError::invalid(name, "bounded completion request budget overflowed Duration"),
            );
        },
    };
    let backoff = retry_backoff_upper_bound(
        c.worker_retry_base_delay,
        c.worker_retry_max_delay,
        c.worker_max_retries,
    )?;
    let backoffs = match backoff.checked_mul(3) {
        Some(d) => d,
        None => {
            return Err(
                ConfigError::invalid(
                    name,
                    "bounded publication/completion backoff budget overflowed Duration",
                ),
            );
        },
    };
    let spans: Vec<Duration> = vec![
        c.max_duration,
        c.grpc_scenario_timeout,
        c.worker_retry_max_delay,
        delivery,
        completion,
        backoffs,
    ];
    proof {
        let s = seq![
            c.max_duration,
            c.grpc_scenario_timeout,
            c.worker_retry_max_delay,
            delivery,
            completion,
            backoffs,
        ];
        assert(spans@ =~= s);
        lemma_sum_six(s);
        assert(sum_nanos(spans@) == settlement_budget(*c));
    }
    let settlement = checked_duration_sum(name, &spans)?;
    let margin = Duration::from_millis(KAFKA_POLL_SAFETY_MARGIN_MS);
    let required = match settlement.checked_add(margin) {
        Some(d) => d,
        None => {
            return Err(
                ConfigError::invalid(
                    name,
                    "bounded job, settlement, and poll safety margin overflowed Duration",
                ),
            );
        },
    };
    if !shorter(required, c.kafka_max_poll_interval) {
        return Err(
            ConfigError::invalid(
                name,
                &concat5(
                    "must exceed the bounded job/settlement budget plus the ",
                    &decimal_u64(KAFKA_POLL_SAFETY_MARGIN_MS),
                    " ms poll safety margin (more than ",
                    &decimal_u128(required.as_millis()),
                    " ms total)",
                ),
            ),
        );
    }
    Ok(())
}

proof fn lemma_sum_six(s: Seq<Duration>)
    requires
        s.len() == 6,
    ensures
        sum_nanos(s) == nanos(s[0]) + nanos(s[1]) + nanos(s[2]) + nanos(s[3]) + nanos(s[4]) + nanos(
            s[5],
        ),
{
    reveal_with_fuel(sum_nanos, 7);
}

/// What is wrong with the first bad host of the allowlist.
pub open spec fn allowlist_problem(hosts: Seq<Seq<char>>, addresses: Seq<Seq<char>>) -> Option<
    Problem,
>
    decreases hosts.len(),
{
    if hosts.len() == 0 {
        None
    } else {
        first(
            allowlist_problem(hosts.drop_last(), addresses),
            host_problem(hosts.last(), addresses),
        )
    }
}

/// Whether a host may be targeted.
pub open spec fn is_allowed(c: AppConfig, host: Seq<char>) -> bool {
    ||| c.acknowledge_non_local_targets
    ||| exists|i: int|
        0 <= i < c.target_allowlist@.len() && ascii_lower(
            (#[trigger] c.target_allowlist@[i])@,
        ) == ascii_lower(host)
}

/// What is wrong with a target.
pub open spec fn target_problem(c: AppConfig, endpoint: Seq<char>) -> Option<Problem> {
    match host_of("target endpoint"@, parsed_endpoint(endpoint)) {
        Err(p) => Some(p),
        Ok(host) => if is_allowed(c, host) {
            None
        } else {
            Some(
                (
                    "target endpoint"@,
                    "host '"@ + host
                        + "' is not allowlisted; add it to PULSE_TARGET_ALLOWLIST or explicitly set PULSE_ACKNOWLEDGE_NON_LOCAL_TARGETS=true"@,
                ),
            )
        },
    }
}

/// What is wrong with the targets and the address for metrics.
pub open spec fn addresses_problem(c: AppConfig, facts: AddressFacts) -> Option<Problem> {
    if c.target_allowlist@.len() == 0 {
        Some(("PULSE_TARGET_ALLOWLIST"@, "must contain at least one host"@))
    } else {
        first(
            allowlist_problem(views(c.target_allowlist@), views(facts.ip_addresses@)),
            first(
                match socket_error(facts.bad_sockets@, c.metrics_bind@) {
                    Some(m) => Some(
                        ("PULSE_METRICS_BIND"@, "must be a numeric socket address: "@ + m),
                    ),
                    None => None,
                },
                target_problem(c, c.pulse_endpoint@),
            ),
        )
    }
}

proof fn lemma_allowlist_stays(hosts: Seq<Seq<char>>, addresses: Seq<Seq<char>>, k: int)
    requires
        0 <= k <= hosts.len(),
        allowlist_problem(hosts.take(k), addresses) is Some,
    ensures
        allowlist_problem(hosts, addresses) == allowlist_problem(hosts.take(k), addresses),
    decreases hosts.len(),
{
    if k == hosts.len() {
        assert(hosts.take(k) == hosts);
    } else {
        assert(hosts.drop_last().take(k) == hosts.take(k));
        lemma_allowlist_stays(hosts.drop_last(), addresses, k);
    }
}

fn validate_addresses(c: &AppConfig, facts: &AddressFacts) -> (r: Result<(), ConfigError>)
    ensures
        reports(r, addresses_problem(*c, *facts)),
{
    if c.target_allowlist.len() == 0 {
        return Err(
            ConfigError::invalid("PULSE_TARGET_ALLOWLIST", "must contain at least one host"),
        );
    }
    let ghost all = views(c.target_allowlist@);
    let ghost addresses = views(facts.ip_addresses@);
    let mut i: usize = 0;
    assert(all.take(0) == Seq::<Seq<char>>::empty());
    while i < c.target_allowlist.len()
        invariant
            i <= c.target_allowlist@.len(),
            c.target_allowlist@.len() > 0,
            all == views(c.target_allowlist@),
            addresses == views(facts.ip_addresses@),
            allowlist_problem(all.take(i as int), addresses) is None,
        decreases c.target_allowlist@.len() - i,
    {
        proof {
            assert(all.take(i + 1).drop_last() == all.take(i as int));
            assert(all.take(i + 1).last() == c.target_allowlist@[i as int]@);
            if allowlist_problem(all.take(i + 1), addresses) is Some {
                lemma_allowlist_stays(all, addresses, i + 1);
            }
        }
        validate_allowlist_host(&c.target_allowlist[i], &facts.ip_addresses)?;
        i += 1;
    }
    assert(all.take(i as int) == all);
    match find_socket_error(&facts.bad_sockets, &c.metrics_bind) {
        Some(m) => {
            return Err(
                ConfigError::invalid(
                    "PULSE_METRICS_BIND",
                    &concat2("must be a numeric socket address: ", m),
                ),
            );
        },
        None => {},
    }
    c.validate_target_endpoint(&c.pulse_endpoint)
}

/// The first rule that the settings break.
pub open spec fn config_problem(c: AppConfig, facts: AddressFacts) -> Option<Problem> {
    first(
        kafka_names_problem(c),
        first(
            redis_names_problem(c),
            first(
                kafka_times_problem(c),
                first(
                    kafka_sizes_problem(c),
                    first(
                        aggregation_problem(c),
                        first(
                            retries_problem(c),
                            first(
                                leases_problem(c),
                                first(
                                    load_problem(c),
                                    first(
                                        lifecycle_problem(c),
                                        first(poll_problem(c), addresses_problem(c, facts)),
                                    ),
                                ),
                            ),
                        ),
                    ),
                ),
            ),
        ),
    )
}

impl AppConfig {
    /// How long one exchange with Redis may take.
    pub fn redis_operation_timeout(&self) -> (d: Duration)
        ensures
            nanos(d) == redis_timeout_nanos(*self),
    {
        shortest(
            Duration::from_millis(REDIS_OPERATION_TIMEOUT_CEILING_MS),
            self.kafka_request_timeout,
        )
    }

    /// How long a record or a maintenance cycle may keep the node from polling
    /// Kafka: the poll interval without a margin for the next poll.
    pub fn kafka_safe_processing_interval(&self) -> (d: Duration)
        ensures
            nanos(d) == (if nanos(self.kafka_max_poll_interval) < KAFKA_POLL_SAFETY_MARGIN_MS
                * 1_000_000 {
                0
            } else {
                (nanos(self.kafka_max_poll_interval) - KAFKA_POLL_SAFETY_MARGIN_MS * 1_000_000)
                    as nat
            }),
    {
        self.kafka_max_poll_interval.saturating_sub(
            Duration::from_millis(KAFKA_POLL_SAFETY_MARGIN_MS),
        )
    }

    /// Checks the settings. `facts` tells which texts are numeric addresses.
    pub fn validate(&self, facts: &AddressFacts) -> (r: Result<(), ConfigError>)
        ensures
            reports(r, config_problem(*self, *facts)),
    {
        validate_kafka_names(self)?;
        validate_redis_names(self)?;
        validate_kafka_times(self)?;
        validate_kafka_sizes(self)?;
        validate_aggregation(self)?;
        validate_retries(self)?;
        validate_leases(self)?;
        validate_load(self)?;
        validate_lifecycle(self)?;
        validate_poll(self)?;
        validate_addresses(self, facts)
    }

    /// Checks that an endpoint may be targeted.
    pub fn validate_target_endpoint(&self, endpoint: &str) -> (r: Result<(), ConfigError>)
        ensures
            reports(r, target_problem(*self, endpoint@)),
    {
        let host = endpoint_host("target endpoint", endpoint)?;
        self.validate_target_host(&host)
    }

    /// Checks that a host may be targeted.
    pub fn validate_target_host(&self, host: &str) -> (r: Result<(), ConfigError>)
        ensures
            match r {
                Ok(_) => is_allowed(*self, host@),
                Err(e) => !is_allowed(*self, host@) && e.is_invalid(
                    (
                        "target endpoint"@,
                        "host '"@ + host@
                            + "' is not allowlisted; add it to PULSE_TARGET_ALLOWLIST or explicitly set PULSE_ACKNOWLEDGE_NON_LOCAL_TARGETS=true"@,
                    ),
                ),
            },
    {
        if self.acknowledge_non_local_targets {
            return Ok(());
        }
        let mut i: usize = 0;
        while i < self.target_allowlist.len()
            invariant
                i <= self.target_allowlist@.len(),
                !self.acknowledge_non_local_targets,
                forall|j: int|
                    0 <= j < i ==> ascii_lower((#[trigger] self.target_allowlist@[j])@)
                        != ascii_lower(host@),
            decreases self.target_allowlist@.len() - i,
        {
            if eq_ignoring_ascii_case(&self.target_allowlist[i], host) {
                return Ok(());
            }
            i += 1;
        }
        Err(
            ConfigError::invalid(
                "target endpoint",
                &concat3(
                    "host '",
                    host,
                    "' is not allowlisted; add it to PULSE_TARGET_ALLOWLIST or explicitly set PULSE_ACKNOWLEDGE_NON_LOCAL_TARGETS=true",
                ),
            ),
        )
    }
}

/// Settings that keep the rules leave the node time between two polls: a job with
/// everything that settles it fits into the safe processing interval.
pub proof fn lemma_settlement_fits_the_poll_interval(c: AppConfig, facts: AddressFacts)
    requires
        config_problem(c, facts) is None,
    ensures
        settlement_budget(c) < nanos(c.kafka_max_poll_interval) - KAFKA_POLL_SAFETY_MARGIN_MS
            * 1_000_000,
        nanos(c.worker_retry_max_delay) < nanos(c.kafka_max_poll_interval),
        nanos(c.kafka_session_timeout) < nanos(c.kafka_max_poll_interval),
{
}

/// Settings that keep the rules make leases outlast two missed renewals and an
/// answer of Redis that comes at the last moment.
pub proof fn lemma_leases_outlast_renewals(c: AppConfig, facts: AddressFacts)
    requires
        config_problem(c, facts) is None,
    ensures
        c.leader_lock_ttl_ms * 1_000_000 >= nanos(c.leader_renew_interval) * 3,
        c.leader_lock_ttl_ms * 1_000_000 > nanos(c.leader_renew_interval) + redis_timeout_nanos(c),
        nanos(c.execution_lease_ttl) >= nanos(c.execution_lease_renew_interval) * 3,
        nanos(c.execution_lease_ttl) > nanos(c.execution_lease_renew_interval)
            + redis_timeout_nanos(c),
        nanos(c.execution_terminal_retention) >= nanos(c.kafka_max_poll_interval),
{
}

/// Settings that keep the rules let the node consume every record that it can
/// publish, poison records with full evidence among them.
pub proof fn lemma_published_records_are_consumable(c: AppConfig, facts: AddressFacts)
    requires
        config_problem(c, facts) is None,
    ensures
        poison_bound((MAX_POISON_EVIDENCE_FIELD_BYTES * 2) as nat)
            <= c.kafka_producer_message_max_bytes <= c.consumer_record_max_bytes
            <= c.consumer_fetch_max_bytes,
        acks_all(c.kafka_producer_acks@),
{
}

/// Settings that keep the rules keep a run known longer than its load and the
/// timeout for missing slices last.
pub proof fn lemma_runs_stay_discoverable(c: AppConfig, facts: AddressFacts)
    requires
        config_problem(c, facts) is None,
    ensures
        nanos(c.aggregation_retention) > nanos(c.max_duration) + nanos(
            c.aggregation_partial_timeout,
        ),
        nanos(c.aggregation_scan_interval) <= nanos(c.aggregation_partial_timeout),
{
    let discovery = seq![c.max_duration, c.aggregation_partial_timeout];
    reveal_with_fuel(sum_nanos, 3);
    assert(discovery.drop_last().drop_last() =~= Seq::<Duration>::empty());
    assert(discovery.drop_last().last() == c.max_duration);
}

/// Settings that keep the rules keep leader and schedule keys in one slot of a Redis
/// Cluster.
pub proof fn lemma_coordination_keys_share_a_slot(c: AppConfig, facts: AddressFacts)
    requires
        config_problem(c, facts) is None,
    ensures
        hash_tag(c.redis_leader_key@) is Some,
        hash_tag(c.redis_leader_key@) == hash_tag(c.redis_schedule_prefix@),
{
}

/// An endpoint that may be targeted is reached over plaintext HTTP, has neither a path
/// nor a query, and its host is on the list, unless the operator acknowledged all
/// hosts.
pub proof fn lemma_targets_are_plain_and_listed(c: AppConfig, endpoint: Seq<char>)
    requires
        target_problem(c, endpoint) is None,
    ensures
        parsed_endpoint(endpoint) matches Ok((scheme, host, port, path, query)) && {
            &&& scheme == Some("http"@)
            &&& is_origin_path(path)
            &&& query is None
            &&& host matches Some(h) && (c.acknowledge_non_local_targets || exists|i: int|
                0 <= i < c.target_allowlist@.len() && ascii_lower(
                    (#[trigger] c.target_allowlist@[i])@,
                ) == ascii_lower(ascii_lower(without_brackets(h))))
        },
{
}

} // verus!
