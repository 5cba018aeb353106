//! Settings from variables and files.
use pulse::config::app::{AddressFacts, AppConfig};
use pulse::config::error::ConfigError;
use pulse::config::source::{ConfigSource, EnvValue};
use std::time::Duration;

fn config_from(entries: &[(&str, &str)]) -> Result<AppConfig, ConfigError> {
    config_from_with_files(entries, &[])
}

fn is_ip_address(text: &str) -> bool {
    let parts: Vec<&str> = text.split('.').collect();
    let dotted = parts.len() == 4 && parts.iter().all(|part| part.parse::<u8>().is_ok());
    dotted || text == "::1"
}

fn is_socket_address(text: &str) -> bool {
    match text.rsplit_once(':') {
        Some((host, port)) => is_ip_address(host) && port.parse::<u16>().is_ok(),
        None => false,
    }
}

fn source(entries: &[(&str, &str)], files: &[(&str, Result<&str, &str>)]) -> ConfigSource {
    let variables = entries
        .iter()
        .map(|(name, value)| (name.to_string(), EnvValue::Text(value.to_string())))
        .collect();
    let files = files
        .iter()
        .map(|(path, result)| {
            let content = match result {
                Ok(text) => Ok(text.to_string()),
                Err(reason) => Err(reason.to_string()),
            };
            (path.to_string(), content)
        })
        .collect();
    let mut source = ConfigSource {
        variables,
        files,
        rate_bits: None,
        default_node_id: "node-test".to_string(),
    };
    source.rate_bits = source
        .rate_text()
        .and_then(|text| text.parse::<f64>().ok())
        .map(f64::to_bits);
    source
}

fn facts(source: &ConfigSource) -> AddressFacts {
    let ip_addresses = source
        .allowlist_hosts()
        .into_iter()
        .filter(|host| is_ip_address(host))
        .collect();
    let bad_sockets = source
        .metrics_address()
        .into_iter()
        .filter(|text| !is_socket_address(text))
        .map(|text| (text, "invalid socket address syntax".to_string()))
        .collect();
    AddressFacts { ip_addresses, bad_sockets }
}

fn config_from_with_files(
    entries: &[(&str, &str)],
    files: &[(&str, Result<&str, &str>)],
) -> Result<AppConfig, ConfigError> {
    let source = source(entries, files);
    let facts = facts(&source);
    AppConfig::from_sources(&source, &facts)
}

fn invalid_name(error: ConfigError) -> String {
    match error {
        ConfigError::Environment { name, .. }
        | ConfigError::File { name, .. }
        | ConfigError::Invalid { name, .. } => name,
    }
}

fn invalid_reason(error: ConfigError) -> String {
    match error {
        ConfigError::Environment { reason, .. }
        | ConfigError::File { reason, .. }
        | ConfigError::Invalid { reason, .. } => reason,
    }
}

#[test]
fn defaults_are_local_bounded_and_non_mutating() {
    let config = config_from(&[]).expect("defaults must validate");

    assert_eq!(config.kafka_brokers, "localhost:9092");
    assert_eq!(config.kafka_max_poll_interval, Duration::from_secs(300));
    assert_eq!(
        config.kafka_safe_processing_interval(),
        Duration::from_secs(299)
    );
    assert_eq!(config.kafka_session_timeout, Duration::from_secs(10));
    assert_eq!(config.kafka_producer_acks, "all");
    assert!(config.kafka_producer_idempotence);
    assert!(!config.kafka_topic_management_enabled);
    assert_eq!(config.kafka_topic_partitions, 3);
    assert_eq!(config.kafka_topic_replication_factor, 1);
    assert_eq!(config.producer_queue_messages, 1_024);
    assert_eq!(config.consumer_queue_kbytes, 4_096);
    assert_eq!(config.kafka_producer_message_max_bytes, 1_000_000);
    assert_eq!(config.consumer_partition_fetch_max_bytes, 524_288);
    assert_eq!(config.consumer_fetch_max_bytes, 4_194_304);
    assert_eq!(config.consumer_record_max_bytes, 1_000_000);
    assert_eq!(config.execution_lease_ttl, Duration::from_secs(30));
    assert_eq!(
        config.execution_terminal_retention,
        Duration::from_secs(86_400)
    );
    assert_eq!(config.worker_retry_max_delay, Duration::from_secs(30));
    assert_eq!(config.retry_queue_capacity, 1_024);
    assert_eq!(config.startup_deadline, Duration::from_secs(60));
    assert_eq!(config.shutdown_drain_timeout, Duration::from_secs(30));
    assert_eq!(config.grpc_connect_timeout, Duration::from_secs(5));
    assert_eq!(config.grpc_request_timeout, Duration::from_secs(5));
    assert_eq!(config.grpc_scenario_timeout, Duration::from_secs(30));
    assert_eq!(config.max_duration, Duration::from_secs(60));
    assert_eq!(f64::from_bits(config.max_scenarios_per_sec.bits), 1_000.0);
    assert_eq!(config.max_concurrency, 256);
    assert!(!config.dry_run);
    assert_eq!(config.startup_burst, 0);
    assert!(!config.allow_partial_start);
    assert!(!config.acknowledge_non_local_targets);
    assert_eq!(config.target_allowlist, ["localhost", "127.0.0.1", "::1"]);
}

#[test]
fn malformed_present_numeric_value_is_an_error() {
    let error = config_from(&[("PULSE_WORKER_MAX_RETRIES", "two")])
        .expect_err("malformed value must not use a default");
    assert_eq!(invalid_name(error), "PULSE_WORKER_MAX_RETRIES");
}

#[test]
fn malformed_present_boolean_value_is_an_error() {
    let error = config_from(&[("PULSE_DRY_RUN", "sometimes")])
        .expect_err("malformed bool must not use a default");
    assert_eq!(invalid_name(error), "PULSE_DRY_RUN");
}

#[test]
fn empty_present_optional_value_is_an_error() {
    let error = config_from(&[("PULSE_GRPC_DESCRIPTOR_SET", "  ")])
        .expect_err("present optional settings must be meaningful");
    assert_eq!(invalid_name(error), "PULSE_GRPC_DESCRIPTOR_SET");
}

#[test]
fn file_backed_setting_is_trimmed_and_never_silently_ignored() {
    let config = config_from_with_files(
        &[("PULSE_REDIS_URL_FILE", "/run/secrets/redis")],
        &[("/run/secrets/redis", Ok(" redis://127.0.0.1:6379\n"))],
    )
    .expect("valid file-backed value");
    assert_eq!(config.redis_url, "redis://127.0.0.1:6379");

    let unreadable = config_from_with_files(
        &[("PULSE_REDIS_URL_FILE", "/run/secrets/redis")],
        &[("/run/secrets/redis", Err("permission denied"))],
    )
    .expect_err("unreadable secret must fail");
    assert!(matches!(unreadable, ConfigError::File { .. }));

    let empty = config_from_with_files(
        &[("PULSE_REDIS_URL_FILE", "/run/secrets/redis")],
        &[("/run/secrets/redis", Ok(" \n"))],
    )
    .expect_err("empty secret must fail");
    assert!(matches!(empty, ConfigError::File { .. }));
}

#[test]
fn direct_and_file_backed_values_are_rejected_as_ambiguous() {
    let error = config_from(&[
        ("PULSE_REDIS_URL", "redis://127.0.0.1:6379"),
        ("PULSE_REDIS_URL_FILE", "/run/secrets/redis"),
    ])
    .expect_err("ambiguous secret sources must fail");
    assert_eq!(invalid_name(error), "PULSE_REDIS_URL");
}

#[test]
fn ttl_and_renewal_relationships_are_validated() {
    let leader_error = config_from(&[("PULSE_LEADER_RENEW_INTERVAL_MS", "4000")])
        .expect_err("leader TTL must tolerate missed renewals");
    assert_eq!(invalid_name(leader_error), "PULSE_LEADER_LOCK_TTL_MS");

    let lease_error = config_from(&[("PULSE_EXECUTION_LEASE_TTL_MS", "29999")])
        .expect_err("lease TTL must tolerate missed renewals");
    assert_eq!(invalid_name(lease_error), "PULSE_EXECUTION_LEASE_TTL_MS");

    let slow_leader_response = config_from(&[
        ("PULSE_LEADER_LOCK_TTL_MS", "300"),
        ("PULSE_LEADER_RENEW_INTERVAL_MS", "100"),
    ])
    .expect_err("Redis response latency must not consume the entire leader lease");
    assert_eq!(
        invalid_name(slow_leader_response),
        "PULSE_LEADER_LOCK_TTL_MS"
    );

    let slow_execution_response = config_from(&[
        ("PULSE_EXECUTION_LEASE_TTL_MS", "300"),
        ("PULSE_EXECUTION_LEASE_RENEW_INTERVAL_MS", "100"),
    ])
    .expect_err("Redis response latency must not consume the entire execution lease");
    assert_eq!(
        invalid_name(slow_execution_response),
        "PULSE_EXECUTION_LEASE_TTL_MS"
    );
}

#[test]
fn redis_coordination_keys_require_one_shared_cluster_hash_tag() {
    let missing = config_from(&[("PULSE_REDIS_LEADER_KEY", "pulse:leader")])
        .expect_err("leader key without a hash tag can cross Redis Cluster slots");
    assert_eq!(invalid_name(missing), "PULSE_REDIS_LEADER_KEY");

    let empty = config_from(&[("PULSE_REDIS_LEADER_KEY", "pulse:{}:leader")])
        .expect_err("an empty Redis hash tag hashes the complete key");
    assert_eq!(invalid_name(empty), "PULSE_REDIS_LEADER_KEY");

    let mismatched = config_from(&[
        ("PULSE_REDIS_LEADER_KEY", "pulse:{leaders}:leader"),
        ("PULSE_REDIS_SCHEDULE_PREFIX", "pulse:{schedules}:schedule"),
    ])
    .expect_err("multi-key coordination scripts require one Redis Cluster slot");
    assert_eq!(invalid_name(mismatched), "Redis coordination hash tag");

    config_from(&[
        ("PULSE_REDIS_LEADER_KEY", "pulse:{shared}:leader"),
        ("PULSE_REDIS_SCHEDULE_PREFIX", "pulse:{shared}:schedule"),
    ])
    .expect("matching non-empty hash tags are cluster-safe");
}

#[test]
fn retry_and_shutdown_budgets_are_validated() {
    let zero_retry = config_from(&[("PULSE_WORKER_RETRY_BASE_DELAY_MS", "0")])
        .expect_err("zero retry backoff would create a retry storm");
    assert_eq!(invalid_name(zero_retry), "PULSE_WORKER_RETRY_BASE_DELAY_MS");

    let retry_error = config_from(&[("PULSE_WORKER_RETRY_BASE_DELAY_MS", "30001")])
        .expect_err("base retry delay cannot exceed max delay");
    assert_eq!(
        invalid_name(retry_error),
        "PULSE_WORKER_RETRY_BASE_DELAY_MS"
    );

    let shutdown_error = config_from(&[("PULSE_SHUTDOWN_DRAIN_TIMEOUT_MS", "14999")])
        .expect_err("drain must cover settlement");
    assert_eq!(
        invalid_name(shutdown_error),
        "PULSE_SHUTDOWN_DRAIN_TIMEOUT_MS"
    );
}

#[test]
fn max_poll_must_cover_bounded_job_and_settlement() {
    let error = config_from(&[("PULSE_KAFKA_MAX_POLL_INTERVAL_MS", "120000")])
        .expect_err("max poll must be strictly larger than the complete budget");
    assert_eq!(invalid_name(error), "PULSE_KAFKA_MAX_POLL_INTERVAL_MS");
}

#[test]
fn finite_rate_and_capacity_bounds_are_enforced() {
    let rate_error = config_from(&[("PULSE_MAX_SCENARIOS_PER_SEC", "NaN")])
        .expect_err("NaN is not a safe ceiling");
    assert_eq!(invalid_name(rate_error), "PULSE_MAX_SCENARIOS_PER_SEC");

    let queue_error = config_from(&[("PULSE_RETRY_QUEUE_CAPACITY", "0")])
        .expect_err("queues must be bounded and nonzero");
    assert_eq!(invalid_name(queue_error), "PULSE_RETRY_QUEUE_CAPACITY");

    let burst_error = config_from(&[("PULSE_STARTUP_BURST", "257")])
        .expect_err("startup burst must respect concurrency ceiling");
    assert_eq!(invalid_name(burst_error), "PULSE_STARTUP_BURST");
}

#[test]
fn kafka_topics_brokers_and_acks_are_strict() {
    let broker_error = config_from(&[("PULSE_KAFKA_BROKERS", "localhost")])
        .expect_err("broker port is required");
    assert_eq!(invalid_name(broker_error), "PULSE_KAFKA_BROKERS");

    let topic_error = config_from(&[("PULSE_KAFKA_DLQ_TOPIC", "pulse bad topic")])
        .expect_err("invalid topic characters must fail");
    assert_eq!(invalid_name(topic_error), "PULSE_KAFKA_DLQ_TOPIC");

    let duplicate_topic = config_from(&[("PULSE_KAFKA_DLQ_TOPIC", "pulse.scenario.results")])
        .expect_err("terminal topics must not alias");
    assert_eq!(invalid_name(duplicate_topic), "Kafka topics");

    let ack_error = config_from(&[("PULSE_KAFKA_PRODUCER_ACKS", "1")])
        .expect_err("weak acknowledgements must fail");
    assert_eq!(invalid_name(ack_error), "PULSE_KAFKA_PRODUCER_ACKS");

    let normalized = config_from(&[("PULSE_KAFKA_PRODUCER_ACKS", "-1")])
        .expect("-1 is the librdkafka spelling for all");
    assert_eq!(normalized.kafka_producer_acks, "all");
}

#[test]
fn kafka_fetch_and_poison_publication_size_bounds_are_consistent() {
    let total_too_small = config_from(&[
        ("PULSE_KAFKA_CONSUMER_PARTITION_FETCH_MAX_BYTES", "1048576"),
        ("PULSE_KAFKA_CONSUMER_FETCH_MAX_BYTES", "524288"),
        ("PULSE_KAFKA_PRODUCER_MESSAGE_MAX_BYTES", "1500000"),
    ])
    .expect_err("total fetch bound must cover one partition fetch");
    assert_eq!(
        invalid_name(total_too_small),
        "PULSE_KAFKA_CONSUMER_FETCH_MAX_BYTES"
    );

    let poison_too_large = config_from(&[
        ("PULSE_KAFKA_CONSUMER_PARTITION_FETCH_MAX_BYTES", "800000"),
        ("PULSE_KAFKA_CONSUMER_RECORD_MAX_BYTES", "800000"),
        ("PULSE_KAFKA_PRODUCER_MESSAGE_MAX_BYTES", "700000"),
    ])
    .expect_err("producer must carry base64 poison evidence");
    assert_eq!(
        invalid_name(poison_too_large),
        "PULSE_KAFKA_PRODUCER_MESSAGE_MAX_BYTES"
    );

    config_from(&[
        ("PULSE_KAFKA_CONSUMER_PARTITION_FETCH_MAX_BYTES", "800000"),
        ("PULSE_KAFKA_CONSUMER_FETCH_MAX_BYTES", "4000000"),
        ("PULSE_KAFKA_PRODUCER_MESSAGE_MAX_BYTES", "800000"),
        ("PULSE_KAFKA_CONSUMER_RECORD_MAX_BYTES", "800000"),
    ])
    .expect("independent, compatible byte bounds must validate");

    let record_too_small_for_local_publications = config_from(&[
        ("PULSE_KAFKA_PRODUCER_MESSAGE_MAX_BYTES", "900000"),
        ("PULSE_KAFKA_CONSUMER_RECORD_MAX_BYTES", "899999"),
    ])
    .expect_err("consumer record bound must cover locally publishable records");
    assert_eq!(
        invalid_name(record_too_small_for_local_publications),
        "PULSE_KAFKA_CONSUMER_RECORD_MAX_BYTES"
    );

    let record_larger_than_fetch = config_from(&[
        ("PULSE_KAFKA_CONSUMER_FETCH_MAX_BYTES", "1200000"),
        ("PULSE_KAFKA_CONSUMER_RECORD_MAX_BYTES", "1200001"),
    ])
    .expect_err("record bound must fit the total fetch bound");
    assert_eq!(
        invalid_name(record_larger_than_fetch),
        "PULSE_KAFKA_CONSUMER_RECORD_MAX_BYTES"
    );
}

#[test]
fn bind_and_endpoint_urls_are_validated_without_network_access() {
    let bind_error = config_from(&[("PULSE_METRICS_BIND", "localhost:9090")])
        .expect_err("bind must be a numeric socket address");
    assert_eq!(invalid_name(bind_error), "PULSE_METRICS_BIND");

    let endpoint_error = config_from(&[("PULSE_ENDPOINT", "127.0.0.1:8080")])
        .expect_err("endpoint requires a URL scheme");
    assert_eq!(invalid_name(endpoint_error), "target endpoint");

    let path_error = config_from(&[("PULSE_ENDPOINT", "http://127.0.0.1:8080/path")])
        .expect_err("target endpoint must be an origin");
    assert_eq!(invalid_name(path_error), "target endpoint");

    let tls_error = config_from(&[("PULSE_ENDPOINT", "https://127.0.0.1:8080")])
        .expect_err("TLS must not be implied when tonic's TLS transport is disabled");
    let reason = invalid_reason(tls_error);
    assert!(reason.contains("no gRPC TLS transport"), "{reason}");
    assert!(reason.contains("use http:// only"), "{reason}");
}

#[test]
fn non_local_targets_require_allowlisting_or_explicit_acknowledgement() {
    let blocked = config_from(&[("PULSE_ENDPOINT", "http://example.com")])
        .expect_err("remote target must not be implicit");
    assert_eq!(invalid_name(blocked), "target endpoint");

    let allowlisted = config_from(&[
        ("PULSE_ENDPOINT", "http://example.com"),
        ("PULSE_TARGET_ALLOWLIST", "localhost,example.com"),
    ])
    .expect("explicit allowlist permits the target");
    allowlisted
        .validate_target_endpoint("http://example.com")
        .expect("allowlisted endpoint remains valid");

    let acknowledged = config_from(&[
        ("PULSE_ENDPOINT", "http://example.com"),
        ("PULSE_ACKNOWLEDGE_NON_LOCAL_TARGETS", "true"),
    ])
    .expect("explicit acknowledgement permits remote targets");
    acknowledged
        .validate_target_endpoint("http://another.example")
        .expect("acknowledgement covers scenario endpoints too");
}

#[test]
fn a_variable_that_is_not_unicode_is_an_environment_error() {
    let mut source = source(&[], &[]);
    source.variables.push(("PULSE_NODE_ID".to_string(), EnvValue::NotUnicode));
    let facts = facts(&source);
    let error = AppConfig::from_sources(&source, &facts).expect_err("no text, no setting");
    assert_eq!(
        error,
        ConfigError::Environment {
            name: "PULSE_NODE_ID".to_string(),
            reason: "value is not valid Unicode".to_string(),
        }
    );
    assert_eq!(
        error.message(),
        "failed to read environment setting PULSE_NODE_ID: value is not valid Unicode"
    );
}

#[test]
fn a_missing_secret_file_is_a_file_error_with_its_path() {
    let error = config_from_with_files(
        &[("PULSE_REDIS_URL_FILE", "/run/secrets/redis")],
        &[("/run/secrets/redis", Err("permission denied"))],
    )
    .expect_err("unreadable secret must fail");
    assert!(error.message().starts_with("failed to load "), "{}", error.message());
    assert!(error.message().contains("/run/secrets/redis"), "{}", error.message());
    assert!(error.message().ends_with("permission denied"), "{}", error.message());
}

#[test]
fn an_invalid_redis_url_is_refused_by_the_client() {
    let error = config_from(&[("PULSE_REDIS_URL", "http://127.0.0.1:6379")])
        .expect_err("the scheme must be one of Redis");
    assert_eq!(invalid_name(error), "PULSE_REDIS_URL");
    config_from(&[("PULSE_REDIS_URL", "redis://127.0.0.1:6380/1")]).expect("a database may be given");
}

#[test]
fn accepted_settings_keep_the_laws_of_the_node() {
    let config = config_from(&[]).expect("defaults must validate");
    let renew = config.leader_renew_interval.as_millis() as u64;
    let redis = config.redis_operation_timeout().as_millis() as u64;
    assert!(config.leader_lock_ttl_ms > renew + redis);
    assert!(
        config.aggregation_retention > config.max_duration + config.aggregation_partial_timeout
    );
    assert!(config.consumer_record_max_bytes >= config.kafka_producer_message_max_bytes);
    assert_eq!(config.redis_operation_timeout(), Duration::from_secs(2));
}

#[test]
fn a_rate_above_the_largest_is_refused_and_one_below_is_taken() {
    let error = config_from(&[("PULSE_MAX_SCENARIOS_PER_SEC", "1000000000.5")])
        .expect_err("beyond the largest rate");
    assert_eq!(invalid_name(error), "PULSE_MAX_SCENARIOS_PER_SEC");
    let config = config_from(&[("PULSE_MAX_SCENARIOS_PER_SEC", "999999999.5")]).expect("below it");
    assert_eq!(f64::from_bits(config.max_scenarios_per_sec.bits), 999_999_999.5);
    for text in ["0", "-1", "inf", "-inf", "-0.0"] {
        let error = config_from(&[("PULSE_MAX_SCENARIOS_PER_SEC", text)]).expect_err("not positive");
        assert_eq!(invalid_name(error), "PULSE_MAX_SCENARIOS_PER_SEC");
    }
}

#[test]
fn the_file_with_the_redis_url_is_read_only_where_no_url_is_given() {
    let file = ("PULSE_REDIS_URL_FILE", "/run/redis-url");
    assert_eq!(source(&[file], &[]).secret_path(), Some("/run/redis-url".to_string()));
    let both = [file, ("PULSE_REDIS_URL", "redis://127.0.0.1/")];
    assert_eq!(source(&both, &[]).secret_path(), None);
    assert_eq!(source(&[], &[]).secret_path(), None);
}
