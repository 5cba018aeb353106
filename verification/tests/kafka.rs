//! Kafka: settings, topics, evidence, dead letters and commits.
use base64::engine::general_purpose::STANDARD;
use base64::Engine;
use pulse::contracts::{
    ContractError, JobSlice, CURRENT_CONTRACT_VERSION, MAX_CONTRACT_ATTEMPT, MAX_CONTRACT_ID_BYTES,
    MAX_POISON_EVIDENCE_FIELD_BYTES,
};
use pulse::kafka::commit::{CommitEvent, CommitGuard, CommitState, CommitTrace};
use pulse::kafka::dead_letter::{
    build_terminal_event_id, check_failed_job_key, check_job_for_publish, check_result_for_publish,
    validated_failed_job, validated_poison, FailedScenarioJob,
};
use pulse::kafka::evidence::{
    build_poison_event_id, consumed_job_payload, consumed_result_payload, decode_job, decode_result,
    enforce_consumed_record_size, poison_record, poison_record_from_evidence,
    BoundedPoisonEvidence, Decoded, PoisonMessageRecord, POISON_REASON_TRUNCATION_MARKER,
};
use pulse::kafka::settings::{
    broker_client_config, consumer_client_config, probe_client_config, producer_client_config,
    KafkaConsumerConfig, KafkaProducerConfig,
};
use pulse::kafka::topics::{
    check_brokers, check_probe_brokers, check_probe_request, remaining_probe_time,
    topic_replication, topics_ensured, validate_required_topic_metadata,
    PartitionReadinessMetadata, TopicCreation, TopicReadinessMetadata,
};
use std::time::Duration;

const NOW: u128 = 1_700_000_000_000;

fn job_json() -> Vec<u8> {
    let text = "{\"schema_version\":2,\"scenario_id\":\"checkout\",\"run_id\":\"run-1\",\
                \"execution_key\":\"execution-1\",\"plan_fingerprint\":\"fnv128:kafka-test-plan\",\
                \"scheduled_at_unix_ms\":1,\"not_before_unix_ms\":0,\
                \"slice\":{\"index\":0,\"total\":1},\"attempt\":0,\"max_retries\":2}";
    text.as_bytes().to_vec()
}

fn valid_failed_job() -> FailedScenarioJob {
    let execution_key = "execution-1".to_string();
    FailedScenarioJob {
        schema_version: CURRENT_CONTRACT_VERSION,
        event_id: build_terminal_event_id(&execution_key, 0, "dlq"),
        scenario_id: "checkout".to_string(),
        run_id: "run-1".to_string(),
        execution_key,
        slice: JobSlice { index: 0, total: 1 },
        failed_at_unix_ms: 2,
        attempt: 0,
        max_retries: 2,
        reason: "permanent processing failure".to_string(),
    }
}

fn ready_topic(name: &str, partitions: usize) -> TopicReadinessMetadata {
    TopicReadinessMetadata {
        name: name.to_string(),
        error: None,
        partitions: (0..partitions)
            .map(|id| PartitionReadinessMetadata {
                id: i32::try_from(id).expect("test partition fits i32"),
                leader: 1,
                error: None,
            })
            .collect(),
    }
}

/// Decodes a payload without a contract of its own.
fn read_json(payload: &[u8]) -> Decoded<serde_json::Value> {
    match serde_json::from_slice(payload) {
        Ok(value) => Decoded::Value(value, Ok(())),
        Err(error) => Decoded::NotJson(error.to_string()),
    }
}

fn decode_consumed_job(
    key: Option<&[u8]>,
    payload: Option<&[u8]>,
    limit: usize,
) -> Result<serde_json::Value, ContractError> {
    decode_job(read_json(consumed_job_payload(key, payload, limit)?))
}

fn poison_json(record: &PoisonMessageRecord) -> Vec<u8> {
    let text = |value: &Option<String>| match value {
        Some(text) => serde_json::Value::from(text.as_str()),
        None => serde_json::Value::Null,
    };
    let number = |value: Option<u64>| match value {
        Some(number) => serde_json::Value::from(number),
        None => serde_json::Value::Null,
    };
    let mut object = serde_json::Map::new();
    let mut put = |name: &str, value: serde_json::Value| {
        object.insert(name.to_string(), value);
    };
    put("schema_version", serde_json::Value::from(record.schema_version));
    put("event_id", serde_json::Value::from(record.event_id.as_str()));
    put("failed_at_unix_ms", serde_json::Value::from(record.failed_at_unix_ms as u64));
    put("source_topic", serde_json::Value::from(record.source_topic.as_str()));
    put("source_partition", serde_json::Value::from(record.source_partition));
    put("source_offset", serde_json::Value::from(record.source_offset));
    put("source_key_base64", text(&record.source_key_base64));
    put("source_key_original_bytes", number(record.source_key_original_bytes));
    put("source_key_truncated", serde_json::Value::from(record.source_key_truncated));
    put("payload_base64", text(&record.payload_base64));
    put("payload_original_bytes", number(record.payload_original_bytes));
    put("payload_truncated", serde_json::Value::from(record.payload_truncated));
    put("reason", serde_json::Value::from(record.reason.as_str()));
    serde_json::to_vec(&serde_json::Value::Object(object)).expect("poison record serializes")
}

#[test]
fn required_topic_metadata_accepts_only_present_usable_partitions() {
    let required = vec!["jobs".to_string(), "results".to_string()];
    let observed = vec![ready_topic("jobs", 3), ready_topic("results", 1)];
    assert_eq!(validate_required_topic_metadata(&required, &observed), Ok(()));
}

#[test]
fn required_topic_metadata_fails_closed_for_missing_or_unusable_topics() {
    let required = vec!["jobs".to_string(), "results".to_string()];

    let error = validate_required_topic_metadata(&required, &vec![ready_topic("jobs", 1)])
        .expect_err("missing results topic must fail readiness");
    assert!(error.contains("'results' is missing"));

    let error = validate_required_topic_metadata(
        &required,
        &vec![ready_topic("jobs", 1), ready_topic("results", 0)],
    )
    .expect_err("partitionless topic must fail readiness");
    assert!(error.contains("has no partitions"));

    let mut leaderless = ready_topic("results", 1);
    leaderless.partitions[0].leader = -1;
    let error =
        validate_required_topic_metadata(&required, &vec![ready_topic("jobs", 1), leaderless])
            .expect_err("leaderless partition must fail readiness");
    assert!(error.contains("has no leader"));

    let mut partition_error = ready_topic("results", 1);
    partition_error.partitions[0].error = Some("LeaderNotAvailable".to_string());
    let error =
        validate_required_topic_metadata(&required, &vec![ready_topic("jobs", 1), partition_error])
            .expect_err("partition error must fail readiness");
    assert!(error.contains("LeaderNotAvailable"));
}

#[test]
fn a_topic_error_fails_readiness() {
    let required = vec!["jobs".to_string()];
    let mut topic = ready_topic("jobs", 1);
    topic.error = Some("UnknownTopic".to_string());
    let error = validate_required_topic_metadata(&required, &vec![topic])
        .expect_err("a topic with an error is not ready");
    assert!(error.contains("UnknownTopic"), "{error}");
}

#[test]
fn probes_need_topics_time_and_brokers() {
    assert_eq!(
        check_probe_request(&Vec::new()),
        Err("Kafka required-topic probe received no topics".to_string())
    );
    assert_eq!(check_probe_request(&vec!["jobs".to_string()]), Ok(()));
    assert_eq!(
        remaining_probe_time(Duration::from_secs(5), Duration::from_secs(2)),
        Ok(Duration::from_secs(3))
    );
    assert!(remaining_probe_time(Duration::from_secs(5), Duration::from_secs(5)).is_err());
    assert_eq!(
        check_probe_brokers("jobs", 0),
        Err("Kafka metadata probe for topic 'jobs' returned no brokers".to_string())
    );
    assert_eq!(check_probe_brokers("jobs", 3), Ok(()));
    assert_eq!(check_brokers(0), Err("Kafka metadata probe returned no brokers".to_string()));
    assert_eq!(check_brokers(1), Ok(()));
}

#[test]
fn topics_are_ensured_unless_one_could_not_be_created() {
    assert_eq!(topic_replication(0), 1);
    assert_eq!(topic_replication(3), 3);
    assert_eq!(
        topics_ensured(&vec![TopicCreation::Created, TopicCreation::AlreadyExists]),
        Ok(())
    );
    let failed = TopicCreation::Failed {
        topic: "jobs".to_string(),
        code: "InvalidReplicationFactor".to_string(),
    };
    assert_eq!(
        topics_ensured(&vec![TopicCreation::Created, failed]),
        Err("failed to ensure Kafka topic jobs: InvalidReplicationFactor".to_string())
    );
}

#[test]
fn producer_configuration_is_durable_and_count_bounded() {
    let config = KafkaProducerConfig {
        queue_capacity_messages: 321,
        message_max_bytes: 765_432,
        message_timeout: Duration::from_secs(9),
        delivery_timeout: Duration::from_secs(9),
        request_timeout: Duration::from_secs(4),
        acks: "all".to_string(),
        enable_idempotence: true,
    };

    let client = producer_client_config("broker:9092", &config).unwrap();
    assert_eq!(client.get("acks"), Some("all"));
    assert_eq!(client.get("enable.idempotence"), Some("true"));
    assert_eq!(client.get("queue.buffering.max.messages"), Some("321"));
    assert_eq!(client.get("message.max.bytes"), Some("765432"));
    assert_eq!(client.get("message.timeout.ms"), Some("9000"));
    assert_eq!(client.get("delivery.timeout.ms"), Some("9000"));
    assert_eq!(client.get("request.timeout.ms"), Some("4000"));
    assert_eq!(client.get("bootstrap.servers"), Some("broker:9092"));
}

#[test]
fn probing_clients_create_no_topics() {
    let probe = probe_client_config("broker:9092");
    assert_eq!(probe.get("bootstrap.servers"), Some("broker:9092"));
    assert_eq!(probe.get("allow.auto.create.topics"), Some("false"));
    let broker = broker_client_config("broker:9093");
    assert_eq!(broker.get("bootstrap.servers"), Some("broker:9093"));
    assert_eq!(broker.get("allow.auto.create.topics"), None);
}

#[test]
fn producer_rejects_settings_that_weaken_durable_publication() {
    let config = KafkaProducerConfig {
        acks: "1".to_string(),
        ..KafkaProducerConfig::default()
    };
    assert!(config.validate().is_err());

    let config = KafkaProducerConfig {
        delivery_timeout: Duration::from_secs(11),
        ..KafkaProducerConfig::default()
    };
    assert!(config.validate().is_err());

    let config = KafkaProducerConfig {
        request_timeout: Duration::from_secs(11),
        ..KafkaProducerConfig::default()
    };
    assert!(config.validate().is_err());
}

#[test]
fn consumer_disables_automatic_offset_storage_and_sets_poll_limits() {
    let config = KafkaConsumerConfig {
        max_poll_interval: Duration::from_secs(180),
        session_timeout: Duration::from_secs(12),
        request_timeout: Duration::from_secs(4),
        prefetch_kib: 2_048,
        partition_fetch_max_bytes: 786_432,
        fetch_max_bytes: 6_291_456,
        record_max_bytes: 1_500_000,
    };

    let client = consumer_client_config("broker:9092", "workers", &config).unwrap();
    assert_eq!(client.get("enable.auto.commit"), Some("false"));
    assert_eq!(client.get("enable.auto.offset.store"), Some("false"));
    assert_eq!(client.get("max.poll.interval.ms"), Some("180000"));
    assert_eq!(client.get("session.timeout.ms"), Some("12000"));
    assert_eq!(client.get("socket.timeout.ms"), Some("4000"));
    assert_eq!(client.get("queued.max.messages.kbytes"), Some("2048"));
    assert_eq!(client.get("fetch.message.max.bytes"), Some("786432"));
    assert_eq!(client.get("fetch.max.bytes"), Some("6291456"));
    assert_eq!(client.get("receive.message.max.bytes"), Some("6291968"));

    let invalid = KafkaConsumerConfig {
        partition_fetch_max_bytes: 2_000,
        fetch_max_bytes: 1_999,
        ..KafkaConsumerConfig::default()
    };
    assert!(invalid.validate().is_err());

    let invalid = KafkaConsumerConfig {
        record_max_bytes: 6_291_457,
        ..config
    };
    assert!(invalid.validate().is_err());

    let invalid = KafkaConsumerConfig {
        record_max_bytes: MAX_POISON_EVIDENCE_FIELD_BYTES * 2 - 1,
        ..KafkaConsumerConfig::default()
    };
    assert!(invalid.validate().is_err());
}

#[test]
fn one_setting_can_be_given_and_the_others_stay() {
    assert_eq!(
        KafkaProducerConfig::with_queue_capacity(7),
        KafkaProducerConfig { queue_capacity_messages: 7, ..KafkaProducerConfig::default() }
    );
    assert_eq!(
        KafkaConsumerConfig::with_prefetch_kib(9),
        KafkaConsumerConfig { prefetch_kib: 9, ..KafkaConsumerConfig::default() }
    );
}

#[test]
fn malformed_or_missing_payload_is_retained_as_contract_error() {
    let limit = 1_000_000;
    assert!(matches!(
        decode_consumed_job(None, None, limit),
        Err(ContractError::Malformed(message)) if message.contains("no payload")
    ));
    assert!(matches!(
        decode_consumed_job(None, Some(b"{not-json"), limit),
        Err(ContractError::Malformed(message)) if message.contains("invalid scenario job JSON")
    ));

    let payload = job_json();
    assert_eq!(
        decode_consumed_job(None, Some(&payload), limit).unwrap()["execution_key"],
        "execution-1"
    );
}

#[test]
fn a_missing_result_payload_is_a_contract_error() {
    assert!(matches!(
        consumed_result_payload(None, None, 10),
        Err(ContractError::Malformed(message)) if message.contains("no payload")
    ));
    let bytes: &[u8] = b"abc";
    assert_eq!(consumed_result_payload(None, Some(bytes), 3), Ok(bytes));
    assert!(enforce_consumed_record_size(Some(b"k"), Some(bytes), 4).is_ok());
    assert!(enforce_consumed_record_size(Some(b"k"), Some(bytes), 3).is_err());
}

#[test]
fn consumed_record_limit_counts_key_and_payload_before_decoding() {
    let payload = job_json();
    let key = b"execution-1";
    let exact_limit = key.len() + payload.len();

    assert!(decode_consumed_job(Some(key), Some(&payload), exact_limit).is_ok());
    let error = decode_consumed_job(Some(key), Some(&payload), exact_limit - 1)
        .expect_err("combined key and payload above the limit must be poison");
    assert!(matches!(
        error,
        ContractError::Malformed(message)
            if message.contains("exceeds configured")
                && message.contains(&format!("total={exact_limit}"))
    ));
}

#[test]
fn oversized_record_retains_only_bounded_prefixes_and_exact_lengths() {
    let key = vec![0x11; MAX_POISON_EVIDENCE_FIELD_BYTES + 17];
    let payload = vec![0x22; MAX_POISON_EVIDENCE_FIELD_BYTES + 29];
    let key_evidence = BoundedPoisonEvidence::capture(Some(&key));
    let payload_evidence = BoundedPoisonEvidence::capture(Some(&payload));
    let record = poison_record_from_evidence(
        "pulse.jobs",
        2,
        19,
        &key_evidence,
        &payload_evidence,
        "record exceeded configured consumer limit".to_string(),
        NOW,
    );

    assert_eq!(
        key_evidence.prefix.as_ref().map(Vec::len),
        Some(MAX_POISON_EVIDENCE_FIELD_BYTES)
    );
    assert_eq!(
        payload_evidence.prefix.as_ref().map(Vec::len),
        Some(MAX_POISON_EVIDENCE_FIELD_BYTES)
    );
    assert_eq!(
        record.source_key_original_bytes,
        Some(u64::try_from(key.len()).expect("test length fits u64"))
    );
    assert_eq!(
        record.payload_original_bytes,
        Some(u64::try_from(payload.len()).expect("test length fits u64"))
    );
    assert!(record.source_key_truncated);
    assert!(record.payload_truncated);
    assert_eq!(
        STANDARD
            .decode(record.source_key_base64.as_deref().expect("key evidence"))
            .expect("valid key base64")
            .len(),
        MAX_POISON_EVIDENCE_FIELD_BYTES
    );
    assert_eq!(
        STANDARD
            .decode(record.payload_base64.as_deref().expect("payload evidence"))
            .expect("valid payload base64")
            .len(),
        MAX_POISON_EVIDENCE_FIELD_BYTES
    );
    assert!(validated_poison(record, Ok(())).is_ok());
}

#[test]
fn decoded_kafka_contracts_are_validated_before_processing() {
    let future = ContractError::FutureVersion {
        found: CURRENT_CONTRACT_VERSION + 1,
        max_supported: CURRENT_CONTRACT_VERSION,
    };
    assert!(matches!(
        decode_job(Decoded::Value((), Err(future))),
        Err(ContractError::FutureVersion { .. })
    ));
    let slice = ContractError::InvalidSlice("slice total must not be zero".to_string());
    assert!(matches!(
        decode_job(Decoded::Value((), Err(slice))),
        Err(ContractError::InvalidSlice(_))
    ));
    let attempt = ContractError::InvalidResult(format!("attempt {}", MAX_CONTRACT_ATTEMPT + 1));
    assert!(matches!(
        decode_result(Decoded::Value((), Err(attempt))),
        Err(ContractError::InvalidResult(_))
    ));
    assert!(matches!(
        decode_result::<()>(Decoded::NotJson("expected value".to_string())),
        Err(ContractError::Malformed(message))
            if message == "invalid scenario result JSON: expected value"
    ));
}

#[test]
fn producer_serialization_rejects_invalid_local_contracts() {
    assert!(check_job_for_publish(Ok(())).is_ok());
    assert!(check_result_for_publish(Ok(())).is_ok());
    let job = check_job_for_publish(Err("missing plan_fingerprint".to_string()));
    assert!(job.expect_err("a refused job").contains("missing plan_fingerprint"));
    let result = check_result_for_publish(Err("totals differ".to_string()));
    assert!(result.expect_err("a refused result").contains("totals differ"));
}

#[test]
fn dlq_serialization_validates_identity_and_bounds_reasons() {
    let mut failed = valid_failed_job();
    failed.reason = "failure-🔥".repeat(MAX_CONTRACT_ID_BYTES);
    let validated = validated_failed_job(failed, Ok(())).expect("valid failed job");
    assert!(validated.reason.len() <= MAX_CONTRACT_ID_BYTES);
    assert!(validated.reason.ends_with(POISON_REASON_TRUNCATION_MARKER));

    let mut failed = valid_failed_job();
    failed.event_id = "caller-selected".to_string();
    assert!(validated_failed_job(failed, Ok(())).is_err());

    let poison = poison_record(
        "pulse.jobs",
        0,
        4,
        None,
        Some(b"bad-json"),
        "malformed".to_string(),
        NOW,
    );
    let mut poison = validated_poison(poison, Ok(())).expect("valid poison record");
    poison.payload_original_bytes = Some(1);
    assert!(validated_poison(poison, Ok(())).is_err());
}

#[test]
fn failed_jobs_are_refused_for_each_broken_rule() {
    let refused = |change: fn(&mut FailedScenarioJob)| {
        let mut failed = valid_failed_job();
        change(&mut failed);
        validated_failed_job(failed, Ok(())).expect_err("the job breaks a rule")
    };
    assert!(refused(|job| job.scenario_id = " ".to_string()).contains("scenario_id"));
    assert!(refused(|job| job.run_id.clear()).contains("run_id"));
    assert!(refused(|job| job.slice.total = 0).contains("slice"));
    assert!(refused(|job| job.max_retries = MAX_CONTRACT_ATTEMPT + 1).len() > 0);
    assert!(validated_failed_job(valid_failed_job(), Err("future".to_string()))
        .expect_err("a refused version")
        .contains("future"));
    let job = valid_failed_job();
    assert!(check_failed_job_key("execution-1", &job).is_ok());
    assert_eq!(
        check_failed_job_key("execution-2", &job),
        Err("refusing to publish failed job under a non-execution key".to_string())
    );
}

#[test]
fn poison_record_preserves_binary_source_data_and_has_stable_identity() {
    let key = [0, 1, 2, 255];
    let payload = [255, 254, 0, 10];
    let first = poison_record(
        "pulse.jobs",
        3,
        42,
        Some(&key),
        Some(&payload),
        "malformed".to_string(),
        NOW,
    );
    let second = poison_record(
        "pulse.jobs",
        3,
        42,
        Some(&key),
        Some(&payload),
        "another reason".to_string(),
        NOW + 1,
    );

    assert_eq!(first.event_id, "poison:pulse.jobs:3:42");
    assert_eq!(first.event_id, second.event_id);
    assert_eq!(build_poison_event_id("pulse.jobs", 3, 42), first.event_id);
    assert_eq!(first.source_key_original_bytes, Some(4));
    assert!(!first.source_key_truncated);
    assert_eq!(first.payload_original_bytes, Some(4));
    assert!(!first.payload_truncated);
    assert_eq!(STANDARD.decode(first.source_key_base64.unwrap()).unwrap(), key);
    assert_eq!(STANDARD.decode(first.payload_base64.unwrap()).unwrap(), payload);
}

#[test]
fn poison_evidence_that_is_not_base64_is_refused() {
    let mut record =
        poison_record("jobs", 0, 1, Some(b"k"), Some(b"payload"), "bad".to_string(), NOW);
    record.payload_base64 = Some("not base64!".to_string());
    let error = validated_poison(record, Ok(())).expect_err("the evidence must decode");
    assert!(error.starts_with("invalid poison payload base64: "), "{error}");
}

#[test]
fn poison_reason_is_bounded_at_a_utf8_boundary() {
    let reason = "failure-🔥".repeat(MAX_CONTRACT_ID_BYTES);
    let record = poison_record("pulse.jobs", 0, 1, None, None, reason, NOW);

    assert!(record.reason.len() <= MAX_CONTRACT_ID_BYTES);
    assert!(record.reason.ends_with(POISON_REASON_TRUNCATION_MARKER));
    assert!(record
        .reason
        .is_char_boundary(record.reason.len() - POISON_REASON_TRUNCATION_MARKER.len()));
}

#[test]
fn default_maximum_poison_evidence_fits_the_producer_message_limit() {
    let consumer = KafkaConsumerConfig::default();
    let producer = KafkaProducerConfig::default();
    let payload = vec![0xff; consumer.partition_fetch_max_bytes - 1];
    let record = poison_record(
        "pulse.scenario.jobs",
        2,
        i64::MAX,
        Some(&[0xff]),
        Some(&payload),
        "x".repeat(MAX_CONTRACT_ID_BYTES * 2),
        NOW,
    );
    let serialized = poison_json(&record);
    let kafka_record_bytes = serialized.len() + record.event_id.len();

    assert!(kafka_record_bytes <= producer.message_max_bytes);
    assert_eq!(
        record.payload_original_bytes,
        Some(u64::try_from(payload.len()).expect("test payload length fits u64"))
    );
    assert!(record.payload_truncated);
    assert_eq!(
        STANDARD
            .decode(record.payload_base64.as_deref().expect("payload evidence"))
            .expect("valid base64")
            .len(),
        MAX_POISON_EVIDENCE_FIELD_BYTES
    );
}

#[test]
fn a_commit_counts_under_its_epoch_and_assignment_only() {
    let guard = CommitGuard {
        topic: "jobs".to_string(),
        partition: 2,
        offset: 41,
        consumed_epoch: 3,
    };
    let trace = |before: u64, assigned: bool, after: u64| CommitTrace {
        epoch_before: before,
        assigned_before: Ok(assigned),
        offset_built: Ok(()),
        committed: Ok(()),
        epoch_after: after,
        assigned_after: Ok(true),
    };
    assert_eq!(guard.next_offset(), Ok(42));
    assert_eq!(guard.verdict(&trace(3, true, 3)), Ok(()));
    assert_eq!(
        guard.verdict(&trace(4, true, 4)),
        Err("refusing Kafka offset commit after rebalance: consumed epoch 3, current epoch 4"
            .to_string())
    );
    assert_eq!(
        guard.verdict(&trace(3, false, 3)),
        Err("refusing Kafka offset commit for revoked assignment jobs[2]".to_string())
    );
    assert!(guard.verdict(&trace(3, true, 4)).is_err());
    let last = CommitGuard { offset: i64::MAX, ..guard };
    assert!(last.next_offset().is_err());
}

#[test]
fn poison_records_from_different_places_have_different_identities() {
    let ids = [
        build_poison_event_id("t", 1, 2),
        build_poison_event_id("t", 12, 2),
        build_poison_event_id("t", 1, 22),
        build_poison_event_id("t:1", 2, 2),
        build_poison_event_id("t", -1, 2),
    ];
    for (i, id) in ids.iter().enumerate() {
        for other in &ids[i + 1..] {
            assert_ne!(id, other);
        }
    }
    assert_eq!(ids[0], "poison:t:1:2");
}

#[test]
fn nothing_is_committed_after_a_failed_check() {
    let guard = CommitGuard {
        topic: "jobs".to_string(),
        partition: 2,
        offset: 41,
        consumed_epoch: 3,
    };
    let steps = |events: Vec<CommitEvent>| {
        let mut state = guard.begin();
        let mut sent: usize = 0;
        for event in events {
            if state == CommitState::SendCommit {
                sent += 1;
            }
            state = guard.step(state, event);
        }
        (state, sent)
    };
    let all = |before: u64, assigned: Result<bool, String>, built: Result<(), String>| {
        vec![
            CommitEvent::Epoch(before),
            CommitEvent::Assigned(assigned),
            CommitEvent::OffsetBuilt(built),
            CommitEvent::Committed(Ok(())),
            CommitEvent::Epoch(3),
            CommitEvent::Assigned(Ok(true)),
        ]
    };
    assert_eq!(steps(all(3, Ok(true), Ok(()))), (CommitState::Ended(Ok(())), 1));
    let refused = |text: &str| (CommitState::Ended(Err(text.to_string())), 0);
    assert_eq!(
        steps(all(4, Ok(true), Ok(()))),
        refused("refusing Kafka offset commit after rebalance: consumed epoch 3, current epoch 4")
    );
    assert_eq!(
        steps(all(3, Ok(false), Ok(()))),
        refused("refusing Kafka offset commit for revoked assignment jobs[2]")
    );
    assert_eq!(
        steps(all(3, Err("down".to_string()), Ok(()))),
        refused("failed to inspect Kafka assignment before commit: down")
    );
    assert_eq!(
        steps(all(3, Ok(true), Err("bad".to_string()))),
        refused("failed to build Kafka commit offset: bad")
    );
    let mut raced = all(3, Ok(true), Ok(()));
    raced[4] = CommitEvent::Epoch(5);
    assert_eq!(
        steps(raced),
        (
            CommitState::Ended(Err(
                "Kafka rebalance raced with offset commit acknowledgement: consumed epoch 3, current epoch 5"
                    .to_string()
            )),
            1
        )
    );
    let mut failed = all(3, Ok(true), Ok(()));
    failed[3] = CommitEvent::Committed(Err("late".to_string()));
    assert_eq!(
        steps(failed),
        (CommitState::Ended(Err("failed to commit Kafka message: late".to_string())), 1)
    );
    let unasked = guard.step(CommitState::ReadEpoch, CommitEvent::Committed(Ok(())));
    assert_eq!(unasked, CommitState::ReadEpoch);
    let last = CommitGuard { offset: i64::MAX, ..guard };
    assert_eq!(
        last.begin(),
        CommitState::Ended(Err("cannot commit Kafka offset because it overflowed".to_string()))
    );
}

#[test]
fn copies_of_settings_are_equal() {
    let producer = KafkaProducerConfig::with_queue_capacity(7);
    assert_eq!(producer.clone(), producer);
    let consumer = KafkaConsumerConfig::with_prefetch_kib(7);
    assert_eq!(consumer.clone(), consumer);
}
