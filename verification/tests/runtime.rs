//! Starting, supervising and stopping the node.
use pulse::config::app::{AddressFacts, AppConfig};
use pulse::config::rate::Rate;
use pulse::config::source::{ConfigSource, EnvValue};
use pulse::coordination::RepeatPolicy;
use pulse::runtime::plans::{
    connect_budget, dry_run_lines, invalid_step, required_descriptor_set, required_endpoints,
    startable_plans, target_not_ready, unreadable_descriptor_set, DryRunPlan, SliceLoad,
};
use pulse::runtime::scenarios::{
    validate_scenario_limits, ScenarioFacts, ScenarioLimits, StepFacts,
};
use pulse::runtime::startup::{
    aggregation_settings, client_topics, consumer_settings, managed_topics, node_settings,
    producer_settings,
    required_kafka_topics, runtime_stores, serves_metrics, startup_expired,
};
use pulse::runtime::supervise::{
    component_exit, metrics_server_exit, next_attempt, run_outcome, runtime_join_timeout,
    wait_allowed, wait_ended, ComponentEnd, WaitEvent,
};
use std::time::Duration;

fn config(entries: &[(&str, &str)]) -> AppConfig {
    let source = ConfigSource {
        variables: entries
            .iter()
            .map(|(name, value)| (name.to_string(), EnvValue::Text(value.to_string())))
            .collect(),
        files: Vec::new(),
        rate_bits: None,
        default_node_id: "node-test".to_string(),
    };
    let facts = AddressFacts {
        ip_addresses: vec!["127.0.0.1".to_string(), "::1".to_string()],
        bad_sockets: Vec::new(),
    };
    AppConfig::from_sources(&source, &facts).expect("the settings are valid")
}

fn step(name: &str, endpoint: Option<&str>, dynamic: bool) -> StepFacts {
    StepFacts {
        name: name.to_string(),
        endpoint_override: endpoint.map(str::to_string),
        dynamic,
    }
}

fn scenario() -> ScenarioFacts {
    ScenarioFacts {
        name: "checkout".to_string(),
        endpoint: "http://127.0.0.1:8080".to_string(),
        steps: vec![step("pay", None, true)],
        duration: Duration::from_secs(10),
        repeat: RepeatPolicy::Every(Duration::from_secs(10)),
        rate: Rate { bits: 5.0_f64.to_bits() },
        rate_text: "5".to_string(),
        rate_text_fixed: "5.000000".to_string(),
        below_one_arrival: false,
        max_concurrency: 4,
        identity_error: None,
    }
}

fn limits() -> ScenarioLimits {
    ScenarioLimits {
        max_scenarios: 2,
        max_name_bytes: 16,
        max_steps: 3,
        max_rate_text: "1000".to_string(),
    }
}

fn refused(change: impl Fn(&mut ScenarioFacts)) -> String {
    refused_with(&config(&[]), change)
}

fn refused_with(config: &AppConfig, change: impl Fn(&mut ScenarioFacts)) -> String {
    let mut changed = scenario();
    change(&mut changed);
    validate_scenario_limits(config, &vec![scenario(), changed], &limits())
        .expect_err("the second scenario breaks a limit")
}

#[test]
fn scenarios_within_the_limits_are_accepted() {
    assert_eq!(validate_scenario_limits(&config(&[]), &vec![scenario()], &limits()), Ok(()));
}

#[test]
fn a_source_holds_some_scenarios_but_not_too_many() {
    let config = config(&[]);
    assert_eq!(
        validate_scenario_limits(&config, &Vec::new(), &limits()),
        Err("scenario source contains zero scenarios".to_string())
    );
    let three = vec![scenario(), scenario(), scenario()];
    assert_eq!(
        validate_scenario_limits(&config, &three, &limits()),
        Err("scenario source contains 3 scenarios; maximum is 2".to_string())
    );
}

#[test]
fn each_limit_on_a_scenario_is_kept() {
    let name = "scenario name must be non-empty and at most 16 bytes";
    assert_eq!(refused(|s| s.name = "  ".to_string()), name);
    assert_eq!(refused(|s| s.name = "x".repeat(17)), name);
    assert_eq!(
        refused(|s| s.steps.clear()),
        "scenario 'checkout' must contain between 1 and 3 steps"
    );
    assert_eq!(
        refused(|s| s.identity_error = Some("too long".to_string())),
        "scenario 'checkout': too long"
    );
    assert_eq!(
        refused(|s| s.repeat = RepeatPolicy::Every(Duration::from_millis(9_999))),
        "scenario 'checkout' repeat interval 9999 ms is shorter than its 10000 ms load window \
         and would overlap global concurrency budgets"
    );
    assert_eq!(
        refused(|s| {
            s.duration = Duration::from_secs(61);
            s.repeat = RepeatPolicy::Once;
        }),
        "scenario 'checkout' duration 61000 ms exceeds PULSE_MAX_DURATION_MS=60000"
    );
    assert_eq!(
        refused(|s| s.below_one_arrival = true),
        "scenario 'checkout' window is shorter than one 5.000000 SPS inter-arrival interval; \
         increase duration or explicitly opt into PULSE_STARTUP_BURST"
    );
    for bits in [0.0_f64, -1.0, f64::NAN, f64::INFINITY, 1_000.5].map(f64::to_bits) {
        assert_eq!(
            refused(|s| s.rate = Rate { bits }),
            "scenario 'checkout' rate 5 is outside (0, PULSE_MAX_SCENARIOS_PER_SEC=1000]"
        );
    }
    assert_eq!(
        refused(|s| s.max_concurrency = 0),
        "scenario 'checkout' concurrency 0 is outside [1, PULSE_MAX_CONCURRENCY=256]"
    );
    let bursting = config(&[("PULSE_STARTUP_BURST", "4")]);
    assert_eq!(
        refused_with(&bursting, |s| s.max_concurrency = 3),
        "scenario 'checkout' startup burst 4 exceeds its max concurrency 3"
    );
    let target = refused(|s| s.endpoint = "http://example.com".to_string());
    assert!(
        target.starts_with("scenario 'checkout': invalid configuration for target endpoint: host 'example.com'"),
        "{target}"
    );
    let target = refused(|s| s.steps.push(step("ship", Some("http://example.com"), false)));
    assert!(target.starts_with("scenario 'checkout' step 'ship': invalid configuration"), "{target}");
}

#[test]
fn the_largest_rate_itself_is_allowed() {
    let mut fast = scenario();
    fast.rate = Rate { bits: 1_000.0_f64.to_bits() };
    assert_eq!(validate_scenario_limits(&config(&[]), &vec![fast], &limits()), Ok(()));
}

#[test]
fn a_scenario_needs_each_target_of_its_dynamic_steps_once() {
    let mut s = scenario();
    s.steps = vec![
        step("a", None, true),
        step("b", Some("http://127.0.0.1:9"), true),
        step("c", Some("http://127.0.0.1:8080"), true),
        step("d", Some("http://127.0.0.1:7"), false),
    ];
    assert_eq!(required_endpoints(&s), ["http://127.0.0.1:8080", "http://127.0.0.1:9"]);
    assert_eq!(required_descriptor_set("s", Some("d.bin".to_string())), Ok("d.bin".to_string()));
    assert_eq!(
        required_descriptor_set("s", None),
        Err("scenario 's' uses dynamic gRPC but PULSE_GRPC_DESCRIPTOR_SET is unset".to_string())
    );
    assert_eq!(
        unreadable_descriptor_set("d.bin", "denied"),
        "could not read gRPC descriptor set 'd.bin': denied"
    );
    assert_eq!(
        invalid_step("s", "pay", "no method"),
        "scenario 's' step 'pay' failed startup validation: no method"
    );
}

#[test]
fn the_node_starts_with_all_scenarios_or_with_a_part_where_that_is_allowed() {
    let problems = || vec![None, Some("first".to_string()), None, Some("second".to_string())];
    assert_eq!(startable_plans(&problems(), true), Ok(vec![0, 2]));
    assert_eq!(startable_plans(&problems(), false), Err("first".to_string()));
    assert_eq!(startable_plans(&vec![None, None], false), Ok(vec![0, 1]));
    assert_eq!(
        startable_plans(&vec![Some("a".to_string()), Some("b".to_string())], true),
        Err("no valid scenarios remain after initialization: a; b".to_string())
    );
    assert_eq!(
        startable_plans(&Vec::new(), true),
        Err("no valid scenarios remain after initialization".to_string())
    );
}

#[test]
fn targets_have_three_attempts_to_become_ready() {
    assert_eq!(connect_budget(Duration::from_secs(5)), Duration::from_secs(15));
    assert_eq!(connect_budget(Duration::from_millis(10)), Duration::from_secs(1));
    assert_eq!(connect_budget(Duration::MAX), Duration::MAX);
    assert_eq!(
        target_not_ready("http://t", Duration::from_secs(15)),
        "gRPC target 'http://t' did not become ready within 15000 ms"
    );
}

#[test]
fn a_dry_run_lists_plans_and_slices() {
    let load = || SliceLoad {
        rate_text: "2.500000000000".to_string(),
        max_concurrency: 2,
        startup_burst: 0,
        duration: Duration::from_secs(10),
    };
    let plan = DryRunPlan {
        name: "checkout".to_string(),
        endpoint: "http://t".to_string(),
        duration: Duration::from_secs(10),
        repeat_text: "Once".to_string(),
        loads: vec![load(), load()],
    };
    assert_eq!(
        dry_run_lines(&vec![plan]),
        [
            "Pulse dry run (no target traffic, Kafka, or Redis operations):",
            "scenario=checkout endpoint=http://t duration_ms=10000 repeat=Once slices=2",
            "  slice=0/2 scenarios_per_sec=2.500000000000 max_concurrency=2 startup_burst=0 duration_ms=10000",
            "  slice=1/2 scenarios_per_sec=2.500000000000 max_concurrency=2 startup_burst=0 duration_ms=10000",
        ]
    );
}

#[test]
fn parts_are_started_with_the_settings_of_the_node() {
    let config = config(&[("PULSE_KAFKA_TOPIC_PARTITIONS", "6")]);
    let topics = required_kafka_topics(&config);
    assert_eq!(topics.len(), 4);
    assert_eq!(topics[0], config.kafka_jobs_topic);
    assert_eq!(topics[3], config.kafka_dlq_topic);
    assert!(managed_topics(&config).iter().all(|t| t.partitions == 6 && t.replication_factor == 1));
    let producer = producer_settings(&config);
    assert_eq!(producer.acks, "all");
    assert!(producer.validate().is_ok());
    let consumer = consumer_settings(&config);
    assert_eq!(consumer.record_max_bytes, 1_000_000);
    assert!(consumer.validate().is_ok());
    let node = node_settings(&config);
    assert_eq!(node.max_processing_interval, Duration::from_secs(299));
    assert_eq!(node.scenario_timeout, Some(Duration::from_secs(30)));
    let aggregation = aggregation_settings(&config);
    assert_eq!(aggregation.outbox_batch_limit, config.aggregation_scan_batch);
    assert!(serves_metrics(&config));
    let stores = match runtime_stores(&config) {
        Ok(stores) => stores,
        Err(error) => panic!("{error:?}"),
    };
    assert_eq!(stores.execution_store.lease_ttl(), Duration::from_secs(30));
    assert_eq!(stores.elector.operation_timeout(), Duration::from_secs(2));
    assert!(stores.aggregation.is_some());
    let (taking, _) = stores.elector.acquire_call().expect("the time to live is valid");
    let fence = format!("{}:fence", config.redis_leader_key);
    assert_eq!(taking.keys, vec![config.redis_leader_key.clone(), fence]);
}

#[test]
fn without_aggregation_there_is_no_store_for_it() {
    let config = config(&[("PULSE_AGGREGATION_ENABLED", "false")]);
    match runtime_stores(&config) {
        Ok(stores) => assert!(stores.aggregation.is_none()),
        Err(error) => panic!("{error:?}"),
    }
    let mut broken = config;
    broken.aggregation_enabled = true;
    broken.aggregation_max_error_kinds = 0;
    assert!(runtime_stores(&broken).is_err());
}

#[test]
fn parts_that_end_unexpectedly_end_the_node() {
    let end = || ComponentEnd::Finished("scheduler/worker runtime".to_string());
    assert_eq!(component_exit(true, end()), None);
    assert_eq!(
        component_exit(false, end()),
        Some("scheduler/worker runtime exited unexpectedly".to_string())
    );
    assert_eq!(
        component_exit(false, ComponentEnd::Failed("broken".to_string())),
        Some("broken".to_string())
    );
    assert_eq!(
        component_exit(false, ComponentEnd::Lost("panic".to_string())),
        Some("runtime component panicked or was cancelled: panic".to_string())
    );
    assert_eq!(
        component_exit(false, ComponentEnd::NoneLeft),
        Some("all runtime components exited unexpectedly".to_string())
    );
    assert_eq!(
        metrics_server_exit("Ok(())"),
        "metrics/health server exited while the runtime was active: Ok(())"
    );
    assert_eq!(run_outcome(None), Ok(()));
    assert_eq!(run_outcome(Some("broken".to_string())), Err("broken".to_string()));
}

#[test]
fn joining_outlasts_draining() {
    let config = config(&[]);
    let expected = config.shutdown_drain_timeout
        + config.leader_renew_interval * 2
        + config.kafka_request_timeout
        + Duration::from_secs(1);
    assert_eq!(runtime_join_timeout(&config), expected);
    let mut endless = config;
    endless.shutdown_drain_timeout = Duration::MAX;
    assert_eq!(runtime_join_timeout(&endless), Duration::MAX);
}

#[test]
fn waits_end_with_a_shutdown() {
    assert_eq!(wait_allowed(false), Ok(()));
    assert_eq!(wait_allowed(true), Err("shutdown requested".to_string()));
    assert_eq!(wait_ended(WaitEvent::Elapsed, true), Ok(()));
    assert_eq!(wait_ended(WaitEvent::Changed, false), Ok(()));
    assert_eq!(wait_ended(WaitEvent::Changed, true), Err("shutdown requested".to_string()));
    assert_eq!(
        wait_ended(WaitEvent::Closed, false),
        Err("shutdown signal channel closed".to_string())
    );
    assert_eq!(next_attempt(0), 1);
    assert_eq!(next_attempt(u32::MAX), u32::MAX);
    assert_eq!(
        startup_expired(Duration::from_secs(60)),
        "startup deadline of 60000 ms expired before all required dependencies became ready"
    );
}

#[test]
fn clients_write_and_read_the_topics_of_the_settings() {
    let with = config(&[]);
    let topics = client_topics(&with);
    assert_eq!(topics.jobs, with.kafka_jobs_topic);
    assert_eq!(topics.results, with.kafka_results_topic);
    assert_eq!(topics.dead_letters, with.kafka_dlq_topic);
    assert_eq!(topics.summaries.as_ref(), Some(&with.kafka_summaries_topic));
    assert_eq!(topics.job_source.group_id, with.kafka_group_id);
    assert_eq!(topics.job_source.topic, with.kafka_jobs_topic);
    let source = topics.result_source.expect("runs are aggregated");
    assert_eq!(source.group_id, with.kafka_aggregator_group_id);
    assert_eq!(source.topic, with.kafka_results_topic);
    let without = client_topics(&config(&[("PULSE_AGGREGATION_ENABLED", "false")]));
    assert!(without.summaries.is_none() && without.result_source.is_none());
}

#[test]
fn copies_of_the_configuration_are_equal() {
    let config = config(&[("PULSE_SCENARIOS_FILE", "scenarios.json")]);
    assert_eq!(format!("{:?}", config.clone()), format!("{config:?}"));
}
