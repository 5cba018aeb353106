//! Liveness, readiness and metrics.
use pulse::health::{
    liveness_reply, metrics_reply, readiness_diagnostic, readiness_reply, HealthSnapshot,
    HealthState,
};
use pulse::metrics::{
    build_info, describe_metric, observe_kafka_publish, observe_schedule_lag,
    record_execution_lease, record_scenario_execution, record_scenario_inflight_dec,
    record_scenario_inflight_inc, record_step_execution, record_worker_job_commit_success,
    record_worker_job_received, set_incomplete_dispatch_slices, set_is_leader,
    set_retry_queue_depth, Change, MetricId, MetricKind, MetricUpdate, RuntimeMetrics,
};
use pulse::runtime::startup::{startup_step_done, StartupStep};
use std::sync::{Arc, Mutex};
use std::time::Duration;

fn mark_all_ready(health: &mut HealthState) {
    health.set_config_loaded(true);
    health.set_redis_ready(true);
    health.set_kafka_topics_ready(true);
    health.set_kafka_producers_ready(true);
    health.set_kafka_consumer_ready(true);
    health.set_scenarios_initialized(true);
    health.set_worker_accepting(true);
}

#[test]
fn readiness_fails_closed_and_reports_missing_requirements() {
    let health = HealthState::new();

    assert!(!health.is_ready());
    assert_eq!(
        readiness_diagnostic(health.snapshot()),
        "not ready: missing=config,redis,kafka_topics,kafka_producers,kafka_consumer,scenarios,worker\n"
    );
}

#[test]
fn readiness_requires_every_runtime_milestone() {
    let mut health = HealthState::new();
    mark_all_ready(&mut health);

    assert!(health.is_ready());
    assert_eq!(readiness_diagnostic(health.snapshot()), "ready\n");

    health.set_redis_ready(false);
    assert!(!health.is_ready());
    assert_eq!(
        readiness_diagnostic(health.snapshot()),
        "not ready: missing=redis\n"
    );

    health.set_redis_ready(true);
    health.set_kafka_topics_ready(false);
    assert!(!health.is_ready());
    assert_eq!(
        readiness_diagnostic(health.snapshot()),
        "not ready: missing=kafka_topics\n"
    );
}

#[test]
fn clones_share_state_and_draining_overrides_readiness() {
    let health = Arc::new(Mutex::new(HealthState::new()));
    let runtime_health = health.clone();
    mark_all_ready(&mut runtime_health.lock().unwrap());

    assert!(health.lock().unwrap().is_ready());

    runtime_health.lock().unwrap().begin_draining();
    assert!(!health.lock().unwrap().is_ready());
    assert_eq!(
        readiness_diagnostic(health.lock().unwrap().snapshot()),
        "not ready: missing=worker; draining\n"
    );
}

#[test]
fn readiness_diagnostic_is_bounded() {
    let diagnostic = readiness_diagnostic(HealthState::new().snapshot());

    assert!(diagnostic.len() <= 128);
}

#[test]
fn every_diagnostic_is_bounded_and_tells_readiness() {
    for bits in 0..256_u32 {
        let bit = |i: u32| (bits >> i) & 1 == 1;
        let snapshot = HealthSnapshot {
            config_loaded: bit(0),
            redis_ready: bit(1),
            kafka_topics_ready: bit(2),
            kafka_producers_ready: bit(3),
            kafka_consumer_ready: bit(4),
            scenarios_initialized: bit(5),
            worker_accepting: bit(6),
            draining: bit(7),
        };
        let diagnostic = readiness_diagnostic(snapshot);
        assert!(diagnostic.len() <= 128);
        assert_eq!(diagnostic == "ready\n", snapshot.is_ready());
    }
    let all_but_draining = HealthSnapshot {
        config_loaded: true,
        redis_ready: true,
        kafka_topics_ready: true,
        kafka_producers_ready: true,
        kafka_consumer_ready: true,
        scenarios_initialized: true,
        worker_accepting: true,
        draining: true,
    };
    assert_eq!(readiness_diagnostic(all_but_draining), "not ready: draining\n");
}

#[test]
fn health_handlers_return_independent_statuses() {
    let mut health = HealthState::default();

    let live = liveness_reply();
    let not_ready = readiness_reply(health.snapshot());
    assert_eq!((live.status, live.body.as_str()), (200, "live\n"));
    assert_eq!(not_ready.status, 503);

    mark_all_ready(&mut health);
    let ready = readiness_reply(health.snapshot());
    assert_eq!((ready.status, ready.body.as_str()), (200, "ready\n"));
    assert_eq!(ready.content_type, "text/plain; charset=utf-8");
}

#[test]
fn metrics_are_answered_as_they_were_encoded() {
    let reply = metrics_reply(Ok(b"pulse 1\n".to_vec()), "text/plain; version=0.0.4");
    assert_eq!((reply.status, reply.body.as_str()), (200, "pulse 1\n"));
    assert_eq!(reply.content_type, "text/plain; version=0.0.4");
    let reply = metrics_reply(Err("no metrics".to_string()), "text/plain");
    assert_eq!((reply.status, reply.body.as_str()), (500, "failed to encode metrics: no metrics"));
    let reply = metrics_reply(Ok(vec![0xff]), "text/plain");
    assert_eq!(reply.status, 500);
    assert_eq!(
        reply.body,
        "failed to build metrics response: invalid utf-8 sequence of 1 bytes from index 0"
    );
}

#[test]
fn the_node_becomes_ready_when_all_startup_steps_are_done() {
    for manages_topics in [false, true] {
        let mut health = HealthState::new();
        health.set_config_loaded(true);
        let mut step = StartupStep::WaitForServices;
        let mut steps = 0;
        while step != StartupStep::Finished {
            assert!(!health.is_ready());
            step = startup_step_done(step, manages_topics, &mut health);
            steps += 1;
        }
        assert_eq!(steps, if manages_topics { 6 } else { 5 });
        assert_eq!(readiness_diagnostic(health.snapshot()), "not ready: missing=worker\n");
        health.set_worker_accepting(true);
        assert!(health.is_ready());
    }
}

fn shown(updates: &[MetricUpdate]) -> Vec<(MetricId, Vec<String>, String)> {
    updates
        .iter()
        .map(|update| {
            let change = match &update.change {
                Change::Increment => "+1".to_string(),
                Change::Decrement => "-1".to_string(),
                Change::SetTo(n) => format!("={n}"),
                Change::Observe(d) => format!("{}ms", d.as_millis()),
            };
            (update.metric, update.labels.clone(), change)
        })
        .collect()
}

fn texts(values: &[&str]) -> Vec<String> {
    values.iter().map(|value| value.to_string()).collect()
}

#[test]
fn every_metric_is_registered_once() {
    let metrics = RuntimeMetrics::new();
    assert_eq!(metrics.specs.len(), 36);
    let mut names: Vec<&str> = metrics.specs.iter().map(|spec| spec.name).collect();
    names.sort();
    names.dedup();
    assert_eq!(names.len(), 36);
    for spec in &metrics.specs {
        assert!(spec.name.starts_with("pulse_"));
        assert_eq!(spec.kind == MetricKind::Histogram, !spec.buckets.is_empty());
    }
    let lag = describe_metric(MetricId::SchedulerScheduleLag);
    assert_eq!(lag.name, "pulse_scheduler_schedule_lag_seconds");
    assert_eq!(lag.labels, vec!["scenario"]);
    assert_eq!(lag.buckets, vec![10, 50, 100, 250, 500, 1_000, 2_500, 5_000, 15_000, 60_000]);
}

#[test]
fn updates_name_the_metric_its_labels_and_the_change() {
    assert_eq!(shown(&set_is_leader(true)), [(MetricId::SchedulerIsLeader, texts(&[]), "=1".to_string())]);
    assert_eq!(shown(&set_is_leader(false)), [(MetricId::SchedulerIsLeader, texts(&[]), "=0".to_string())]);
    assert_eq!(
        shown(&set_incomplete_dispatch_slices("checkout", 4)),
        [(MetricId::SchedulerIncompleteDispatchSlices, texts(&["checkout"]), "=4".to_string())]
    );
    assert_eq!(
        shown(&observe_schedule_lag("checkout", Duration::from_millis(30))),
        [(MetricId::SchedulerScheduleLag, texts(&["checkout"]), "30ms".to_string())]
    );
    assert_eq!(
        shown(&record_execution_lease("acquired")),
        [(MetricId::WorkerExecutionLease, texts(&["acquired"]), "+1".to_string())]
    );
    assert_eq!(
        shown(&observe_kafka_publish("result", Duration::from_millis(5), false)),
        [(
            MetricId::WorkerKafkaPublishDuration,
            texts(&["result", "failed"]),
            "5ms".to_string()
        )]
    );
    assert_eq!(
        shown(&record_scenario_execution("checkout", Duration::from_secs(1), true)),
        [
            (MetricId::ScenarioExecutions, texts(&["checkout", "success"]), "+1".to_string()),
            (MetricId::ScenarioDuration, texts(&["checkout", "success"]), "1000ms".to_string()),
        ]
    );
    assert_eq!(
        shown(&record_step_execution("checkout", "pay", Duration::from_secs(2), false)),
        [
            (MetricId::StepExecutions, texts(&["checkout", "pay", "failure"]), "+1".to_string()),
            (MetricId::StepDuration, texts(&["checkout", "pay", "failure"]), "2000ms".to_string()),
        ]
    );
    assert_eq!(
        shown(&build_info("1.2.3")),
        [(MetricId::BuildInfo, texts(&["1.2.3"]), "=1".to_string())]
    );
}

#[test]
fn uncommitted_jobs_are_those_received_less_those_committed() {
    let history = [
        record_worker_job_received(),
        record_worker_job_received(),
        record_scenario_execution("checkout", Duration::from_secs(1), true),
        record_worker_job_commit_success(),
        record_scenario_execution("checkout", Duration::from_secs(2), false),
        record_worker_job_received(),
    ];
    let all: Vec<(MetricId, Vec<String>, String)> =
        history.iter().flat_map(|updates| shown(updates)).collect();
    let value = |metric: MetricId| -> i64 {
        all.iter()
            .filter(|update| update.0 == metric)
            .map(|update| if update.2 == "-1" { -1 } else { 1 })
            .sum()
    };
    assert_eq!(value(MetricId::WorkerJobsReceived), 3);
    assert_eq!(value(MetricId::WorkerJobCommits), 1);
    assert_eq!(value(MetricId::WorkerUncommittedJobs), 2);
    for status in ["success", "failure"] {
        let labels = texts(&["checkout", status]);
        let under = |metric: MetricId| {
            all.iter().filter(|update| update.0 == metric && update.1 == labels).count()
        };
        assert_eq!(under(MetricId::ScenarioExecutions), 1);
        assert_eq!(under(MetricId::ScenarioDuration), 1);
    }
}

#[test]
fn gauges_return_to_where_they_were() {
    let mut uncommitted = 0;
    for update in record_worker_job_received().iter().chain(record_worker_job_commit_success().iter()) {
        if update.metric == MetricId::WorkerUncommittedJobs {
            uncommitted += match update.change {
                Change::Increment => 1,
                Change::Decrement => -1,
                _ => panic!("a gauge that counts"),
            };
        }
    }
    assert_eq!(uncommitted, 0);
    assert_eq!(
        shown(&record_scenario_inflight_inc("a")),
        [(MetricId::ScenarioInflight, texts(&["a"]), "+1".to_string())]
    );
    assert_eq!(
        shown(&record_scenario_inflight_dec("a")),
        [(MetricId::ScenarioInflight, texts(&["a"]), "-1".to_string())]
    );
}

#[test]
fn the_retry_queue_holds_one_settlement_at_most() {
    for (depth, held) in [(-3, "=0"), (0, "=0"), (1, "=1"), (9, "=1")] {
        assert_eq!(
            shown(&set_retry_queue_depth(depth)),
            [(MetricId::WorkerRetryQueueDepth, texts(&[]), held.to_string())]
        );
    }
}
