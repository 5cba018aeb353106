//! What is asked of Redis, and what its answers mean.
use pulse::aggregation::{
    RedisRunAggregationStore, RunAggregationUpdate, RunExpiryOutcome, RunFinalizationOutcome,
    SummaryAcknowledgement, MAX_EXACT_LUA_INTEGER,
};
use pulse::aggregation_scripts::INGEST_SCRIPT;
use pulse::contracts::{
    ContractError, ErrorCount, JobSlice, LatencyBucket, ScenarioRunResult, ScenarioRunStatus,
    ScenarioRunSummaryStatus, CURRENT_CONTRACT_VERSION,
};
use pulse::coordination::{
    redis_operation, ClaimOutcome, CoordinationError, DispatchOutcome, DispatchProgress,
    DispatchSpec, DispatchWindow, Exchange, ExecutionClaim, ExecutionLease, LeaderLease,
    LeadershipOutcome, ReleaseOutcome, RepeatPolicy, TerminalOutcome,
};
use pulse::dispatch::RedisDueStateStore;
use pulse::execution::RedisIdempotencyStore;
use pulse::kafka::dead_letter::build_terminal_event_id;
use pulse::keys::redis_hash_tag;
use pulse::leader::RedisLeaderElector;
use pulse::quantile::{histogram_quantile, quantile_rank, Quantile};
use pulse::snapshot::{
    durable_summary_from_snapshot, summary_from_snapshot, RunAggregationStoreError,
};
use std::time::Duration;

fn texts(values: &[&str]) -> Vec<String> {
    values.iter().map(|value| value.to_string()).collect()
}

fn result(error_breakdown: Vec<ErrorCount>) -> ScenarioRunResult {
    let execution_key = "run:slice-0-of-2".to_string();
    let failure = error_breakdown.iter().map(|error| error.count).sum::<u64>();
    ScenarioRunResult {
        schema_version: CURRENT_CONTRACT_VERSION,
        scenario_id: "checkout".to_string(),
        run_id: "run".to_string(),
        event_id: build_terminal_event_id(&execution_key, 0, "result"),
        attempt: 0,
        execution_key,
        slice: JobSlice { index: 0, total: 2 },
        started_at_unix_ms: 1,
        finished_at_unix_ms: 2,
        status: if failure == 0 {
            ScenarioRunStatus::Success
        } else {
            ScenarioRunStatus::Failed
        },
        total: 3,
        success: 3 - failure,
        failure,
        scenario_latency_p50_ms: 10,
        scenario_latency_p95_ms: 100,
        scenario_latency_p99_ms: 100,
        latency_histogram: vec![
            LatencyBucket { upper_bound_ms: 10, count: 2 },
            LatencyBucket { upper_bound_ms: 100, count: 1 },
        ],
        error_breakdown,
    }
}

fn error(kind: &str, count: u64) -> ErrorCount {
    ErrorCount { kind: kind.to_string(), count }
}

fn store(max_error_kinds: usize) -> RedisRunAggregationStore {
    RedisRunAggregationStore::new(
        "test:aggregate".to_string(),
        Duration::from_secs(10),
        Duration::from_secs(60),
    )
    .unwrap()
    .with_max_error_kinds(max_error_kinds)
    .unwrap()
}

fn partial_snapshot() -> Vec<String> {
    texts(&[
        "scenario_id",
        "checkout",
        "run_id",
        "run",
        "schema_version",
        "2",
        "expected_slices",
        "2",
        "received_slices",
        "1",
        "status",
        "partial",
        "total",
        "3",
        "success",
        "2",
        "failure",
        "1",
        "histogram_bounds",
        "10,100",
        "latency:0",
        "2",
        "latency:1",
        "1",
        "error_kind_count",
        "1",
        "error:target",
        "1",
        "slice:1",
        "execution-1",
        "first_result_at",
        "100",
        "finalized_at",
        "220",
    ])
}

fn durable_snapshot() -> Vec<String> {
    texts(&[
        "scenario_id",
        "checkout",
        "run_id",
        "run",
        "schema_version",
        "2",
        "expected_slices",
        "2",
        "received_slices",
        "1",
        "status",
        "timed_out",
        "total",
        "1",
        "success",
        "1",
        "failure",
        "0",
        "histogram_bounds",
        "10",
        "latency:0",
        "1",
        "error_kind_count",
        "0",
        "slice:0",
        "execution-0",
        "first_result_at",
        "100",
        "finalized_at",
        "220",
        "summary_revision",
        "2",
        "summary_pending_revision",
        "2",
        "summary_ack_revision",
        "1",
    ])
}

fn with_field(mut snapshot: Vec<String>, name: &str, value: &str) -> Vec<String> {
    let place = snapshot.iter().position(|text| text == name).expect("the field is there");
    snapshot[place + 1] = value.to_string();
    snapshot
}

#[test]
fn normalization_rejects_duplicate_error_kinds_as_contract_input() {
    let contract = Err(ContractError::InvalidResult("duplicate error kind 'target'".to_string()));
    let error = store(4)
        .normalize_result(&result(vec![error("target", 1), error("target", 2)]), contract)
        .unwrap_err();
    assert!(matches!(
        error,
        RunAggregationStoreError::Contract(ContractError::InvalidResult(_))
    ));
}

#[test]
fn normalization_enforces_bounded_cardinality_and_exact_counters() {
    let capacity_error = store(1)
        .normalize_result(&result(vec![error("one", 1), error("two", 1)]), Ok(()))
        .unwrap_err();
    assert!(matches!(
        capacity_error,
        RunAggregationStoreError::ErrorKindCapacity { max_error_kinds: 1 }
    ));

    let mut oversized = result(Vec::new());
    oversized.schema_version = 1;
    oversized.event_id.clear();
    oversized.total = MAX_EXACT_LUA_INTEGER + 1;
    oversized.success = oversized.total;
    oversized.latency_histogram[0].count = oversized.total;
    oversized.latency_histogram[1].count = 0;
    assert!(matches!(
        store(4).normalize_result(&oversized, Ok(())),
        Err(RunAggregationStoreError::Contract(ContractError::InvalidResult(_)))
    ));
}

#[test]
fn normalization_orders_and_merges_error_kinds() {
    let normalized = store(4)
        .normalize_result(
            &result(vec![error("zeta", 1), error("alpha", 1), error("zeta", 1)]),
            Ok(()),
        )
        .expect("the result can be counted");
    assert_eq!(normalized.histogram_bounds, "10,100");
    assert_eq!(normalized.histogram_counts, vec![2, 1]);
    assert_eq!(
        normalized.error_counts,
        vec![("alpha".to_string(), 1), ("zeta".to_string(), 2)]
    );
}

#[test]
fn snapshot_summary_detects_missing_slices_and_merges_histogram() {
    let summary = summary_from_snapshot(&partial_snapshot(), "test").unwrap();
    assert_eq!(summary.status, ScenarioRunSummaryStatus::Partial);
    assert_eq!(summary.missing_slices, vec![0]);
    assert_eq!(summary.scenario_latency_p50_ms, 10);
    assert_eq!(summary.scenario_latency_p95_ms, 100);
    assert_eq!(summary.error_breakdown, vec![error("target", 1)]);
}

#[test]
fn a_snapshot_that_does_not_add_up_is_refused() {
    for (name, value) in [
        ("total", "4"),
        ("received_slices", "2"),
        ("status", "open"),
        ("schema_version", "x"),
        ("error_kind_count", "2"),
        ("histogram_bounds", "100,10"),
    ] {
        let snapshot = with_field(partial_snapshot(), name, value);
        assert!(
            matches!(
                summary_from_snapshot(&snapshot, "test"),
                Err(RunAggregationStoreError::InvalidState { operation: "test", .. })
            ),
            "{name}={value}"
        );
    }
    let mut odd = partial_snapshot();
    odd.pop();
    assert!(summary_from_snapshot(&odd, "test").is_err());
}

#[test]
fn durable_snapshot_exposes_deterministic_revision_and_outbox_state() {
    let durable = durable_summary_from_snapshot(&durable_snapshot(), "test")
        .unwrap()
        .expect("finalized summary");
    assert_eq!(durable.revision, 2);
    assert_eq!(durable.event_id, "run:summary:r2:timed-out");
    assert!(durable.pending_publication);
    assert_eq!(durable.summary.status, ScenarioRunSummaryStatus::TimedOut);
}

#[test]
fn configuration_and_scan_bounds_fail_fast() {
    assert!(matches!(
        RedisRunAggregationStore::new(
            "test:{caller-controlled}".to_string(),
            Duration::from_secs(1),
            Duration::from_secs(60),
        ),
        Err(RunAggregationStoreError::InvalidState { .. })
    ));
    assert!(matches!(
        RedisRunAggregationStore::new(
            "test".to_string(),
            Duration::from_secs(60),
            Duration::from_secs(60),
        ),
        Err(RunAggregationStoreError::InvalidState { .. })
    ));
    let store = RedisRunAggregationStore::new(
        "test".to_string(),
        Duration::from_secs(1),
        Duration::from_secs(60),
    )
    .unwrap()
    .with_max_scan_limit(4)
    .unwrap();
    assert!(store.validate_scan_limit(0).is_err());
    assert!(store.validate_scan_limit(5).is_err());
    assert_eq!(store.validate_scan_limit(4), Ok(4));
}

#[test]
fn every_multi_key_aggregation_operation_uses_the_runs_hash_tag() {
    fn hash_tag(key: &str) -> Option<&str> {
        let (_, suffix) = key.split_once('{')?;
        let (tag, _) = suffix.split_once('}')?;
        if tag.is_empty() {
            None
        } else {
            Some(tag)
        }
    }

    let store = RedisRunAggregationStore::new(
        "pulse:test:aggregation".to_string(),
        Duration::from_secs(1),
        Duration::from_secs(60),
    )
    .unwrap();
    let keys = [
        store.key_for_run("run-1"),
        store.deadline_key(),
        store.outbox_key(),
        store.active_key(),
    ];
    assert!(
        keys.iter().all(|key| hash_tag(key) == Some("runs")),
        "all aggregation script keys must resolve to the same Redis Cluster slot: {keys:?}"
    );
    assert!(keys.iter().all(|key| redis_hash_tag(key) == Some("runs".to_string())));
    assert_eq!(redis_hash_tag("no tag"), None);
    assert_eq!(redis_hash_tag("an {} empty tag"), None);
}

#[test]
fn results_are_handed_in_with_all_keys_and_counts() {
    let call = store(4)
        .ingest_call(&result(vec![error("target", 1)]), Ok(()))
        .expect("the result can be handed in");
    assert_eq!(
        call.keys,
        texts(&[
            "test:aggregate:{runs}:run:run",
            "test:aggregate:{runs}:deadlines",
            "test:aggregate:{runs}:summary-outbox",
            "test:aggregate:{runs}:active",
        ])
    );
    for expected in ["checkout", "run", "run:slice-0-of-2", "10,100", "target", "10000", "60000"] {
        assert!(call.args.iter().any(|arg| arg == expected), "{expected}: {:?}", call.args);
    }
}

#[test]
fn answers_to_a_handed_in_result_are_told_apart() {
    let store = store(4);
    let open = with_field(partial_snapshot(), "status", "open");
    let none: Vec<String> = Vec::new();
    assert_eq!(
        store.ingest_reply(1, String::new(), &open),
        Ok(RunAggregationUpdate::Accepted { received_slices: 1, expected_slices: 2 })
    );
    assert_eq!(
        store.ingest_reply(2, String::new(), &partial_snapshot()),
        Ok(RunAggregationUpdate::Duplicate {
            received_slices: 1,
            expected_slices: 2,
            finalized_status: Some(ScenarioRunSummaryStatus::Partial),
        })
    );
    assert!(matches!(
        store.ingest_reply(3, String::new(), &partial_snapshot()),
        Ok(RunAggregationUpdate::Completed(summary)) if summary.total == 3
    ));
    assert!(matches!(
        store.ingest_reply(4, String::new(), &partial_snapshot()),
        Ok(RunAggregationUpdate::LateCompleted(_))
    ));
    assert!(matches!(
        store.ingest_reply(5, "stored state is broken".to_string(), &none),
        Err(RunAggregationStoreError::InvalidState { .. })
    ));
    assert_eq!(
        store.ingest_reply(6, String::new(), &none),
        Err(RunAggregationStoreError::ErrorKindCapacity { max_error_kinds: 4 })
    );
    assert_eq!(
        store.ingest_reply(7, String::new(), &open),
        Ok(RunAggregationUpdate::LateAccepted { received_slices: 1, expected_slices: 2 })
    );
    assert!(matches!(
        store.ingest_reply(8, String::new(), &none),
        Err(RunAggregationStoreError::ActiveRunCapacity { .. })
    ));
    assert_eq!(
        store.ingest_reply(9, "counter overflow".to_string(), &none),
        Err(RunAggregationStoreError::Contract(ContractError::InvalidResult(
            "counter overflow".to_string()
        )))
    );
    assert!(matches!(
        store.ingest_reply(77, String::new(), &none),
        Err(RunAggregationStoreError::InvalidState { message, .. })
            if message == "unknown Redis response code 77"
    ));
}

#[test]
fn runs_expire_end_and_are_acknowledged() {
    let store = store(4);
    assert_eq!(store.due_runs_call(3).unwrap().args, texts(&["3"]));
    assert!(store.due_runs_call(0).is_err());
    assert_eq!(store.mark_expired_call("run").unwrap().args, texts(&["60000", "run"]));
    assert!(store.mark_expired_call(" ").is_err());
    assert_eq!(
        store.mark_expired_reply(0, String::new(), &Vec::new()),
        Ok(RunExpiryOutcome::Missing)
    );
    assert_eq!(
        store.mark_expired_reply(1, "250".to_string(), &Vec::new()),
        Ok(RunExpiryOutcome::NotExpired { retry_after: Duration::from_millis(250) })
    );
    assert!(store.finalize_run_call("run", ScenarioRunSummaryStatus::Cancelled).is_ok());
    assert!(matches!(
        store.finalize_run_reply(1, String::new(), &durable_snapshot()),
        Ok(RunFinalizationOutcome::Finalized(summary))
            if summary.status == ScenarioRunSummaryStatus::TimedOut
    ));
    assert_eq!(
        store.load_summary_key("run").unwrap(),
        "test:aggregate:{runs}:run:run".to_string()
    );
    assert_eq!(store.load_summary_reply(&Vec::new()), Ok(None));
    let ids = texts(&["run", "gone"]);
    let (summaries, stale) = store
        .pending_summaries_reply(&ids, &vec![durable_snapshot(), Vec::new()])
        .expect("one waits, one is settled");
    assert_eq!(summaries.len(), 1);
    assert_eq!(stale, texts(&["gone"]));
    assert!(store.acknowledge_summary_call("run", 0).is_err());
    assert!(store.acknowledge_summary_call("run", 2).is_ok());
    assert_eq!(
        store.acknowledge_summary_reply(3, 5, String::new()),
        Ok(SummaryAcknowledgement::Stale { current_revision: 5 })
    );
    assert_eq!(store.clean_outbox_call("run").args, texts(&["run"]));
}

#[test]
fn quantiles_are_bounds_of_buckets() {
    let buckets = vec![
        LatencyBucket { upper_bound_ms: 10, count: 50 },
        LatencyBucket { upper_bound_ms: 100, count: 45 },
        LatencyBucket { upper_bound_ms: 1_000, count: 5 },
    ];
    assert_eq!(histogram_quantile(&buckets, Quantile::P50), 10);
    assert_eq!(histogram_quantile(&buckets, Quantile::P95), 100);
    assert_eq!(histogram_quantile(&buckets, Quantile::P99), 1_000);
    assert_eq!(histogram_quantile(&Vec::new(), Quantile::P50), 0);
}

#[test]
fn exchanges_that_fail_or_take_too_long_are_errors() {
    assert_eq!(redis_operation("op", Exchange::Done(7)), Ok(7));
    assert_eq!(
        redis_operation::<i64>("op", Exchange::Failed("refused".to_string())),
        Err(CoordinationError::Unavailable { operation: "op", message: "refused".to_string() })
    );
    assert_eq!(
        redis_operation::<i64>("op", Exchange::TimedOut),
        Err(CoordinationError::Timeout { operation: "op" })
    );
}

fn elector() -> RedisLeaderElector {
    RedisLeaderElector::new("pulse:{c}:leader".to_string(), "node-1".to_string(), 9_000)
        .with_operation_timeout(Duration::from_secs(1))
}

fn lease() -> LeaderLease {
    LeaderLease {
        lock_key: "pulse:{c}:leader".to_string(),
        node_id: "node-1".to_string(),
        owner_token: "node-1:token".to_string(),
        fencing_token: 7,
        expires_at_unix_ms: 1_000,
        ttl: Duration::from_secs(9),
    }
}

#[test]
fn leadership_is_taken_under_a_fresh_owner() {
    let elector = elector();
    let (first, owner) = elector.acquire_call().expect("the time to live is valid");
    let (_, other) = elector.acquire_call().expect("the time to live is valid");
    assert_ne!(owner, other);
    assert!(owner.starts_with("node-1:"));
    assert_eq!(owner.len(), "node-1:".len() + 36);
    assert_eq!(first.keys, texts(&["pulse:{c}:leader", "pulse:{c}:leader:fence"]));
    assert!(first.args.contains(&owner) && first.args.contains(&"9000".to_string()));
    assert!(matches!(
        elector.acquire_reply(owner.clone(), 1, 8, 10_000, 0, ""),
        Ok(LeadershipOutcome::Acquired(lease))
            if lease.fencing_token == 8 && lease.owner_token == owner
    ));
    assert!(matches!(
        elector.acquire_reply(owner.clone(), 2, 0, 0, 40, ""),
        Ok(LeadershipOutcome::Follower { retry_after }) if retry_after == Duration::from_millis(40)
    ));
    assert!(elector.acquire_reply(owner, 99, 0, 0, 0, "").is_err());
}

#[test]
fn leadership_is_renewed_and_given_up_by_its_owner_only() {
    let elector = elector();
    assert!(elector.renew_call(&lease()).is_ok());
    let mut foreign = lease();
    foreign.lock_key = "another".to_string();
    assert!(elector.renew_call(&foreign).is_err());
    assert!(matches!(
        elector.renew_reply(&lease(), 1, 12_000, ""),
        Ok(LeadershipOutcome::Renewed(renewed))
            if renewed.expires_at_unix_ms == 12_000 && renewed.fencing_token == 7
    ));
    assert_eq!(elector.relinquish_call(&lease()).unwrap().args, texts(&["node-1:token", "7"]));
    assert_eq!(elector.relinquish_reply(1), Ok(()));
    assert_eq!(
        elector.relinquish_reply(2),
        Err(CoordinationError::StaleOwner { operation: "leader_relinquish" })
    );
}

fn spec() -> DispatchSpec {
    DispatchSpec {
        scenario_id: "checkout".to_string(),
        contract_version: 2,
        total_slices: 3,
        repeat: RepeatPolicy::Every(Duration::from_secs(60)),
        plan_fingerprint: "plan".to_string(),
    }
}

fn window() -> DispatchWindow {
    DispatchWindow {
        scenario_id: "checkout".to_string(),
        run_id: "checkout:w1".to_string(),
        window_id: "w1".to_string(),
        scheduled_at_unix_ms: 1_000,
        contract_version: 2,
        total_slices: 3,
        plan_fingerprint: "plan".to_string(),
        missing_slices: vec![0, 2],
    }
}

#[test]
fn windows_are_prepared_with_their_missing_slices() {
    let store = RedisDueStateStore::new("pulse:{c}:schedule".to_string());
    assert_eq!(store.key_for("checkout"), "pulse:{c}:schedule:checkout");
    assert!(store.prepare_window_call(&spec(), &lease()).is_ok());
    let mut empty = spec();
    empty.total_slices = 0;
    assert!(store.prepare_window_call(&empty, &lease()).is_err());
    let ready = store.prepare_window_reply(&spec(), 1, "w1".to_string(), 1_000, "0,2", 0, "");
    assert!(matches!(
        ready,
        Ok(DispatchOutcome::Ready(window)) if window.missing_slices == vec![0, 2]
    ));
    for raw in ["", "2,0", "0,3", "x"] {
        assert!(
            store.prepare_window_reply(&spec(), 1, "w1".to_string(), 1_000, raw, 0, "").is_err(),
            "{raw}"
        );
    }
    assert!(matches!(
        store.prepare_window_reply(&spec(), 3, String::new(), 0, "", 0, ""),
        Ok(DispatchOutcome::Finished)
    ));
    assert!(matches!(
        store.prepare_window_reply(&spec(), 4, String::new(), 0, "", 0, ""),
        Err(CoordinationError::StaleOwner { .. })
    ));
    assert!(matches!(
        store.prepare_window_reply(&spec(), 1, "w1".to_string(), 1_000, "2", 0, ""),
        Ok(DispatchOutcome::Ready(window)) if window.missing_slices == vec![2]
    ));
}

#[test]
fn published_slices_are_acknowledged_and_runs_registered() {
    let store = RedisDueStateStore::new("pulse:{c}:schedule".to_string());
    assert!(store.ack_slice_call(&window(), 2, &lease()).is_ok());
    assert!(store.ack_slice_call(&window(), 3, &lease()).is_err());
    assert_eq!(
        store.ack_slice_reply(1, 2, ""),
        Ok(DispatchProgress::Pending { remaining_slices: 2 })
    );
    assert_eq!(store.ack_slice_reply(2, 0, ""), Ok(DispatchProgress::Complete));
    assert!(store.register_run_call(&window(), Duration::from_secs(5)).unwrap().is_none());
    let registering = store.with_aggregation_registration(
        "agg".to_string(),
        Duration::from_secs(10),
        Duration::from_secs(60),
        100,
    );
    let call = registering
        .register_run_call(&window(), Duration::from_secs(5))
        .expect("the run can be registered")
        .expect("registration is on");
    assert!(call.args.contains(&"16000".to_string()), "{:?}", call.args);
    assert_eq!(registering.register_run_reply(2, ""), Ok(()));
    assert!(registering.register_run_reply(3, "capacity").is_err());
}

#[test]
fn executions_are_claimed_renewed_completed_and_released() {
    let store = RedisIdempotencyStore::with_timings(
        "pulse:exec".to_string(),
        Duration::from_secs(30),
        Duration::from_secs(3_600),
        Duration::from_secs(1),
    );
    let claim = ExecutionClaim { execution_key: "key".to_string(), attempt: 1 };
    assert_eq!(store.key_for(&claim), "pulse:exec:key:attempt-1");
    let (call, owner) = store.claim_call(&claim).expect("the timings are valid");
    assert_eq!(owner.len(), 36);
    assert_eq!(call.keys, texts(&["pulse:exec:key:attempt-1"]));
    let acquired = store.claim_reply(&claim, owner.clone(), 1, 5_000, 1, "", 0, "");
    let lease: ExecutionLease = match acquired {
        Ok(ClaimOutcome::Acquired(lease)) => lease,
        other => panic!("{other:?}"),
    };
    assert!(lease.recovered && lease.owner_token == owner);
    assert!(store.renew_call(&lease).is_ok());
    assert_eq!(store.renew_reply(&lease, 1, 9_000, "").unwrap().expires_at_unix_ms, 9_000);
    assert!(matches!(
        store.renew_reply(&lease, 2, 0, ""),
        Err(CoordinationError::StaleOwner { .. })
    ));
    let call = store.complete_call(&lease, TerminalOutcome::ResultPublished).unwrap();
    assert!(call.args.contains(&"completed".to_string()));
    let done = store.complete_reply(TerminalOutcome::ResultPublished, 1, 77, "").unwrap();
    assert_eq!(done.completed_at_unix_ms, 77);
    assert_eq!(store.release_call(&lease).args[0], owner);
    assert_eq!(store.release_reply(0, ""), Ok(ReleaseOutcome::AlreadyAbsent));
    assert_eq!(store.release_reply(1, ""), Ok(ReleaseOutcome::Released));
    assert!(store.release_reply(2, "").is_err());
    assert_eq!(TerminalOutcome::parse("dlq_published"), Ok(TerminalOutcome::DeadLetterPublished));
    assert!(TerminalOutcome::parse("unknown").is_err());
}

fn executions() -> RedisIdempotencyStore {
    RedisIdempotencyStore::with_timings(
        "pulse:exec".to_string(),
        Duration::from_secs(30),
        Duration::from_secs(3_600),
        Duration::from_secs(1),
    )
}

fn claim() -> ExecutionClaim {
    ExecutionClaim { execution_key: "key".to_string(), attempt: 1 }
}

fn execution_lease() -> ExecutionLease {
    ExecutionLease {
        execution_key: "key".to_string(),
        attempt: 1,
        owner_token: "owner".to_string(),
        expires_at_unix_ms: 5_000,
        ttl: Duration::from_secs(30),
        recovered: false,
    }
}

fn unavailable(operation: &'static str) -> CoordinationError {
    CoordinationError::Unavailable { operation, message: "refused".to_string() }
}

fn refused<T>() -> Exchange<T> {
    Exchange::Failed("refused".to_string())
}

#[test]
fn a_redis_that_fails_is_an_error_of_every_coordination() {
    let elector = elector();
    let dispatch = RedisDueStateStore::new("pulse:{c}:schedule".to_string());
    let executions = executions();
    let acquired = elector.acquire("node-1:token".to_string(), refused());
    assert_eq!(acquired.err(), Some(unavailable("leader_acquire")));
    assert_eq!(elector.renew(&lease(), refused()).err(), Some(unavailable("leader_renew")));
    assert_eq!(elector.relinquish(refused()).err(), Some(unavailable("leader_relinquish")));
    let prepared = dispatch.prepare_window(&spec(), refused());
    assert_eq!(prepared.err(), Some(unavailable("dispatch_prepare_window")));
    assert_eq!(dispatch.ack_slice(refused()).err(), Some(unavailable("dispatch_ack_slice")));
    let registered = dispatch.register_run(refused());
    assert_eq!(registered.err(), Some(unavailable("aggregation_register_run")));
    let claimed = executions.claim(&claim(), "owner".to_string(), refused());
    assert_eq!(claimed.err(), Some(unavailable("execution_claim")));
    let renewed = executions.renew(&execution_lease(), refused());
    assert_eq!(renewed.err(), Some(unavailable("execution_renew")));
    let completed = executions.complete(TerminalOutcome::ResultPublished, refused());
    assert_eq!(completed.err(), Some(unavailable("execution_complete")));
    assert_eq!(executions.release(refused()).err(), Some(unavailable("execution_release")));
    let silent = executions.claim(&claim(), "owner".to_string(), Exchange::TimedOut);
    assert_eq!(silent.err(), Some(CoordinationError::Timeout { operation: "execution_claim" }));
}

#[test]
fn a_redis_that_fails_is_an_error_of_every_aggregation() {
    let store = store(3);
    let down = |operation: &'static str| {
        Some(RunAggregationStoreError::Unavailable { operation, message: "refused".to_string() })
    };
    assert_eq!(store.ingest(refused()).err(), down("aggregation_ingest"));
    assert_eq!(store.due_runs(refused()).err(), down("aggregation_due_runs"));
    assert_eq!(store.mark_expired(refused()).err(), down("aggregation_mark_expired"));
    assert_eq!(store.finalize_run(refused()).err(), down("aggregation_finalize_run"));
    assert_eq!(store.load_summary(refused()).err(), down("aggregation_load_summary"));
    assert_eq!(store.outbox_runs(refused()).err(), down("aggregation_pending_summaries"));
    let pending = store.pending_summaries(&texts(&["run"]), refused());
    assert_eq!(pending.err(), down("aggregation_pending_summaries"));
    assert_eq!(store.clean_outbox_if_settled(refused()).err(), down("aggregation_outbox_cleanup"));
    let acknowledged = store.acknowledge_summary(refused());
    assert_eq!(acknowledged.err(), down("aggregation_acknowledge_summary"));
    assert_eq!(
        store.ingest(Exchange::TimedOut).err(),
        Some(RunAggregationStoreError::Timeout { operation: "aggregation_ingest" })
    );
    assert_eq!(
        store.outbox_cleanup_lost("panic"),
        RunAggregationStoreError::InvalidState {
            operation: "aggregation_pending_summaries",
            message: "outbox cleanup task failed: panic".to_string(),
        }
    );
}

#[test]
fn answers_of_redis_decide_claims() {
    let store = executions();
    let answered = |code: i64, number: i64, state: &str, at: i64, message: &str| {
        store.claim(
            &claim(),
            "owner".to_string(),
            Exchange::Done((code, number, 0, state.to_string(), at, message.to_string())),
        )
    };
    let invalid = |message: &str| {
        Some(CoordinationError::InvalidState {
            operation: "execution_claim",
            message: message.to_string(),
        })
    };
    assert!(matches!(
        answered(1, 5_000, "", 0, ""),
        Ok(ClaimOutcome::Acquired(lease))
            if lease.owner_token == "owner" && !lease.recovered && lease.attempt == 1
                && lease.expires_at_unix_ms == 5_000 && lease.ttl == Duration::from_secs(30)
    ));
    assert!(matches!(
        answered(2, 0, "retry_published", 44, ""),
        Ok(ClaimOutcome::AlreadyCompleted(done))
            if done.outcome == TerminalOutcome::RetryPublished && done.completed_at_unix_ms == 44
    ));
    assert!(matches!(
        answered(3, 250, "", 0, ""),
        Ok(ClaimOutcome::Busy { retry_after }) if retry_after == Duration::from_millis(250)
    ));
    assert_eq!(
        answered(1, -1, "", 0, "").err(),
        invalid("execution lease expiry must not be negative")
    );
    assert_eq!(
        answered(2, 0, "completed", -1, "").err(),
        invalid("completion timestamp must not be negative")
    );
    assert_eq!(answered(4, 0, "", 0, "broken record").err(), invalid("broken record"));
    assert_eq!(answered(9, 0, "", 0, "").err(), invalid("unknown Redis response code 9"));
    assert!(answered(2, 0, "running", 1, "").is_err());
    let blank = ExecutionClaim { execution_key: "  ".to_string(), attempt: 0 };
    assert_eq!(store.claim_call(&blank).err(), invalid("execution key must not be empty"));
}

#[test]
fn answers_of_redis_decide_what_operations_come_to() {
    let elector = elector();
    let follower = elector.acquire("t".to_string(), Exchange::Done((2, 0, 0, 40, String::new())));
    assert!(matches!(follower, Ok(LeadershipOutcome::Follower { .. })));
    let renewed = elector.renew(&lease(), Exchange::Done((2, 0, String::new())));
    assert_eq!(renewed.err(), Some(CoordinationError::StaleOwner { operation: "leader_renew" }));
    let renewed = elector.renew(&lease(), Exchange::Done((8, 0, "odd".to_string())));
    assert_eq!(
        renewed.err(),
        Some(CoordinationError::InvalidState {
            operation: "leader_renew",
            message: "unknown Redis response code 8: odd".to_string(),
        })
    );
    assert_eq!(elector.relinquish(Exchange::Done(0)), Ok(()));
    let dispatch = RedisDueStateStore::new("pulse:{c}:schedule".to_string());
    let reply = (2, String::new(), 0, String::new(), -5, String::new());
    assert!(matches!(
        dispatch.prepare_window(&spec(), Exchange::Done(reply)),
        Ok(DispatchOutcome::NotDue { retry_after }) if retry_after == Duration::ZERO
    ));
    assert_eq!(
        dispatch.ack_slice(Exchange::Done((1, -1, String::new()))).err(),
        Some(CoordinationError::InvalidState {
            operation: "dispatch_ack_slice",
            message: "remaining slice count is out of range".to_string(),
        })
    );
    assert_eq!(dispatch.register_run(Exchange::Done((1, String::new()))), Ok(()));
    let executions = executions();
    let renewed = executions.renew(&execution_lease(), Exchange::Done((1, 9, String::new())));
    assert_eq!(renewed.unwrap().expires_at_unix_ms, 9);
    let done = executions
        .complete(TerminalOutcome::DeadLetterPublished, Exchange::Done((1, 5, String::new())));
    assert_eq!(done.unwrap().outcome, TerminalOutcome::DeadLetterPublished);
    assert_eq!(
        executions.release(Exchange::Done((0, String::new()))),
        Ok(ReleaseOutcome::AlreadyAbsent)
    );
    let store = store(3);
    assert_eq!(
        store.mark_expired(Exchange::Done((1, "x".to_string(), Vec::new()))).err(),
        Some(RunAggregationStoreError::InvalidState {
            operation: "aggregation_mark_expired",
            message: "Redis returned an invalid expiration delay".to_string(),
        })
    );
    assert_eq!(store.due_runs(Exchange::Done(texts(&["a"]))), Ok(texts(&["a"])));
    assert_eq!(store.load_summary(Exchange::Done(Vec::new())), Ok(None));
    assert_eq!(
        store.finalize_run(Exchange::Done((0, String::new(), Vec::new()))),
        Ok(RunFinalizationOutcome::Missing)
    );
    assert_eq!(
        store.acknowledge_summary(Exchange::Done((1, 0, String::new()))),
        Ok(SummaryAcknowledgement::Acknowledged)
    );
    assert_eq!(
        store.pending_summaries(&texts(&["a"]), Exchange::Done(Vec::new())).err(),
        Some(RunAggregationStoreError::InvalidState {
            operation: "aggregation_pending_summaries",
            message: "Redis aggregation snapshot batch length changed".to_string(),
        })
    );
}

#[test]
fn attempts_and_events_have_identities_of_their_own() {
    let store = executions();
    let keys = [
        ExecutionClaim { execution_key: "a".to_string(), attempt: 12 },
        ExecutionClaim { execution_key: "a".to_string(), attempt: 1 },
        ExecutionClaim { execution_key: "a:attempt-1".to_string(), attempt: 2 },
        ExecutionClaim { execution_key: "a:attempt-1".to_string(), attempt: 1 },
    ]
    .map(|claim| store.key_for(&claim));
    for (i, key) in keys.iter().enumerate() {
        for other in &keys[i + 1..] {
            assert_ne!(key, other);
        }
    }
    assert_eq!(build_terminal_event_id("a", 1, "dlq"), "a:attempt-1:dlq");
    assert_ne!(
        build_terminal_event_id("a", 1, "dlq"),
        build_terminal_event_id("a:attempt-1", 1, "dlq")
    );
    let revision = |number: &str| {
        durable_summary_from_snapshot(
            &with_field(durable_snapshot(), "summary_revision", number),
            "aggregation_load_summary",
        )
        .expect("the fields can be read")
        .expect("the run has ended")
        .event_id
    };
    assert_ne!(revision("2"), revision("3"));
}

#[test]
fn ranks_are_those_of_doubles() {
    let quantiles = [(Quantile::P50, 0.50), (Quantile::P95, 0.95), (Quantile::P99, 0.99)];
    let mut totals: Vec<u64> = (1..2_000).collect();
    for shift in 10..64 {
        let power = 1_u64 << shift;
        totals.extend([power - 1, power, power + 1, power + power / 3]);
    }
    totals.extend([u64::MAX, u64::MAX - 1, 9_007_199_254_740_993]);
    for total in totals {
        for (quantile, factor) in quantiles {
            let expected = ((total as f64) * factor).ceil().max(1.0) as u64;
            assert_eq!(quantile_rank(total, quantile), u128::from(expected), "{total} {factor}");
        }
    }
}

#[test]
fn results_are_stored_after_every_check_has_passed() {
    let first_write = INGEST_SCRIPT.find("redis.call('HSET'").expect("results are stored");
    let last_refusal = INGEST_SCRIPT.rfind("return response(9").expect("sums are checked");
    assert!(last_refusal < first_write);
    for refusal in ["return response(5", "return response(6", "return {8"] {
        assert!(INGEST_SCRIPT.rfind(refusal).expect("results are refused") < first_write);
    }
}
