//! What the node is started with, and in which order.
use std::time::Duration;
use vstd::prelude::*;
use crate::aggregation::RedisRunAggregationStore;
#[allow(unused_imports)]
use crate::aggregation::{limit_ok, store_error};
use crate::config::app::AppConfig;
#[allow(unused_imports)]
use crate::config::app::redis_timeout_nanos;
use crate::config::rate::Rate;
use crate::dispatch::RedisDueStateStore;
#[allow(unused_imports)]
use crate::dispatch::AggregationRegistrationConfig;
#[allow(unused_imports)]
use crate::durations::{max_nanos, millis, nanos};
use crate::execution::RedisIdempotencyStore;
use crate::health::HealthState;
#[allow(unused_imports)]
use crate::health::HealthSnapshot;
use crate::kafka::settings::{KafkaConsumerConfig, KafkaProducerConfig};
use crate::leader::RedisLeaderElector;
use crate::snapshot::RunAggregationStoreError;
use crate::text::{concat3, copy_str, decimal_u128};
#[allow(unused_imports)]
use crate::text::{decimal, views};

verus! {

/// How long the node waits before it tries again to reach what it needs, in
/// milliseconds.
pub const STARTUP_RETRY_DELAY_MS: u64 = 500;

/// How long Redis may take to answer a probe, in milliseconds.
pub const REDIS_PROBE_TIMEOUT_MS: u64 = 2_000;

/// How long the node waits between two probes of what it depends on, in milliseconds.
pub const HEALTH_PROBE_INTERVAL_MS: u64 = 2_000;

// ---------------------------------------------------------------------------
// Topics
// ---------------------------------------------------------------------------

/// The topics that the node needs.
pub open spec fn needed_topics(c: AppConfig) -> Seq<Seq<char>> {
    seq![
        c.kafka_jobs_topic@,
        c.kafka_results_topic@,
        c.kafka_summaries_topic@,
        c.kafka_dlq_topic@,
    ]
}

/// The topics that the node needs.
pub fn required_kafka_topics(config: &AppConfig) -> (topics: Vec<String>)
    ensures
        views(topics@) == needed_topics(*config),
{
    let topics = vec![
        copy_str(&config.kafka_jobs_topic),
        copy_str(&config.kafka_results_topic),
        copy_str(&config.kafka_summaries_topic),
        copy_str(&config.kafka_dlq_topic),
    ];
    assert(views(topics@) =~= needed_topics(*config));
    topics
}

/// A topic that is to be there.
pub struct TopicRequest {
    pub name: String,
    pub partitions: i32,
    pub replication_factor: i32,
}

/// The topics that the node makes sure of, where it manages topics.
pub fn managed_topics(config: &AppConfig) -> (topics: Vec<TopicRequest>)
    ensures
        topics@.len() == needed_topics(*config).len(),
        forall|i: int|
            0 <= i < topics@.len() ==> (#[trigger] topics@[i]).name@ == needed_topics(*config)[i]
                && topics@[i].partitions == config.kafka_topic_partitions
                && topics@[i].replication_factor == config.kafka_topic_replication_factor,
{
    let names = required_kafka_topics(config);
    let mut topics: Vec<TopicRequest> = Vec::new();
    let mut i: usize = 0;
    while i < names.len()
        invariant
            i <= names@.len(),
            views(names@) == needed_topics(*config),
            topics@.len() == i,
            forall|k: int|
                0 <= k < i ==> (#[trigger] topics@[k]).name@ == needed_topics(*config)[k]
                    && topics@[k].partitions == config.kafka_topic_partitions
                    && topics@[k].replication_factor == config.kafka_topic_replication_factor,
        decreases names@.len() - i,
    {
        assert(views(names@)[i as int] == names@[i as int]@);
        topics.push(
            TopicRequest {
                name: copy_str(&names[i]),
                partitions: config.kafka_topic_partitions,
                replication_factor: config.kafka_topic_replication_factor,
            },
        );
        i += 1;
    }
    assert(views(names@).len() == names@.len());
    topics
}

// ---------------------------------------------------------------------------
// Settings of the parts
// ---------------------------------------------------------------------------

/// The settings of the producers.
pub fn producer_settings(config: &AppConfig) -> (p: KafkaProducerConfig)
    ensures
        p.queue_capacity_messages == config.producer_queue_messages,
        p.message_max_bytes == config.kafka_producer_message_max_bytes,
        p.message_timeout == config.kafka_message_timeout,
        p.delivery_timeout == config.kafka_delivery_timeout,
        p.request_timeout == config.kafka_request_timeout,
        p.acks@ == config.kafka_producer_acks@,
        p.enable_idempotence == config.kafka_producer_idempotence,
{
    KafkaProducerConfig {
        queue_capacity_messages: config.producer_queue_messages,
        message_max_bytes: config.kafka_producer_message_max_bytes,
        message_timeout: config.kafka_message_timeout,
        delivery_timeout: config.kafka_delivery_timeout,
        request_timeout: config.kafka_request_timeout,
        acks: copy_str(&config.kafka_producer_acks),
        enable_idempotence: config.kafka_producer_idempotence,
    }
}

/// The settings of the consumers.
pub fn consumer_settings(config: &AppConfig) -> (c: KafkaConsumerConfig)
    ensures
        c.max_poll_interval == config.kafka_max_poll_interval,
        c.session_timeout == config.kafka_session_timeout,
        c.request_timeout == config.kafka_request_timeout,
        c.prefetch_kib == config.consumer_queue_kbytes,
        c.partition_fetch_max_bytes == config.consumer_partition_fetch_max_bytes,
        c.fetch_max_bytes == config.consumer_fetch_max_bytes,
        c.record_max_bytes == config.consumer_record_max_bytes,
{
    KafkaConsumerConfig {
        max_poll_interval: config.kafka_max_poll_interval,
        session_timeout: config.kafka_session_timeout,
        request_timeout: config.kafka_request_timeout,
        prefetch_kib: config.consumer_queue_kbytes,
        partition_fetch_max_bytes: config.consumer_partition_fetch_max_bytes,
        fetch_max_bytes: config.consumer_fetch_max_bytes,
        record_max_bytes: config.consumer_record_max_bytes,
    }
}

/// What a consumer reads, and in which group.
pub struct Subscription {
    pub group_id: String,
    pub topic: String,
}

impl Subscription {
    /// Whether this is the topic, read in the group.
    pub open spec fn reads(&self, group_id: Seq<char>, topic: Seq<char>) -> bool {
        self.group_id@ == group_id && self.topic@ == topic
    }
}

/// What the producers write to and the consumers read.
pub struct ClientTopics {
    pub jobs: String,
    pub results: String,
    pub dead_letters: String,
    pub summaries: Option<String>,
    pub job_source: Subscription,
    pub result_source: Option<Subscription>,
}

/// What the producers write to and the consumers read. Summaries are written and
/// results are read only where runs are aggregated.
pub fn client_topics(config: &AppConfig) -> (t: ClientTopics)
    ensures
        t.jobs@ == config.kafka_jobs_topic@,
        t.results@ == config.kafka_results_topic@,
        t.dead_letters@ == config.kafka_dlq_topic@,
        t.job_source.reads(config.kafka_group_id@, config.kafka_jobs_topic@),
        match t.summaries {
            Some(topic) => config.aggregation_enabled && topic@ == config.kafka_summaries_topic@,
            None => !config.aggregation_enabled,
        },
        match t.result_source {
            Some(source) => config.aggregation_enabled && source.reads(
                config.kafka_aggregator_group_id@,
                config.kafka_results_topic@,
            ),
            None => !config.aggregation_enabled,
        },
{
    let aggregates: bool = config.aggregation_enabled;
    ClientTopics {
        jobs: copy_str(&config.kafka_jobs_topic),
        results: copy_str(&config.kafka_results_topic),
        dead_letters: copy_str(&config.kafka_dlq_topic),
        summaries: if aggregates {
            Some(copy_str(&config.kafka_summaries_topic))
        } else {
            None
        },
        job_source: Subscription {
            group_id: copy_str(&config.kafka_group_id),
            topic: copy_str(&config.kafka_jobs_topic),
        },
        result_source: if aggregates {
            Some(
                Subscription {
                    group_id: copy_str(&config.kafka_aggregator_group_id),
                    topic: copy_str(&config.kafka_results_topic),
                },
            )
        } else {
            None
        },
    }
}

/// The settings of the scheduler and the worker.
pub struct NodeRuntimeConfig {
    pub leader_renew_interval: Duration,
    pub scheduler_tick_interval: Duration,
    pub worker_max_retries: u32,
    pub worker_retry_base_delay: Duration,
    pub worker_retry_max_delay: Duration,
    pub worker_queue_capacity: usize,
    pub execution_renew_interval: Duration,
    pub shutdown_drain_timeout: Duration,
    pub max_processing_interval: Duration,
    pub max_job_duration: Duration,
    pub max_scenarios_per_sec: Rate,
    pub max_concurrency: usize,
    pub scenario_timeout: Option<Duration>,
    pub startup_burst: usize,
}

/// The settings of the scheduler and the worker.
pub fn node_settings(config: &AppConfig) -> (n: NodeRuntimeConfig)
    ensures
        n.leader_renew_interval == config.leader_renew_interval,
        n.scheduler_tick_interval == config.scheduler_tick_interval,
        n.worker_max_retries == config.worker_max_retries,
        n.worker_retry_base_delay == config.worker_retry_base_delay,
        n.worker_retry_max_delay == config.worker_retry_max_delay,
        n.worker_queue_capacity == config.retry_queue_capacity,
        n.execution_renew_interval == config.execution_lease_renew_interval,
        n.shutdown_drain_timeout == config.shutdown_drain_timeout,
        nanos(n.max_processing_interval) == safe_processing_nanos(*config),
        n.max_job_duration == config.max_duration,
        n.max_scenarios_per_sec == config.max_scenarios_per_sec,
        n.max_concurrency == config.max_concurrency,
        n.scenario_timeout == Some(config.grpc_scenario_timeout),
        n.startup_burst == config.startup_burst,
{
    NodeRuntimeConfig {
        leader_renew_interval: config.leader_renew_interval,
        scheduler_tick_interval: config.scheduler_tick_interval,
        worker_max_retries: config.worker_max_retries,
        worker_retry_base_delay: config.worker_retry_base_delay,
        worker_retry_max_delay: config.worker_retry_max_delay,
        worker_queue_capacity: config.retry_queue_capacity,
        execution_renew_interval: config.execution_lease_renew_interval,
        shutdown_drain_timeout: config.shutdown_drain_timeout,
        max_processing_interval: config.kafka_safe_processing_interval(),
        max_job_duration: config.max_duration,
        max_scenarios_per_sec: config.max_scenarios_per_sec,
        max_concurrency: config.max_concurrency,
        scenario_timeout: Some(config.grpc_scenario_timeout),
        startup_burst: config.startup_burst,
    }
}

/// The nanoseconds for which a record may keep the node from polling.
pub open spec fn safe_processing_nanos(c: AppConfig) -> nat {
    let margin = (crate::config::app::KAFKA_POLL_SAFETY_MARGIN_MS * 1_000_000) as nat;
    if nanos(c.kafka_max_poll_interval) < margin {
        0
    } else {
        (nanos(c.kafka_max_poll_interval) - margin) as nat
    }
}

/// The settings of the aggregation.
pub struct AggregationRuntimeConfig {
    pub scan_interval: Duration,
    pub scan_batch_limit: usize,
    pub outbox_batch_limit: usize,
    pub shutdown_drain_timeout: Duration,
    pub max_processing_interval: Duration,
}

/// The settings of the aggregation.
pub fn aggregation_settings(config: &AppConfig) -> (a: AggregationRuntimeConfig)
    ensures
        a.scan_interval == config.aggregation_scan_interval,
        a.scan_batch_limit == config.aggregation_scan_batch,
        a.outbox_batch_limit == config.aggregation_scan_batch,
        a.shutdown_drain_timeout == config.shutdown_drain_timeout,
        nanos(a.max_processing_interval) == safe_processing_nanos(*config),
{
    AggregationRuntimeConfig {
        scan_interval: config.aggregation_scan_interval,
        scan_batch_limit: config.aggregation_scan_batch,
        outbox_batch_limit: config.aggregation_scan_batch,
        shutdown_drain_timeout: config.shutdown_drain_timeout,
        max_processing_interval: config.kafka_safe_processing_interval(),
    }
}

// ---------------------------------------------------------------------------
// Stores
// ---------------------------------------------------------------------------

/// What the node keeps in Redis.
pub struct RuntimeStores {
    pub elector: RedisLeaderElector,
    pub dispatch_store: RedisDueStateStore,
    pub execution_store: RedisIdempotencyStore,
    pub aggregation: Option<RedisRunAggregationStore>,
}

/// Why the aggregation has no store.
pub open spec fn aggregation_store_problem(c: AppConfig) -> Option<Seq<char>> {
    let made = store_error(
        c.redis_aggregation_prefix@,
        c.aggregation_partial_timeout,
        c.aggregation_retention,
    );
    if made is Some {
        made
    } else if redis_timeout_nanos(c) == 0 {
        Some("duration must be at least one millisecond"@)
    } else if !limit_ok(c.aggregation_max_error_kinds) {
        Some("maximum error kinds must fit in Redis and be greater than zero"@)
    } else if !limit_ok(c.aggregation_max_active_runs) {
        Some("maximum active runs must fit in Redis and be greater than zero"@)
    } else if !limit_ok(c.aggregation_scan_batch) {
        Some("maximum aggregation scan limit must fit in Redis and be greater than zero"@)
    } else {
        None
    }
}

/// Whether a store of the aggregation is the one that the settings ask for.
pub open spec fn is_aggregation_store(s: RedisRunAggregationStore, c: AppConfig) -> bool {
    &&& s.wf()
    &&& s.prefix() == c.redis_aggregation_prefix@
    &&& s.partial() == c.aggregation_partial_timeout
    &&& s.retention() == c.aggregation_retention
    &&& nanos(s.exchange_timeout()) == redis_timeout_nanos(c)
    &&& s.error_kind_limit() == c.aggregation_max_error_kinds
    &&& s.active_run_limit() == c.aggregation_max_active_runs
    &&& s.scan_limit() == c.aggregation_scan_batch
}

/// Whether a store of dispatches makes runs known to the aggregation as the settings ask
/// for.
pub open spec fn registers(s: RedisDueStateStore, c: AppConfig) -> bool {
    if c.aggregation_enabled {
        s.registration() matches Some(r) && r.key_prefix@ == c.redis_aggregation_prefix@
            && r.partial_timeout == c.aggregation_partial_timeout && r.retention
            == c.aggregation_retention && r.max_active_runs == c.aggregation_max_active_runs
    } else {
        s.registration() is None
    }
}

/// Whether stores are those that the settings ask for.
pub open spec fn are_stores(s: RuntimeStores, c: AppConfig) -> bool {
    &&& s.elector.lock() == c.redis_leader_key@
    &&& s.elector.fence() == c.redis_leader_key@ + ":fence"@
    &&& s.elector.node() == c.node_id@
    &&& nanos(s.elector.ttl()) == c.leader_lock_ttl_ms * 1_000_000
    &&& nanos(s.elector.exchange_timeout()) == redis_timeout_nanos(c)
    &&& s.dispatch_store.prefix() == c.redis_schedule_prefix@
    &&& nanos(s.dispatch_store.exchange_timeout()) == redis_timeout_nanos(c)
    &&& registers(s.dispatch_store, c)
    &&& s.execution_store.prefix() == c.redis_idempotency_prefix@
    &&& s.execution_store.lease() == c.execution_lease_ttl
    &&& s.execution_store.terminal() == c.execution_terminal_retention
    &&& nanos(s.execution_store.exchange_timeout()) == redis_timeout_nanos(c)
    &&& match s.aggregation {
        Some(store) => c.aggregation_enabled && is_aggregation_store(store, c),
        None => !c.aggregation_enabled,
    }
}

fn aggregation_store(config: &AppConfig) -> (r: Result<
    RedisRunAggregationStore,
    RunAggregationStoreError,
>)
    ensures
        match r {
            Ok(s) => aggregation_store_problem(*config) is None && is_aggregation_store(s, *config),
            Err(e) => aggregation_store_problem(*config) matches Some(m) && e.is_invalid_state(
                "aggregation_config"@,
                m,
            ),
        },
{
    let store = RedisRunAggregationStore::new(
        copy_str(&config.redis_aggregation_prefix),
        config.aggregation_partial_timeout,
        config.aggregation_retention,
    )?;
    let store = store.with_operation_timeout(config.redis_operation_timeout())?;
    let store = store.with_max_error_kinds(config.aggregation_max_error_kinds)?;
    let store = store.with_max_active_runs(config.aggregation_max_active_runs)?;
    store.with_max_scan_limit(config.aggregation_scan_batch)
}

/// The stores that the settings ask for.
pub fn runtime_stores(config: &AppConfig) -> (r: Result<RuntimeStores, RunAggregationStoreError>)
    ensures
        match r {
            Ok(s) => are_stores(s, *config),
            Err(e) => config.aggregation_enabled && (aggregation_store_problem(
                *config,
            ) matches Some(m) && e.is_invalid_state("aggregation_config"@, m)),
        },
        r is Ok <==> !config.aggregation_enabled || aggregation_store_problem(*config) is None,
{
    let timeout = config.redis_operation_timeout();
    let elector = RedisLeaderElector::new(
        copy_str(&config.redis_leader_key),
        copy_str(&config.node_id),
        config.leader_lock_ttl_ms,
    ).with_operation_timeout(timeout);
    let mut dispatch_store = RedisDueStateStore::new(
        copy_str(&config.redis_schedule_prefix),
    ).with_operation_timeout(timeout);
    if config.aggregation_enabled {
        dispatch_store = dispatch_store.with_aggregation_registration(
            copy_str(&config.redis_aggregation_prefix),
            config.aggregation_partial_timeout,
            config.aggregation_retention,
            config.aggregation_max_active_runs,
        );
    }
    let execution_store = RedisIdempotencyStore::with_timings(
        copy_str(&config.redis_idempotency_prefix),
        config.execution_lease_ttl,
        config.execution_terminal_retention,
        timeout,
    );
    let aggregation = if config.aggregation_enabled {
        Some(aggregation_store(config)?)
    } else {
        None
    };
    Ok(RuntimeStores { elector, dispatch_store, execution_store, aggregation })
}

// ---------------------------------------------------------------------------
// Order
// ---------------------------------------------------------------------------

/// A step of the start of the node.
#[derive(Clone, Copy, Debug, PartialEq, Eq, Structural)]
pub enum StartupStep {
    WaitForServices,
    EnsureTopics,
    WaitForTopics,
    MakeProducers,
    MakeConsumers,
    BuildPlans,
    Finished,
}

/// The step behind one that is done.
pub open spec fn step_behind(step: StartupStep, manages_topics: bool) -> StartupStep {
    match step {
        StartupStep::WaitForServices => if manages_topics {
            StartupStep::EnsureTopics
        } else {
            StartupStep::WaitForTopics
        },
        StartupStep::EnsureTopics => StartupStep::WaitForTopics,
        StartupStep::WaitForTopics => StartupStep::MakeProducers,
        StartupStep::MakeProducers => StartupStep::MakeConsumers,
        StartupStep::MakeConsumers => StartupStep::BuildPlans,
        StartupStep::BuildPlans => StartupStep::Finished,
        StartupStep::Finished => StartupStep::Finished,
    }
}

/// The health of the node when a step is done.
pub open spec fn health_behind(step: StartupStep, h: HealthSnapshot) -> HealthSnapshot {
    match step {
        StartupStep::WaitForServices => HealthSnapshot { redis_ready: true, ..h },
        StartupStep::EnsureTopics => h,
        StartupStep::WaitForTopics => HealthSnapshot { kafka_topics_ready: true, ..h },
        StartupStep::MakeProducers => HealthSnapshot { kafka_producers_ready: true, ..h },
        StartupStep::MakeConsumers => HealthSnapshot { kafka_consumer_ready: true, ..h },
        StartupStep::BuildPlans => HealthSnapshot { scenarios_initialized: true, ..h },
        StartupStep::Finished => h,
    }
}

/// Reports that a step is done, and gives the next.
pub fn startup_step_done(step: StartupStep, manages_topics: bool, health: &mut HealthState) -> (next:
    StartupStep)
    ensures
        next == step_behind(step, manages_topics),
        final(health)@ == health_behind(step, old(health)@),
{
    match step {
        StartupStep::WaitForServices => {
            health.set_redis_ready(true);
            if manages_topics {
                StartupStep::EnsureTopics
            } else {
                StartupStep::WaitForTopics
            }
        },
        StartupStep::EnsureTopics => StartupStep::WaitForTopics,
        StartupStep::WaitForTopics => {
            health.set_kafka_topics_ready(true);
            StartupStep::MakeProducers
        },
        StartupStep::MakeProducers => {
            health.set_kafka_producers_ready(true);
            StartupStep::MakeConsumers
        },
        StartupStep::MakeConsumers => {
            health.set_kafka_consumer_ready(true);
            StartupStep::BuildPlans
        },
        StartupStep::BuildPlans => {
            health.set_scenarios_initialized(true);
            StartupStep::Finished
        },
        StartupStep::Finished => StartupStep::Finished,
    }
}

/// How far a step lies from the begin.
pub open spec fn place_of_step(step: StartupStep) -> nat {
    match step {
        StartupStep::WaitForServices => 0,
        StartupStep::EnsureTopics => 1,
        StartupStep::WaitForTopics => 2,
        StartupStep::MakeProducers => 3,
        StartupStep::MakeConsumers => 4,
        StartupStep::BuildPlans => 5,
        StartupStep::Finished => 6,
    }
}

/// What holds of the health of the node before each step: exactly the milestones of the
/// earlier steps are reached, and the worker accepts nothing yet.
pub open spec fn starting(step: StartupStep, h: HealthSnapshot) -> bool {
    &&& h.config_loaded
    &&& !h.worker_accepting
    &&& h.redis_ready == (place_of_step(step) > 0)
    &&& h.kafka_topics_ready == (place_of_step(step) > 2)
    &&& h.kafka_producers_ready == (place_of_step(step) > 3)
    &&& h.kafka_consumer_ready == (place_of_step(step) > 4)
    &&& h.scenarios_initialized == (place_of_step(step) > 5)
}

/// Every step of the start leads on, the node is not ready before the worker accepts
/// jobs, and when all steps are done that is all that is missing.
pub proof fn lemma_startup_reaches_readiness(
    step: StartupStep,
    manages_topics: bool,
    h: HealthSnapshot,
)
    requires
        starting(step, h),
    ensures
        !h.ready(),
        starting(step_behind(step, manages_topics), health_behind(step, h)),
        step != StartupStep::Finished ==> place_of_step(step_behind(step, manages_topics))
            > place_of_step(step),
        step == StartupStep::Finished && !h.draining ==> (HealthSnapshot {
            worker_accepting: true,
            ..h
        }).ready(),
{
}

/// That the node did not start in time.
pub fn startup_expired(deadline: Duration) -> (text: String)
    ensures
        text@ == "startup deadline of "@ + decimal(millis(deadline))
            + " ms expired before all required dependencies became ready"@,
{
    concat3(
        "startup deadline of ",
        &decimal_u128(deadline.as_millis()),
        " ms expired before all required dependencies became ready",
    )
}

/// Whether the node serves its metrics and its health.
pub fn serves_metrics(config: &AppConfig) -> (r: bool)
    ensures
        r == (!config.dry_run && config.metrics_enabled),
{
    !config.dry_run && config.metrics_enabled
}

} // verus!
