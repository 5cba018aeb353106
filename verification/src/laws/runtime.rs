//! What a node is started with, in which order, and how it is watched and stopped.
use std::time::Duration;
use vstd::prelude::*;
use super::aggregation::span_fits;
use super::execution::whole_ms;
use super::rules::{exchange_nanos, longest_span, target_ok};
use crate::config::app::AppConfig;
use crate::config::rate::{lemma_bits_order, Rate};
use crate::coordination::RepeatPolicy;
use crate::durations::nanos;
use crate::health::HealthState;
use crate::kafka::settings::{KafkaConsumerConfig, KafkaProducerConfig};
use crate::runtime::plans::{
    connect_budget, dry_run_lines, invalid_step, plan_line, problem_views, required_descriptor_set,
    required_endpoints, slice_line, slice_lines, startable_plans, started, step_target,
    target_not_ready, unreadable_descriptor_set, with_targets, DryRunPlan,
};
use crate::runtime::scenarios::{
    first_problem, scenario_problem, steps_problem, validate_scenario_limits, ScenarioFacts,
    ScenarioLimits, StepFacts,
};
use crate::runtime::startup::{
    aggregation_settings, client_topics, consumer_settings, managed_topics, node_settings,
    producer_settings, required_kafka_topics, runtime_stores, serves_metrics, startup_expired,
    startup_step_done, AggregationRuntimeConfig, ClientTopics, NodeRuntimeConfig, RuntimeStores,
    StartupStep, TopicRequest,
};
use crate::runtime::supervise::{
    component_exit, metrics_server_exit, next_attempt, run_outcome, runtime_join_timeout,
    wait_allowed, wait_ended, ComponentEnd, WaitEvent,
};
use crate::snapshot::RunAggregationStoreError;
use crate::text::{decimal, is_blank, opt_view, utf8_len, views};

verus! {

// ---------------------------------------------------------------------------
// Watching
// ---------------------------------------------------------------------------

/// A part that ends is an error exactly where no shutdown was requested.
pub proof fn law_component_exit(shutdown: bool, end: ComponentEnd, r: Option<String>)
    requires
        call_ensures(component_exit, (shutdown, end), r),
    ensures
        r is None <==> shutdown,
        end matches ComponentEnd::Finished(name) ==> (!shutdown ==> r->0@ == name@
            + " exited unexpectedly"@),
        end matches ComponentEnd::Failed(error) ==> (!shutdown ==> r->0@ == error@),
        end matches ComponentEnd::Lost(error) ==> (!shutdown ==> r->0@
            == "runtime component panicked or was cancelled: "@ + error@),
        end is NoneLeft && !shutdown ==> r->0@ == "all runtime components exited unexpectedly"@,
{
}

/// A node ends with the error that made it end, and well without one.
pub proof fn law_run_outcome(exit: Option<String>, r: Result<(), String>)
    requires
        call_ensures(run_outcome, (exit,), r),
    ensures
        exit is None <==> r is Ok,
        exit matches Some(error) ==> (r matches Err(m) && m@ == error@),
{
}

/// The parts are given their drain time, two renewals, one request and a second to end.
pub proof fn law_join_timeout(c: AppConfig, d: Duration)
    requires
        call_ensures(runtime_join_timeout, (&c,), d),
    ensures
        ({
            let all = nanos(c.shutdown_drain_timeout) + nanos(c.leader_renew_interval) + nanos(
                c.leader_renew_interval,
            ) + nanos(c.kafka_request_timeout) + 1_000_000_000;
            if all <= longest_span() {
                nanos(d) == all
            } else {
                nanos(d) == longest_span()
            }
        }),
{
}

/// Nothing waits once a shutdown is requested or can no longer be requested.
pub proof fn law_waiting(
    shutdown: bool,
    before: Result<(), String>,
    event: WaitEvent,
    after: Result<(), String>,
)
    requires
        call_ensures(wait_allowed, (shutdown,), before),
        call_ensures(wait_ended, (event, shutdown), after),
    ensures
        before is Ok <==> !shutdown,
        after is Ok <==> event is Elapsed || (event is Changed && !shutdown),
{
}

/// Attempts are counted one by one, as far as they can be counted.
pub proof fn law_next_attempt(attempt: u32, n: u32)
    requires
        call_ensures(next_attempt, (attempt,), n),
    ensures
        attempt < 4_294_967_295 ==> n == attempt + 1,
        attempt == 4_294_967_295 ==> n == attempt,
{
}

/// What is said when the metrics server ends, the start takes too long or a target is late.
pub proof fn law_messages(
    result: &str,
    server: String,
    deadline: Duration,
    expired: String,
    endpoint: &str,
    late: String,
)
    requires
        call_ensures(metrics_server_exit, (result,), server),
        call_ensures(startup_expired, (deadline,), expired),
        call_ensures(target_not_ready, (endpoint, deadline), late),
    ensures
        server@ == "metrics/health server exited while the runtime was active: "@ + result@,
        expired@ == "startup deadline of "@ + decimal(whole_ms(deadline))
            + " ms expired before all required dependencies became ready"@,
        late@ == "gRPC target '"@ + endpoint@ + "' did not become ready within "@ + decimal(
            whole_ms(deadline),
        ) + " ms"@,
{
}

// ---------------------------------------------------------------------------
// Settings of the parts
// ---------------------------------------------------------------------------

/// The node needs the topics of jobs, results, summaries and failed jobs, in this order, and
/// creates them with the partitions and replicas of the settings.
pub proof fn law_topics(c: AppConfig, names: Vec<String>, topics: Vec<TopicRequest>)
    requires
        call_ensures(required_kafka_topics, (&c,), names),
        call_ensures(managed_topics, (&c,), topics),
    ensures
        names@.len() == 4,
        names@[0]@ == c.kafka_jobs_topic@,
        names@[1]@ == c.kafka_results_topic@,
        names@[2]@ == c.kafka_summaries_topic@,
        names@[3]@ == c.kafka_dlq_topic@,
        topics@.len() == 4,
        forall|i: int|
            0 <= i < 4 ==> {
                &&& (#[trigger] topics@[i]).name@ == names@[i]@
                &&& topics@[i].partitions == c.kafka_topic_partitions
                &&& topics@[i].replication_factor == c.kafka_topic_replication_factor
            },
{
    assert(views(names@).len() == names@.len());
    assert(views(names@)[0] == names@[0]@);
    assert(views(names@)[1] == names@[1]@);
    assert(views(names@)[2] == names@[2]@);
    assert(views(names@)[3] == names@[3]@);
}

/// Each setting of a Kafka client is that of the node.
pub proof fn law_kafka_settings(c: AppConfig, p: KafkaProducerConfig, q: KafkaConsumerConfig)
    requires
        call_ensures(producer_settings, (&c,), p),
        call_ensures(consumer_settings, (&c,), q),
    ensures
        p.queue_capacity_messages == c.producer_queue_messages,
        p.message_max_bytes == c.kafka_producer_message_max_bytes,
        p.message_timeout == c.kafka_message_timeout,
        p.delivery_timeout == c.kafka_delivery_timeout,
        p.request_timeout == c.kafka_request_timeout,
        p.acks@ == c.kafka_producer_acks@,
        p.enable_idempotence == c.kafka_producer_idempotence,
        q.max_poll_interval == c.kafka_max_poll_interval,
        q.session_timeout == c.kafka_session_timeout,
        q.request_timeout == c.kafka_request_timeout,
        q.prefetch_kib == c.consumer_queue_kbytes,
        q.partition_fetch_max_bytes == c.consumer_partition_fetch_max_bytes,
        q.fetch_max_bytes == c.consumer_fetch_max_bytes,
        q.record_max_bytes == c.consumer_record_max_bytes,
{
}

/// Jobs are read by the workers' group; results are read, by a group of their own, and
/// summaries are written only where runs are aggregated.
pub proof fn law_client_topics(c: AppConfig, t: ClientTopics)
    requires
        call_ensures(client_topics, (&c,), t),
    ensures
        t.jobs@ == c.kafka_jobs_topic@,
        t.results@ == c.kafka_results_topic@,
        t.dead_letters@ == c.kafka_dlq_topic@,
        t.job_source.group_id@ == c.kafka_group_id@,
        t.job_source.topic@ == c.kafka_jobs_topic@,
        t.summaries is Some <==> c.aggregation_enabled,
        t.summaries matches Some(topic) ==> topic@ == c.kafka_summaries_topic@,
        t.result_source is Some <==> c.aggregation_enabled,
        t.result_source matches Some(source) ==> source.group_id@ == c.kafka_aggregator_group_id@
            && source.topic@ == c.kafka_results_topic@,
{
}

/// The time between two polls but for a second.
pub open spec fn between_polls(c: AppConfig) -> int {
    if nanos(c.kafka_max_poll_interval) <= 1_000_000_000 {
        0
    } else {
        nanos(c.kafka_max_poll_interval) - 1_000_000_000
    }
}

/// Each setting of the scheduler, the worker and the aggregation is that of the node.
pub proof fn law_node_settings(c: AppConfig, n: NodeRuntimeConfig, a: AggregationRuntimeConfig)
    requires
        call_ensures(node_settings, (&c,), n),
        call_ensures(aggregation_settings, (&c,), a),
    ensures
        n.leader_renew_interval == c.leader_renew_interval,
        n.scheduler_tick_interval == c.scheduler_tick_interval,
        n.worker_max_retries == c.worker_max_retries,
        n.worker_retry_base_delay == c.worker_retry_base_delay,
        n.worker_retry_max_delay == c.worker_retry_max_delay,
        n.worker_queue_capacity == c.retry_queue_capacity,
        n.execution_renew_interval == c.execution_lease_renew_interval,
        n.shutdown_drain_timeout == c.shutdown_drain_timeout,
        nanos(n.max_processing_interval) == between_polls(c),
        n.max_job_duration == c.max_duration,
        n.max_scenarios_per_sec == c.max_scenarios_per_sec,
        n.max_concurrency == c.max_concurrency,
        n.scenario_timeout == Some(c.grpc_scenario_timeout),
        n.startup_burst == c.startup_burst,
        a.scan_interval == c.aggregation_scan_interval,
        a.scan_batch_limit == c.aggregation_scan_batch,
        a.outbox_batch_limit == c.aggregation_scan_batch,
        a.shutdown_drain_timeout == c.shutdown_drain_timeout,
        nanos(a.max_processing_interval) == between_polls(c),
{
}

/// Metrics are served where they are enabled, but not in a dry run.
pub proof fn law_serves_metrics(c: AppConfig, r: bool)
    requires
        call_ensures(serves_metrics, (&c,), r),
    ensures
        r <==> c.metrics_enabled && !c.dry_run,
{
}

/// Whether settings are such that the aggregation has a store.
pub open spec fn can_aggregate(c: AppConfig) -> bool {
    &&& !is_blank(c.redis_aggregation_prefix@)
    &&& utf8_len(c.redis_aggregation_prefix@) <= 1024
    &&& !c.redis_aggregation_prefix@.contains('{')
    &&& !c.redis_aggregation_prefix@.contains('}')
    &&& span_fits(c.aggregation_partial_timeout)
    &&& span_fits(c.aggregation_retention)
    &&& nanos(c.aggregation_partial_timeout) < nanos(c.aggregation_retention)
    &&& exchange_nanos(c) >= 1
    &&& 1 <= c.aggregation_max_error_kinds <= 9_007_199_254_740_991
    &&& 1 <= c.aggregation_max_active_runs <= 9_007_199_254_740_991
    &&& 1 <= c.aggregation_scan_batch <= 9_007_199_254_740_991
}

/// The stores of a node keep their keys, their times and their bounds from its settings.
pub proof fn law_stores(c: AppConfig, r: Result<RuntimeStores, RunAggregationStoreError>)
    requires
        call_ensures(runtime_stores, (&c,), r),
    ensures
        r is Ok <==> (c.aggregation_enabled ==> can_aggregate(c)),
        r matches Ok(s) ==> {
            &&& s.elector.lock() == c.redis_leader_key@
            &&& s.elector.fence() == c.redis_leader_key@ + ":fence"@
            &&& s.elector.node() == c.node_id@
            &&& nanos(s.elector.ttl()) == c.leader_lock_ttl_ms * 1_000_000
            &&& nanos(s.elector.exchange_timeout()) == exchange_nanos(c)
            &&& s.dispatch_store.prefix() == c.redis_schedule_prefix@
            &&& nanos(s.dispatch_store.exchange_timeout()) == exchange_nanos(c)
            &&& s.dispatch_store.registration() is Some <==> c.aggregation_enabled
            &&& s.execution_store.prefix() == c.redis_idempotency_prefix@
            &&& s.execution_store.lease() == c.execution_lease_ttl
            &&& s.execution_store.terminal() == c.execution_terminal_retention
            &&& nanos(s.execution_store.exchange_timeout()) == exchange_nanos(c)
            &&& s.aggregation is Some <==> c.aggregation_enabled
        },
        r matches Ok(s) ==> (s.dispatch_store.registration() matches Some(g) ==> {
            &&& g.key_prefix@ == c.redis_aggregation_prefix@
            &&& g.partial_timeout == c.aggregation_partial_timeout
            &&& g.retention == c.aggregation_retention
            &&& g.max_active_runs == c.aggregation_max_active_runs
        }),
        r matches Ok(s) ==> (s.aggregation matches Some(a) ==> {
            &&& a.wf()
            &&& a.prefix() == c.redis_aggregation_prefix@
            &&& a.partial() == c.aggregation_partial_timeout
            &&& a.retention() == c.aggregation_retention
            &&& nanos(a.exchange_timeout()) == exchange_nanos(c)
            &&& a.error_kind_limit() == c.aggregation_max_error_kinds
            &&& a.active_run_limit() == c.aggregation_max_active_runs
            &&& a.scan_limit() == c.aggregation_scan_batch
        }),
{
}

// ---------------------------------------------------------------------------
// The order of the start
// ---------------------------------------------------------------------------

/// The steps of the start follow each other in one order, which leaves out the creation of
/// topics where the node does not manage them, and each reports its own milestone.
pub proof fn law_startup(
    step: StartupStep,
    manages: bool,
    health: &mut HealthState,
    next: StartupStep,
)
    requires
        call_ensures(startup_step_done, (step, manages, health), next),
    ensures
        step is WaitForServices && manages ==> next is EnsureTopics,
        step is WaitForServices && !manages ==> next is WaitForTopics,
        step is EnsureTopics ==> next is WaitForTopics,
        step is WaitForTopics ==> next is MakeProducers,
        step is MakeProducers ==> next is MakeConsumers,
        step is MakeConsumers ==> next is BuildPlans,
        step is BuildPlans || step is Finished ==> next is Finished,
        final(health)@.redis_ready <==> old(health)@.redis_ready || step is WaitForServices,
        final(health)@.kafka_topics_ready <==> old(health)@.kafka_topics_ready || step
            is WaitForTopics,
        final(health)@.kafka_producers_ready <==> old(health)@.kafka_producers_ready || step
            is MakeProducers,
        final(health)@.kafka_consumer_ready <==> old(health)@.kafka_consumer_ready || step
            is MakeConsumers,
        final(health)@.scenarios_initialized <==> old(health)@.scenarios_initialized || step
            is BuildPlans,
        final(health)@.config_loaded == old(health)@.config_loaded,
        final(health)@.worker_accepting == old(health)@.worker_accepting,
        final(health)@.draining == old(health)@.draining,
{
}

// ---------------------------------------------------------------------------
// Scenarios
// ---------------------------------------------------------------------------

/// Whether a rate is a number above zero that does not exceed another rate: one that is no
/// number, and an infinite one, are exceeded by none, and a negative one by all.
pub open spec fn rate_within(rate: Rate, limit: Rate) -> bool {
    &&& 0 < rate.bits < 0x7ff0_0000_0000_0000
    &&& rate.bits <= limit.bits
    &&& limit.bits < 0x8000_0000_0000_0000 || limit.bits > 0xfff0_0000_0000_0000
}

proof fn lemma_rate(rate: Rate, limit: Rate)
    ensures
        rate_within(rate, limit) <==> rate.is_positive() && !rate.greater(limit),
{
    if rate.is_positive() && limit.bits < 0x7ff0_0000_0000_0000 {
        if rate.bits < limit.bits {
            lemma_bits_order(rate.bits, limit.bits);
        } else if limit.bits < rate.bits {
            lemma_bits_order(limit.bits, rate.bits);
        }
    }
}

/// Rates are compared by their bits.
pub proof fn law_rates(a: Rate, b: Rate, positive: bool, exceeds: bool, greater: bool)
    requires
        0 < a.bits < 0x7ff0_0000_0000_0000,
        call_ensures(Rate::positive, (b,), positive),
        call_ensures(Rate::is_greater, (a, b), greater),
        positive ==> call_ensures(Rate::exceeds, (a, b), exceeds),
    ensures
        positive <==> 0 < b.bits < 0x7ff0_0000_0000_0000,
        positive ==> (exceeds <==> a.bits > b.bits),
        greater <==> !rate_within(a, b),
{
    lemma_rate(a, b);
    if positive {
        if a.bits < b.bits {
            lemma_bits_order(a.bits, b.bits);
        } else if b.bits < a.bits {
            lemma_bits_order(b.bits, a.bits);
        }
    }
}

/// Whether a scenario keeps the limits of the node: its name and its steps, windows that do
/// not overlap and are not too long, nor too short for one execution unless a burst is asked
/// for, a rate and a concurrency within those of the node, and targets that are allowed.
pub open spec fn within_limits(c: AppConfig, s: ScenarioFacts, l: ScenarioLimits) -> bool {
    &&& !is_blank(s.name@)
    &&& utf8_len(s.name@) <= l.max_name_bytes
    &&& 1 <= s.steps@.len() <= l.max_steps
    &&& s.identity_error is None
    &&& (s.repeat matches RepeatPolicy::Every(interval) ==> nanos(interval) >= nanos(s.duration))
    &&& nanos(s.duration) <= nanos(c.max_duration)
    &&& s.below_one_arrival ==> c.startup_burst >= 1
    &&& rate_within(s.rate, c.max_scenarios_per_sec)
    &&& 1 <= s.max_concurrency <= c.max_concurrency
    &&& c.startup_burst <= s.max_concurrency
    &&& target_ok(c, s.endpoint@)
    &&& forall|k: int|
        0 <= k < s.steps@.len() ==> ((#[trigger] s.steps@[k]).endpoint_override matches Some(e)
            ==> target_ok(c, e@))
}

proof fn lemma_steps(c: AppConfig, name: Seq<char>, steps: Seq<StepFacts>)
    ensures
        steps_problem(c, name, steps) is None <==> forall|k: int|
            0 <= k < steps.len() ==> ((#[trigger] steps[k]).endpoint_override matches Some(e)
                ==> target_ok(c, e@)),
    decreases steps.len(),
{
    if steps.len() > 0 {
        let rest = steps.skip(1);
        lemma_steps(c, name, rest);
        if let Some(e) = steps[0].endpoint_override {
            super::rules::lemma_target(c, e@);
        }
        if steps_problem(c, name, steps) is None {
            assert forall|k: int| 0 <= k < steps.len() implies ((
            #[trigger] steps[k]).endpoint_override matches Some(e) ==> target_ok(c, e@)) by {
                if k > 0 {
                    assert(rest[k - 1] == steps[k]);
                }
            }
        }
        if forall|k: int|
            0 <= k < steps.len() ==> ((#[trigger] steps[k]).endpoint_override matches Some(e)
                ==> target_ok(c, e@)) {
            assert(steps[0].endpoint_override matches Some(e) ==> target_ok(c, e@));
            assert forall|k: int| 0 <= k < rest.len() implies ((
            #[trigger] rest[k]).endpoint_override matches Some(e) ==> target_ok(c, e@)) by {
                assert(rest[k] == steps[k + 1]);
            }
        }
    }
}

proof fn lemma_within(c: AppConfig, s: ScenarioFacts, l: ScenarioLimits)
    ensures
        within_limits(c, s, l) <==> scenario_problem(c, s, l) is None,
{
    lemma_rate(s.rate, c.max_scenarios_per_sec);
    super::rules::lemma_target(c, s.endpoint@);
    lemma_steps(c, s.name@, s.steps@);
}

proof fn lemma_all_within(c: AppConfig, all: Seq<ScenarioFacts>, l: ScenarioLimits)
    ensures
        first_problem(c, all, l) is None <==> forall|i: int|
            0 <= i < all.len() ==> within_limits(c, #[trigger] all[i], l),
    decreases all.len(),
{
    if all.len() > 0 {
        let rest = all.skip(1);
        lemma_all_within(c, rest, l);
        lemma_within(c, all[0], l);
        if first_problem(c, all, l) is None {
            assert forall|i: int| 0 <= i < all.len() implies within_limits(c, #[trigger] all[i], l) by {
                if i > 0 {
                    assert(rest[i - 1] == all[i]);
                }
            }
        }
        if forall|i: int| 0 <= i < all.len() ==> within_limits(c, #[trigger] all[i], l) {
            assert(within_limits(c, all[0], l));
            assert forall|i: int| 0 <= i < rest.len() implies within_limits(
                c,
                #[trigger] rest[i],
                l,
            ) by {
                assert(rest[i] == all[i + 1]);
            }
        }
    }
}

/// A source of scenarios is accepted exactly where it holds some, no more than allowed, and
/// all of them keep the limits.
pub proof fn law_scenario_limits(
    c: AppConfig,
    all: Vec<ScenarioFacts>,
    l: ScenarioLimits,
    r: Result<(), String>,
)
    requires
        call_ensures(validate_scenario_limits, (&c, &all, &l), r),
    ensures
        r is Ok <==> {
            &&& 1 <= all@.len() <= l.max_scenarios
            &&& forall|i: int| 0 <= i < all@.len() ==> within_limits(c, #[trigger] all@[i], l)
        },
{
    lemma_all_within(c, all@, l);
}

/// The endpoint that a step targets: its own, or that of the scenario.
pub open spec fn aims_at(step: StepFacts, default: Seq<char>) -> Seq<char> {
    if step.endpoint_override is Some {
        step.endpoint_override->0@
    } else {
        default
    }
}

/// Whether endpoints are those that dynamic steps target, each once, in the order in which
/// the steps first name them: before the step that first names one, only earlier ones are
/// named.
pub open spec fn named_by(ends: Seq<Seq<char>>, steps: Seq<StepFacts>, default: Seq<char>) -> bool {
    &&& ends.no_duplicates()
    &&& forall|i: int|
        0 <= i < steps.len() && (#[trigger] steps[i]).dynamic ==> ends.contains(
            aims_at(steps[i], default),
        )
    &&& forall|k: int| 0 <= k < ends.len() ==> #[trigger] is_named(ends, k, steps, default)
}

/// Whether a step names an endpoint that no earlier step names.
pub open spec fn is_named(
    ends: Seq<Seq<char>>,
    k: int,
    steps: Seq<StepFacts>,
    default: Seq<char>,
) -> bool {
    exists|i: int| 0 <= i < steps.len() && #[trigger] first_names(ends, k, steps, default, i)
}

/// Whether a step names an endpoint, and the earlier steps only those before it.
pub open spec fn first_names(
    ends: Seq<Seq<char>>,
    k: int,
    steps: Seq<StepFacts>,
    default: Seq<char>,
    i: int,
) -> bool {
    &&& steps[i].dynamic
    &&& aims_at(steps[i], default) == ends[k]
    &&& forall|j: int|
        0 <= j < i && (#[trigger] steps[j]).dynamic ==> ends.take(k).contains(
            aims_at(steps[j], default),
        )
}

proof fn lemma_named_by(steps: Seq<StepFacts>, default: Seq<char>, n: nat)
    requires
        n <= steps.len(),
    ensures
        named_by(targets_of(steps, default, n), steps.take(n as int), default),
    decreases n,
{
    let part = steps.take(n as int);
    let ends = targets_of(steps, default, n);
    if n > 0 {
        let last = n - 1;
        lemma_named_by(steps, default, last as nat);
        let before = targets_of(steps, default, last as nat);
        let front = steps.take(last);
        let t = aims_at(steps[last], default);
        assert(part[last] == steps[last]);
        assert(ends.no_duplicates());
        assert forall|i: int| 0 <= i < part.len() && (#[trigger] part[i]).dynamic implies ends.contains(
            aims_at(part[i], default),
        ) by {
            if i < last {
                assert(front[i] == part[i]);
                assert(before.contains(aims_at(front[i], default)));
                let k = before.index_of(aims_at(front[i], default));
                assert(ends[k] == before[k]);
            } else if !before.contains(t) {
                assert(ends[before.len() as int] == t);
            }
        }
        assert forall|k: int| 0 <= k < ends.len() implies #[trigger] is_named(
            ends,
            k,
            part,
            default,
        ) by {
            if k < before.len() {
                assert(is_named(before, k, front, default));
                assert(before[k] == ends[k]);
                let i = choose|i: int|
                    0 <= i < front.len() && #[trigger] first_names(before, k, front, default, i);
                assert(ends.take(k) =~= before.take(k));
                assert(part[i] == front[i]);
                assert forall|j: int| 0 <= j < i && (#[trigger] part[j]).dynamic implies ends.take(
                    k,
                ).contains(aims_at(part[j], default)) by {
                    assert(part[j] == front[j]);
                }
                assert(first_names(ends, k, part, default, i));
            } else {
                assert(ends.take(k) =~= before);
                assert forall|j: int| 0 <= j < last && (#[trigger] part[j]).dynamic implies ends.take(
                    k,
                ).contains(aims_at(part[j], default)) by {
                    assert(part[j] == front[j]);
                }
                assert(first_names(ends, k, part, default, last));
            }
        }
    }
}

/// The endpoints that the first steps target.
spec fn targets_of(steps: Seq<StepFacts>, default: Seq<char>, n: nat) -> Seq<Seq<char>>
    decreases n,
{
    if n == 0 {
        Seq::empty()
    } else {
        let before = targets_of(steps, default, (n - 1) as nat);
        let step = steps[n - 1];
        if step.dynamic && !before.contains(aims_at(step, default)) {
            before.push(aims_at(step, default))
        } else {
            before
        }
    }
}

proof fn lemma_targets_of(steps: Seq<StepFacts>, default: Seq<char>, n: nat)
    requires
        n <= steps.len(),
    ensures
        with_targets(targets_of(steps, default, n), steps.skip(n as int), default) == with_targets(
            Seq::empty(),
            steps,
            default,
        ),
    decreases n,
{
    if n == 0 {
        assert(steps.skip(0) =~= steps);
    } else {
        lemma_targets_of(steps, default, (n - 1) as nat);
        let rest = steps.skip(n - 1);
        assert(rest[0] == steps[n - 1]);
        assert(rest.skip(1) =~= steps.skip(n as int));
        assert(step_target(steps[n - 1], default) == aims_at(steps[n - 1], default));
    }
}

/// A scenario needs a gateway to every endpoint that one of its dynamic steps targets, each
/// once.
pub proof fn law_required_endpoints(s: ScenarioFacts, ends: Vec<String>)
    requires
        call_ensures(required_endpoints, (&s,), ends),
    ensures
        named_by(views(ends@), s.steps@, s.endpoint@),
{
    let n = s.steps@.len();
    lemma_targets_of(s.steps@, s.endpoint@, n);
    lemma_named_by(s.steps@, s.endpoint@, n);
    assert(s.steps@.take(n as int) =~= s.steps@);
    assert(s.steps@.skip(n as int).len() == 0);
}

/// A scenario with dynamic calls needs a descriptor set, and what is wrong with one, or with
/// a step, is told with its names.
pub proof fn law_descriptor_sets(
    scenario: &str,
    path: Option<String>,
    r: Result<String, String>,
    file: &str,
    error: &str,
    unreadable: String,
    step: &str,
    invalid: String,
)
    requires
        call_ensures(required_descriptor_set, (scenario, path), r),
        call_ensures(unreadable_descriptor_set, (file, error), unreadable),
        call_ensures(invalid_step, (scenario, step, error), invalid),
    ensures
        r is Ok <==> path is Some,
        r matches Ok(p) ==> p@ == path->0@,
        unreadable@ == "could not read gRPC descriptor set '"@ + file@ + "': "@ + error@,
        invalid@ == "scenario '"@ + scenario@ + "' step '"@ + step@
            + "' failed startup validation: "@ + error@,
{
    assert(invalid@ =~= "scenario '"@ + scenario@ + "' step '"@ + step@
        + "' failed startup validation: "@ + error@);
}

proof fn lemma_started(problems: Seq<Option<Seq<char>>>, partial: bool)
    ensures
        started(problems, partial) is Ok <==> partial || forall|i: int|
            0 <= i < problems.len() ==> #[trigger] problems[i] is None,
        started(problems, partial) matches Ok(kept) ==> {
            &&& forall|a: int, b: int| 0 <= a < b < kept.len() ==> kept[a] < kept[b]
            &&& forall|a: int|
                0 <= a < kept.len() ==> (#[trigger] kept[a]) < problems.len()
                    && problems[kept[a] as int] is None
            &&& forall|i: int|
                0 <= i < problems.len() && #[trigger] problems[i] is None ==> kept.contains(
                    i as nat,
                )
        },
        started(problems, partial) matches Err(e) ==> exists|i: int|
            0 <= i < problems.len() && #[trigger] problems[i] == Some(e) && forall|j: int|
                0 <= j < i ==> #[trigger] problems[j] is None,
    decreases problems.len(),
{
    if problems.len() > 0 {
        let front = problems.drop_last();
        let last = problems.len() - 1;
        lemma_started(front, partial);
        assert forall|i: int| 0 <= i < last implies front[i] == #[trigger] problems[i] by {}
        if started(front, partial) is Err {
            let e = started(front, partial)->Err_0;
            let i = choose|i: int|
                0 <= i < front.len() && #[trigger] front[i] == Some(e) && forall|j: int|
                    0 <= j < i ==> #[trigger] front[j] is None;
            assert(problems[i] == Some(e));
            assert forall|j: int| 0 <= j < i implies #[trigger] problems[j] is None by {
                assert(front[j] is None);
            }
        } else {
            let before = started(front, partial)->Ok_0;
            if started(problems, partial) is Ok {
                let kept = started(problems, partial)->Ok_0;
                assert forall|i: int| 0 <= i < problems.len() && #[trigger] problems[i] is None implies kept.contains(
                    i as nat,
                ) by {
                    if i < last {
                        assert(front[i] is None);
                        let k = before.index_of(i as nat);
                        assert(kept[k] == before[k]);
                    } else {
                        assert(kept[before.len() as int] == last);
                    }
                }
                assert forall|a: int| 0 <= a < kept.len() implies (#[trigger] kept[a])
                    < problems.len() && problems[kept[a] as int] is None by {
                    if a < before.len() {
                        assert(kept[a] == before[a]);
                        assert(front[before[a] as int] is None);
                    }
                }
                assert forall|a: int, b: int| 0 <= a < b < kept.len() implies kept[a] < kept[b] by {
                    assert(kept[a] == before[a]);
                    if b < before.len() {
                        assert(kept[b] == before[b]);
                    }
                }
                if !partial {
                    assert forall|i: int| 0 <= i < problems.len() implies #[trigger] problems[i] is None by {
                        if i < last {
                            assert(front[i] is None);
                        }
                    }
                }
            } else {
                let e = started(problems, partial)->Err_0;
                assert(problems[last] == Some(e));
                assert forall|j: int| 0 <= j < last implies #[trigger] problems[j] is None by {
                    assert(front[j] is None);
                }
            }
        }
        if forall|i: int| 0 <= i < problems.len() ==> #[trigger] problems[i] is None {
            assert(problems[last] is None);
            assert forall|i: int| 0 <= i < front.len() implies #[trigger] front[i] is None by {
                assert(problems[i] is None);
            }
        }
    }
}

/// The node starts with the scenarios that nothing is wrong with, in their order; it does
/// not start without one, nor, unless that is allowed, without all.
pub proof fn law_startable(
    problems: Vec<Option<String>>,
    partial: bool,
    r: Result<Vec<usize>, String>,
)
    requires
        call_ensures(startable_plans, (&problems, partial), r),
    ensures
        r is Ok <==> {
            &&& exists|i: int| 0 <= i < problems@.len() && #[trigger] problems@[i] is None
            &&& partial || forall|i: int|
                0 <= i < problems@.len() ==> #[trigger] problems@[i] is None
        },
        r matches Ok(kept) ==> {
            &&& forall|a: int, b: int| 0 <= a < b < kept@.len() ==> kept@[a] < kept@[b]
            &&& forall|a: int|
                0 <= a < kept@.len() ==> (#[trigger] kept@[a]) < problems@.len()
                    && problems@[kept@[a] as int] is None
            &&& forall|i: int|
                0 <= i < problems@.len() && #[trigger] problems@[i] is None ==> exists|a: int|
                    0 <= a < kept@.len() && #[trigger] kept@[a] == i
        },
        r matches Err(e) ==> (!partial && problems@.len() >= 1 ==> exists|i: int|
            0 <= i < problems@.len() && (#[trigger] problems@[i] matches Some(p) && p@ == e@)
                && forall|j: int| 0 <= j < i ==> #[trigger] problems@[j] is None),
{
    let all = problem_views(problems@);
    lemma_started(all, partial);
    assert forall|i: int| 0 <= i < all.len() implies #[trigger] all[i] == opt_view(problems@[i]) by {}
    assert forall|i: int| 0 <= i < problems@.len() implies (#[trigger] problems@[i] is None <==> all[i]
        is None) by {
        assert(all[i] == opt_view(problems@[i]));
    }
    if started(all, partial) is Ok {
        let kept = started(all, partial)->Ok_0;
        if kept.len() > 0 {
            assert(kept[0] < all.len());
            assert(problems@[kept[0] as int] is None);
        }
        if !partial && problems@.len() >= 1 {
            assert(problems@[0] is None <==> all[0] is None);
            assert(all[0] is None);
            assert(kept.contains(0));
        }
        if r is Ok {
            let k = r->Ok_0@;
            assert(crate::runtime::plans::places(k) == kept);
            assert forall|a: int| 0 <= a < k.len() implies #[trigger] k[a] == kept[a] by {
                assert(crate::runtime::plans::places(k)[a] == k[a]);
            }
            assert forall|a: int| 0 <= a < k.len() implies (#[trigger] k[a]) < problems@.len()
                && problems@[k[a] as int] is None by {
                assert(kept[a] < all.len());
            }
            assert forall|i: int| 0 <= i < problems@.len() && #[trigger] problems@[i] is None implies exists|
                a: int,
            | 0 <= a < k.len() && #[trigger] k[a] == i by {
                assert(all[i] is None);
                let a = kept.index_of(i as nat);
                assert(k[a] == i);
            }
            assert forall|a: int, b: int| 0 <= a < b < k.len() implies k[a] < k[b] by {
                assert(kept[a] < kept[b]);
            }
        } else {
            assert(kept.len() == 0);
            if exists|i: int| 0 <= i < problems@.len() && #[trigger] problems@[i] is None {
                let i = choose|i: int| 0 <= i < problems@.len() && #[trigger] problems@[i] is None;
                assert(all[i] is None);
                assert(kept.contains(i as nat));
            }
        }
        if !partial {
            assert forall|i: int| 0 <= i < problems@.len() implies #[trigger] problems@[i] is None by {
                assert(all[i] is None);
            }
        }
    } else {
        let e = started(all, partial)->Err_0;
        let i = choose|i: int|
            0 <= i < all.len() && #[trigger] all[i] == Some(e) && forall|j: int|
                0 <= j < i ==> #[trigger] all[j] is None;
        assert(problems@[i] is Some);
        assert forall|j: int| 0 <= j < i implies #[trigger] problems@[j] is None by {
            assert(all[j] is None);
        }
    }
}

/// A target is given three attempts to become ready, and at least a second.
pub proof fn law_connect_budget(timeout: Duration, d: Duration)
    requires
        call_ensures(connect_budget, (timeout,), d),
    ensures
        nanos(timeout) * 3 <= 1_000_000_000 ==> nanos(d) == 1_000_000_000,
        1_000_000_000 <= nanos(timeout) * 3 <= longest_span() ==> nanos(d) == nanos(timeout) * 3,
        nanos(timeout) * 3 > longest_span() ==> nanos(d) == longest_span(),
{
}

// ---------------------------------------------------------------------------
// Dry runs
// ---------------------------------------------------------------------------

/// Whether a line tells of a plan.
pub open spec fn tells_plan(line: Seq<char>, p: DryRunPlan) -> bool {
    line == "scenario="@ + p.name@ + " endpoint="@ + p.endpoint@ + " duration_ms="@ + decimal(
        whole_ms(p.duration),
    ) + " repeat="@ + p.repeat_text@ + " slices="@ + decimal(p.loads@.len())
}

/// Whether a line tells of a slice of a plan.
pub open spec fn tells_slice(line: Seq<char>, p: DryRunPlan, k: int) -> bool {
    line == "  slice="@ + decimal(k as nat) + "/"@ + decimal(p.loads@.len())
        + " scenarios_per_sec="@ + p.loads@[k].rate_text@ + " max_concurrency="@ + decimal(
        p.loads@[k].max_concurrency as nat,
    ) + " startup_burst="@ + decimal(p.loads@[k].startup_burst as nat) + " duration_ms="@ + decimal(
        whole_ms(p.loads@[k].duration),
    )
}

proof fn lemma_slices(p: DryRunPlan, n: nat)
    requires
        n <= p.loads@.len(),
    ensures
        slice_lines(p.loads@, n).len() == n,
        forall|k: int| 0 <= k < n ==> tells_slice(#[trigger] slice_lines(p.loads@, n)[k], p, k),
    decreases n,
{
    if n > 0 {
        let last = n - 1;
        lemma_slices(p, last as nat);
        let line = slice_line(last as nat, p.loads@.len(), p.loads@[last]);
        assert(tells_slice(line, p, last)) by {
            assert(line =~= "  slice="@ + decimal(last as nat) + "/"@ + decimal(p.loads@.len())
                + " scenarios_per_sec="@ + p.loads@[last].rate_text@ + " max_concurrency="@
                + decimal(p.loads@[last].max_concurrency as nat) + " startup_burst="@ + decimal(
                p.loads@[last].startup_burst as nat,
            ) + " duration_ms="@ + decimal(whole_ms(p.loads@[last].duration)));
        }
        assert forall|k: int| 0 <= k < n implies tells_slice(
            #[trigger] slice_lines(p.loads@, n)[k],
            p,
            k,
        ) by {
            if k < last {
                assert(slice_lines(p.loads@, n)[k] == slice_lines(p.loads@, last as nat)[k]);
            }
        }
    }
}

/// A dry run without plans says one line; with one plan more it says the same and then a
/// line of that plan and one of each of its slices.
pub proof fn law_dry_run(
    plans: Vec<DryRunPlan>,
    more: Vec<DryRunPlan>,
    p: DryRunPlan,
    lines: Vec<String>,
    longer: Vec<String>,
)
    requires
        more@ == plans@.push(p),
        call_ensures(dry_run_lines, (&plans,), lines),
        call_ensures(dry_run_lines, (&more,), longer),
    ensures
        plans@.len() == 0 ==> views(lines@) == seq![
            "Pulse dry run (no target traffic, Kafka, or Redis operations):"@,
        ],
        longer@.len() == lines@.len() + 1 + p.loads@.len(),
        forall|i: int| 0 <= i < lines@.len() ==> (#[trigger] longer@[i])@ == lines@[i]@,
        tells_plan(longer@[lines@.len() as int]@, p),
        forall|k: int|
            0 <= k < p.loads@.len() ==> tells_slice(
                (#[trigger] longer@[lines@.len() + 1 + k])@,
                p,
                k,
            ),
{
    let a = views(lines@);
    let b = views(longer@);
    let n = p.loads@.len();
    assert(more@.drop_last() =~= plans@);
    assert(more@.last() == p);
    lemma_slices(p, n);
    assert(b == a.push(plan_line(p)) + slice_lines(p.loads@, n));
    assert(a.len() == lines@.len());
    assert(b.len() == longer@.len());
    assert forall|i: int| 0 <= i < lines@.len() implies (#[trigger] longer@[i])@ == lines@[i]@ by {
        assert(b[i] == a[i]);
        assert(longer@[i]@ == b[i]);
        assert(lines@[i]@ == a[i]);
    }
    assert(b[lines@.len() as int] == plan_line(p));
    assert(longer@[lines@.len() as int]@ == b[lines@.len() as int]);
    assert(plan_line(p) =~= "scenario="@ + p.name@ + " endpoint="@ + p.endpoint@ + " duration_ms="@
        + decimal(whole_ms(p.duration)) + " repeat="@ + p.repeat_text@ + " slices="@ + decimal(
        p.loads@.len(),
    ));
    assert forall|k: int| 0 <= k < n implies tells_slice(
        (#[trigger] longer@[lines@.len() + 1 + k])@,
        p,
        k,
    ) by {
        assert(b[lines@.len() + 1 + k] == slice_lines(p.loads@, n)[k]);
    }
}

} // verus!
