//! What is counted and measured, and under which names.
use std::time::Duration;
use vstd::prelude::*;
use crate::durations::nanos;
use crate::metrics::{
    build_info, describe_metric, observe_job_age, observe_job_processing, observe_kafka_commit,
    observe_kafka_publish, observe_retry_job_age, observe_schedule_lag, observe_shutdown_drain,
    record_aggregation_update, record_execution_lease, record_execution_lease_renewal_failure,
    record_leadership_change, record_leadership_renewal_failure, record_scenario_execution,
    record_scenario_inflight_dec, record_scenario_inflight_inc, record_scheduler_job_publish_failed,
    record_scheduler_job_published, record_step_execution, record_worker_consume_error,
    record_worker_dlq_publish_failure, record_worker_dlq_published, record_worker_duplicate_job,
    record_worker_job_commit_failure, record_worker_job_commit_success, record_worker_job_received,
    record_worker_result_publish_failure, record_worker_result_published,
    record_worker_retry_job_publish_failure, record_worker_retry_job_published,
    record_worker_unknown_scenario, set_incomplete_dispatch_slices, set_is_leader,
    set_retry_queue_depth, status_label, str_views, update_views, Change, MetricId, MetricKind,
    MetricSpec, MetricUpdate, RuntimeMetrics,
};

verus! {

/// Whether a metric is registered with a kind, a name, a meaning, labels and bounds.
pub open spec fn registered(
    m: MetricSpec,
    kind: MetricKind,
    name: &str,
    help: &str,
    labels: Seq<Seq<char>>,
    bounds: Seq<u64>,
) -> bool {
    &&& m.kind == kind
    &&& m.name@ == name@
    &&& m.help@ == help@
    &&& str_views(m.labels@) == labels
    &&& m.buckets@ == bounds
}

/// How each metric is registered.
pub open spec fn as_known(m: MetricSpec) -> bool {
    match m.id {
        MetricId::SchedulerJobsPublished => registered(
            m,
            MetricKind::Counter,
            "pulse_scheduler_jobs_published_total",
            "Total number of scenario jobs published by scheduler.",
            seq!["scenario"@],
            Seq::empty(),
        ),
        MetricId::SchedulerJobPublishFailures => registered(
            m,
            MetricKind::Counter,
            "pulse_scheduler_job_publish_failures_total",
            "Total number of scheduler publish failures.",
            seq!["scenario"@],
            Seq::empty(),
        ),
        MetricId::SchedulerIsLeader => registered(
            m,
            MetricKind::Gauge,
            "pulse_scheduler_is_leader",
            "Whether current node is leader (1=true, 0=false).",
            Seq::empty(),
            Seq::empty(),
        ),
        MetricId::SchedulerLeadershipChanges => registered(
            m,
            MetricKind::Counter,
            "pulse_scheduler_leadership_changes_total",
            "Leadership state transitions, labelled by the bounded transition outcome.",
            seq!["outcome"@],
            Seq::empty(),
        ),
        MetricId::SchedulerLeadershipRenewalFailures => registered(
            m,
            MetricKind::Counter,
            "pulse_scheduler_leadership_renewal_failures_total",
            "Leader lease renewal failures by bounded error class.",
            seq!["class"@],
            Seq::empty(),
        ),
        MetricId::SchedulerIncompleteDispatchSlices => registered(
            m,
            MetricKind::Gauge,
            "pulse_scheduler_incomplete_dispatch_slices",
            "Current unacknowledged deterministic slices in a dispatch window.",
            seq!["scenario"@],
            Seq::empty(),
        ),
        MetricId::SchedulerScheduleLag => registered(
            m,
            MetricKind::Histogram,
            "pulse_scheduler_schedule_lag_seconds",
            "Delay between a deterministic schedule window and scheduler processing.",
            seq!["scenario"@],
            seq![10, 50, 100, 250, 500, 1000, 2500, 5000, 15000, 60000],
        ),
        MetricId::WorkerJobsReceived => registered(
            m,
            MetricKind::Counter,
            "pulse_worker_jobs_received_total",
            "Total number of worker jobs received.",
            Seq::empty(),
            Seq::empty(),
        ),
        MetricId::WorkerJobConsumeErrors => registered(
            m,
            MetricKind::Counter,
            "pulse_worker_job_consume_errors_total",
            "Total number of worker job consume errors.",
            Seq::empty(),
            Seq::empty(),
        ),
        MetricId::WorkerJobsUnknownScenario => registered(
            m,
            MetricKind::Counter,
            "pulse_worker_jobs_unknown_scenario_total",
            "Total number of jobs skipped because scenario is unknown.",
            Seq::empty(),
            Seq::empty(),
        ),
        MetricId::WorkerJobsDuplicate => registered(
            m,
            MetricKind::Counter,
            "pulse_worker_jobs_duplicate_total",
            "Total number of duplicate jobs skipped by idempotency store.",
            Seq::empty(),
            Seq::empty(),
        ),
        MetricId::WorkerJobCommits => registered(
            m,
            MetricKind::Counter,
            "pulse_worker_job_commits_total",
            "Total number of worker message commits.",
            Seq::empty(),
            Seq::empty(),
        ),
        MetricId::WorkerJobCommitFailures => registered(
            m,
            MetricKind::Counter,
            "pulse_worker_job_commit_failures_total",
            "Total number of worker message commit failures.",
            Seq::empty(),
            Seq::empty(),
        ),
        MetricId::WorkerResultsPublished => registered(
            m,
            MetricKind::Counter,
            "pulse_worker_results_published_total",
            "Total number of scenario run results published.",
            seq!["scenario"@, "status"@],
            Seq::empty(),
        ),
        MetricId::WorkerResultPublishFailures => registered(
            m,
            MetricKind::Counter,
            "pulse_worker_result_publish_failures_total",
            "Total number of result publish failures.",
            Seq::empty(),
            Seq::empty(),
        ),
        MetricId::WorkerRetryJobsPublished => registered(
            m,
            MetricKind::Counter,
            "pulse_worker_retry_jobs_published_total",
            "Total number of retry jobs published.",
            seq!["scenario"@],
            Seq::empty(),
        ),
        MetricId::WorkerRetryJobPublishFailures => registered(
            m,
            MetricKind::Counter,
            "pulse_worker_retry_job_publish_failures_total",
            "Total number of retry publish failures.",
            seq!["scenario"@],
            Seq::empty(),
        ),
        MetricId::WorkerDlqPublished => registered(
            m,
            MetricKind::Counter,
            "pulse_worker_dlq_published_total",
            "Total number of jobs published to dead-letter topic.",
            seq!["scenario"@],
            Seq::empty(),
        ),
        MetricId::WorkerDlqPublishFailures => registered(
            m,
            MetricKind::Counter,
            "pulse_worker_dlq_publish_failures_total",
            "Total number of dead-letter publish failures.",
            seq!["scenario"@],
            Seq::empty(),
        ),
        MetricId::WorkerExecutionLease => registered(
            m,
            MetricKind::Counter,
            "pulse_worker_execution_lease_total",
            "Execution lease outcomes by bounded outcome class.",
            seq!["outcome"@],
            Seq::empty(),
        ),
        MetricId::WorkerExecutionLeaseRenewalFailures => registered(
            m,
            MetricKind::Counter,
            "pulse_worker_execution_lease_renewal_failures_total",
            "Execution lease renewal failures by bounded error class.",
            seq!["class"@],
            Seq::empty(),
        ),
        MetricId::WorkerUncommittedJobs => registered(
            m,
            MetricKind::Gauge,
            "pulse_worker_uncommitted_jobs",
            "Kafka jobs consumed by this process but not synchronously committed.",
            Seq::empty(),
            Seq::empty(),
        ),
        MetricId::WorkerRetryQueueDepth => registered(
            m,
            MetricKind::Gauge,
            "pulse_worker_retry_queue_depth",
            "Current bounded in-process settlement retries (at most one per worker).",
            Seq::empty(),
            Seq::empty(),
        ),
        MetricId::WorkerJobAge => registered(
            m,
            MetricKind::Histogram,
            "pulse_worker_job_age_seconds",
            "Age of a job when processing begins.",
            Seq::empty(),
            seq![10, 100, 500, 1000, 5000, 15000, 60000, 300000, 1800000],
        ),
        MetricId::WorkerRetryJobAge => registered(
            m,
            MetricKind::Histogram,
            "pulse_worker_retry_job_age_seconds",
            "Age since the original schedule window when a retry attempt begins processing.",
            Seq::empty(),
            seq![10, 100, 500, 1000, 5000, 15000, 60000, 300000, 1800000],
        ),
        MetricId::WorkerProcessingDuration => registered(
            m,
            MetricKind::Histogram,
            "pulse_worker_processing_duration_seconds",
            "End-to-end job processing and terminal-settlement duration.",
            Seq::empty(),
            seq![10, 100, 500, 1000, 5000, 15000, 30000, 60000, 120000, 300000],
        ),
        MetricId::WorkerKafkaPublishDuration => registered(
            m,
            MetricKind::Histogram,
            "pulse_kafka_publish_duration_seconds",
            "Kafka producer acknowledgement latency by bounded record kind.",
            seq!["kind"@, "outcome"@],
            seq![1, 5, 10, 25, 50, 100, 250, 500, 1000, 5000, 10000],
        ),
        MetricId::WorkerKafkaCommitDuration => registered(
            m,
            MetricKind::Histogram,
            "pulse_kafka_commit_duration_seconds",
            "Synchronous Kafka source-offset commit latency.",
            Seq::empty(),
            seq![1, 5, 10, 25, 50, 100, 250, 500, 1000, 5000],
        ),
        MetricId::WorkerShutdownDrainDuration => registered(
            m,
            MetricKind::Histogram,
            "pulse_shutdown_drain_duration_seconds",
            "Worker shutdown drain duration.",
            Seq::empty(),
            seq![10, 100, 500, 1000, 5000, 10000, 30000, 60000],
        ),
        MetricId::AggregateResults => registered(
            m,
            MetricKind::Counter,
            "pulse_aggregate_results_total",
            "Run aggregation updates by bounded outcome.",
            seq!["outcome"@],
            Seq::empty(),
        ),
        MetricId::ScenarioInflight => registered(
            m,
            MetricKind::Gauge,
            "pulse_scenario_inflight",
            "Current number of in-flight scenario executions.",
            seq!["scenario"@],
            Seq::empty(),
        ),
        MetricId::ScenarioExecutions => registered(
            m,
            MetricKind::Counter,
            "pulse_scenario_executions_total",
            "Total number of scenario executions.",
            seq!["scenario"@, "status"@],
            Seq::empty(),
        ),
        MetricId::ScenarioDuration => registered(
            m,
            MetricKind::Histogram,
            "pulse_scenario_duration_seconds",
            "Scenario execution duration in seconds.",
            seq!["scenario"@, "status"@],
            seq![1, 5, 10, 25, 50, 100, 250, 500, 1000, 2500, 5000, 10000, 30000, 60000],
        ),
        MetricId::StepExecutions => registered(
            m,
            MetricKind::Counter,
            "pulse_step_executions_total",
            "Total number of step executions.",
            seq!["scenario"@, "step"@, "status"@],
            Seq::empty(),
        ),
        MetricId::StepDuration => registered(
            m,
            MetricKind::Histogram,
            "pulse_step_duration_seconds",
            "Step execution duration in seconds.",
            seq!["scenario"@, "step"@, "status"@],
            seq![1, 5, 10, 25, 50, 100, 250, 500, 1000, 2500, 5000, 10000],
        ),
        MetricId::BuildInfo => registered(
            m,
            MetricKind::Gauge,
            "pulse_build_info",
            "Build information metric (always 1).",
            seq!["version"@],
            Seq::empty(),
        ),
    }
}

/// Each metric is registered under its own name, with the labels that its changes bring, and
/// a distribution with bounds in milliseconds.
pub proof fn law_registration(id: MetricId, m: MetricSpec)
    requires
        call_ensures(describe_metric, (id,), m),
    ensures
        m.id == id,
        as_known(m),
{
}

/// All metrics are registered, each once.
pub proof fn law_all_registered(m: RuntimeMetrics, id: MetricId)
    requires
        call_ensures(RuntimeMetrics::new, (), m),
    ensures
        m.specs@.len() == 36,
        exists|i: int| 0 <= i < m.specs@.len() && (#[trigger] m.specs@[i]).id == id,
        forall|i: int, j: int|
            0 <= i < j < m.specs@.len() ==> (#[trigger] m.specs@[i]).id != (#[trigger] m.specs@[j]).id,
        forall|i: int| 0 <= i < m.specs@.len() ==> as_known(#[trigger] m.specs@[i]),
{
    assert forall|i: int| 0 <= i < m.specs@.len() implies (#[trigger] m.specs@[i]).id == crate::metrics::all_metrics()[i] by {}
    let k = place(id);
    assert(m.specs@[k].id == id);
    assert forall|i: int, j: int| 0 <= i < j < m.specs@.len() implies (#[trigger] m.specs@[i]).id
        != (#[trigger] m.specs@[j]).id by {
        assert(place(m.specs@[i].id) == i);
        assert(place(m.specs@[j].id) == j);
    }
    assert forall|i: int| 0 <= i < m.specs@.len() implies as_known(#[trigger] m.specs@[i]) by {
        assert(m.specs@[i].describes(crate::metrics::all_metrics()[i]));
    }
}

/// Where a metric stands among all.
pub open spec fn place(id: MetricId) -> int {
    match id {
        MetricId::SchedulerJobsPublished => 0,
        MetricId::SchedulerJobPublishFailures => 1,
        MetricId::SchedulerIsLeader => 2,
        MetricId::SchedulerLeadershipChanges => 3,
        MetricId::SchedulerLeadershipRenewalFailures => 4,
        MetricId::SchedulerIncompleteDispatchSlices => 5,
        MetricId::SchedulerScheduleLag => 6,
        MetricId::WorkerJobsReceived => 7,
        MetricId::WorkerJobConsumeErrors => 8,
        MetricId::WorkerJobsUnknownScenario => 9,
        MetricId::WorkerJobsDuplicate => 10,
        MetricId::WorkerJobCommits => 11,
        MetricId::WorkerJobCommitFailures => 12,
        MetricId::WorkerResultsPublished => 13,
        MetricId::WorkerResultPublishFailures => 14,
        MetricId::WorkerRetryJobsPublished => 15,
        MetricId::WorkerRetryJobPublishFailures => 16,
        MetricId::WorkerDlqPublished => 17,
        MetricId::WorkerDlqPublishFailures => 18,
        MetricId::WorkerExecutionLease => 19,
        MetricId::WorkerExecutionLeaseRenewalFailures => 20,
        MetricId::WorkerUncommittedJobs => 21,
        MetricId::WorkerRetryQueueDepth => 22,
        MetricId::WorkerJobAge => 23,
        MetricId::WorkerRetryJobAge => 24,
        MetricId::WorkerProcessingDuration => 25,
        MetricId::WorkerKafkaPublishDuration => 26,
        MetricId::WorkerKafkaCommitDuration => 27,
        MetricId::WorkerShutdownDrainDuration => 28,
        MetricId::AggregateResults => 29,
        MetricId::ScenarioInflight => 30,
        MetricId::ScenarioExecutions => 31,
        MetricId::ScenarioDuration => 32,
        MetricId::StepExecutions => 33,
        MetricId::StepDuration => 34,
        MetricId::BuildInfo => 35,
    }
}

// ---------------------------------------------------------------------------
// Changes
// ---------------------------------------------------------------------------

/// Whether a change is of a metric with labels.
pub open spec fn of(u: MetricUpdate, id: MetricId, labels: Seq<Seq<char>>) -> bool {
    &&& u.metric == id
    &&& u.labels@.len() == labels.len()
    &&& forall|i: int| 0 <= i < labels.len() ==> (#[trigger] u.labels@[i])@ == labels[i]
}

/// Whether a change counts one more.
pub open spec fn more(u: MetricUpdate, id: MetricId, labels: Seq<Seq<char>>) -> bool {
    of(u, id, labels) && u.change is Increment
}

/// Whether a change counts one less.
pub open spec fn less(u: MetricUpdate, id: MetricId, labels: Seq<Seq<char>>) -> bool {
    of(u, id, labels) && u.change is Decrement
}

/// Whether a change sets a number.
pub open spec fn sets(u: MetricUpdate, id: MetricId, labels: Seq<Seq<char>>, n: int) -> bool {
    of(u, id, labels) && (u.change matches Change::SetTo(m) && m == n)
}

/// Whether a change measures a span.
pub open spec fn measures(
    u: MetricUpdate,
    id: MetricId,
    labels: Seq<Seq<char>>,
    span: Duration,
) -> bool {
    of(u, id, labels) && (u.change matches Change::Observe(d) && nanos(d) == nanos(span))
}

proof fn lemma_changes(updates: Seq<MetricUpdate>)
    ensures
        update_views(updates).len() == updates.len(),
        updates.len() >= 1 ==> lies_open(updates, 0),
        updates.len() >= 2 ==> lies_open(updates, 1),
{
    if updates.len() >= 1 {
        assert(update_views(updates)[0] == updates[0]@);
    }
    if updates.len() >= 2 {
        assert(update_views(updates)[1] == updates[1]@);
    }
}

spec fn lies_open(updates: Seq<MetricUpdate>, i: int) -> bool {
    let u = updates[i];
    let v = update_views(updates)[i];
    &&& u@ == v
    &&& u.metric == v.metric
    &&& u.labels@.len() == v.labels.len()
    &&& forall|j: int| 0 <= j < u.labels@.len() ==> (#[trigger] u.labels@[j])@ == v.labels[j]
}

/// The version of the node is shown by a one under it.
pub proof fn law_build_info(version: &str, updates: Vec<MetricUpdate>)
    requires
        call_ensures(build_info, (version,), updates),
    ensures
        updates@.len() == 1,
        sets(updates@[0], MetricId::BuildInfo, seq![version@], 1),
{
    lemma_changes(updates@);
}

/// A leader is shown by a one, another node by a zero.
pub proof fn law_set_is_leader(is_leader: bool, updates: Vec<MetricUpdate>)
    requires
        call_ensures(set_is_leader, (is_leader,), updates),
    ensures
        updates@.len() == 1,
        sets(updates@[0], MetricId::SchedulerIsLeader, Seq::empty(), if is_leader { 1 } else { 0 }),
{
    lemma_changes(updates@);
}

/// A change of leadership is counted under its outcome.
pub proof fn law_record_leadership_change(outcome: &'static str, updates: Vec<MetricUpdate>)
    requires
        call_ensures(record_leadership_change, (outcome,), updates),
    ensures
        updates@.len() == 1,
        more(updates@[0], MetricId::SchedulerLeadershipChanges, seq![outcome@]),
{
    lemma_changes(updates@);
}

/// A failed renewal is counted under its class.
pub proof fn law_record_leadership_renewal_failure(class: &'static str, updates: Vec<MetricUpdate>)
    requires
        call_ensures(record_leadership_renewal_failure, (class,), updates),
    ensures
        updates@.len() == 1,
        more(updates@[0], MetricId::SchedulerLeadershipRenewalFailures, seq![class@]),
{
    lemma_changes(updates@);
}

/// The slices that are not acknowledged are shown under their scenario.
pub proof fn law_set_incomplete_dispatch_slices(scenario: &str, count: u32, updates: Vec<MetricUpdate>)
    requires
        call_ensures(set_incomplete_dispatch_slices, (scenario, count), updates),
    ensures
        updates@.len() == 1,
        sets(updates@[0], MetricId::SchedulerIncompleteDispatchSlices, seq![scenario@], count as int),
{
    lemma_changes(updates@);
}

/// The lag of a window is measured under its scenario.
pub proof fn law_observe_schedule_lag(scenario: &str, lag: Duration, updates: Vec<MetricUpdate>)
    requires
        call_ensures(observe_schedule_lag, (scenario, lag), updates),
    ensures
        updates@.len() == 1,
        measures(updates@[0], MetricId::SchedulerScheduleLag, seq![scenario@], lag),
{
    lemma_changes(updates@);
}

/// A published job is counted under its scenario.
pub proof fn law_record_scheduler_job_published(scenario: &str, updates: Vec<MetricUpdate>)
    requires
        call_ensures(record_scheduler_job_published, (scenario,), updates),
    ensures
        updates@.len() == 1,
        more(updates@[0], MetricId::SchedulerJobsPublished, seq![scenario@]),
{
    lemma_changes(updates@);
}

/// A job that could not be published is counted under its scenario.
pub proof fn law_record_scheduler_job_publish_failed(scenario: &str, updates: Vec<MetricUpdate>)
    requires
        call_ensures(record_scheduler_job_publish_failed, (scenario,), updates),
    ensures
        updates@.len() == 1,
        more(updates@[0], MetricId::SchedulerJobPublishFailures, seq![scenario@]),
{
    lemma_changes(updates@);
}

/// A job that is tried again is counted under its scenario.
pub proof fn law_record_worker_retry_job_published(scenario: &str, updates: Vec<MetricUpdate>)
    requires
        call_ensures(record_worker_retry_job_published, (scenario,), updates),
    ensures
        updates@.len() == 1,
        more(updates@[0], MetricId::WorkerRetryJobsPublished, seq![scenario@]),
{
    lemma_changes(updates@);
}

/// A job that could not be published to be tried again is counted under its scenario.
pub proof fn law_record_worker_retry_job_publish_failure(scenario: &str, updates: Vec<MetricUpdate>)
    requires
        call_ensures(record_worker_retry_job_publish_failure, (scenario,), updates),
    ensures
        updates@.len() == 1,
        more(updates@[0], MetricId::WorkerRetryJobPublishFailures, seq![scenario@]),
{
    lemma_changes(updates@);
}

/// A job that was given up is counted under its scenario.
pub proof fn law_record_worker_dlq_published(scenario: &str, updates: Vec<MetricUpdate>)
    requires
        call_ensures(record_worker_dlq_published, (scenario,), updates),
    ensures
        updates@.len() == 1,
        more(updates@[0], MetricId::WorkerDlqPublished, seq![scenario@]),
{
    lemma_changes(updates@);
}

/// A job that could not be published as given up is counted under its scenario.
pub proof fn law_record_worker_dlq_publish_failure(scenario: &str, updates: Vec<MetricUpdate>)
    requires
        call_ensures(record_worker_dlq_publish_failure, (scenario,), updates),
    ensures
        updates@.len() == 1,
        more(updates@[0], MetricId::WorkerDlqPublishFailures, seq![scenario@]),
{
    lemma_changes(updates@);
}

/// An execution that begins is one more in flight.
pub proof fn law_record_scenario_inflight_inc(scenario: &str, updates: Vec<MetricUpdate>)
    requires
        call_ensures(record_scenario_inflight_inc, (scenario,), updates),
    ensures
        updates@.len() == 1,
        more(updates@[0], MetricId::ScenarioInflight, seq![scenario@]),
{
    lemma_changes(updates@);
}

/// An execution that ends is one less in flight.
pub proof fn law_record_scenario_inflight_dec(scenario: &str, updates: Vec<MetricUpdate>)
    requires
        call_ensures(record_scenario_inflight_dec, (scenario,), updates),
    ensures
        updates@.len() == 1,
        less(updates@[0], MetricId::ScenarioInflight, seq![scenario@]),
{
    lemma_changes(updates@);
}

/// A job that could not be consumed is counted.
pub proof fn law_record_worker_consume_error(updates: Vec<MetricUpdate>)
    requires
        call_ensures(record_worker_consume_error, (), updates),
    ensures
        updates@.len() == 1,
        more(updates@[0], MetricId::WorkerJobConsumeErrors, Seq::empty()),
{
    lemma_changes(updates@);
}

/// A job of an unknown scenario is counted.
pub proof fn law_record_worker_unknown_scenario(updates: Vec<MetricUpdate>)
    requires
        call_ensures(record_worker_unknown_scenario, (), updates),
    ensures
        updates@.len() == 1,
        more(updates@[0], MetricId::WorkerJobsUnknownScenario, Seq::empty()),
{
    lemma_changes(updates@);
}

/// A job that came again is counted.
pub proof fn law_record_worker_duplicate_job(updates: Vec<MetricUpdate>)
    requires
        call_ensures(record_worker_duplicate_job, (), updates),
    ensures
        updates@.len() == 1,
        more(updates@[0], MetricId::WorkerJobsDuplicate, Seq::empty()),
{
    lemma_changes(updates@);
}

/// A commit that failed is counted.
pub proof fn law_record_worker_job_commit_failure(updates: Vec<MetricUpdate>)
    requires
        call_ensures(record_worker_job_commit_failure, (), updates),
    ensures
        updates@.len() == 1,
        more(updates@[0], MetricId::WorkerJobCommitFailures, Seq::empty()),
{
    lemma_changes(updates@);
}

/// A result that could not be published is counted.
pub proof fn law_record_worker_result_publish_failure(updates: Vec<MetricUpdate>)
    requires
        call_ensures(record_worker_result_publish_failure, (), updates),
    ensures
        updates@.len() == 1,
        more(updates@[0], MetricId::WorkerResultPublishFailures, Seq::empty()),
{
    lemma_changes(updates@);
}

/// A job that was received is counted, and one more is not committed.
pub proof fn law_record_worker_job_received(updates: Vec<MetricUpdate>)
    requires
        call_ensures(record_worker_job_received, (), updates),
    ensures
        updates@.len() == 2,
        more(updates@[0], MetricId::WorkerJobsReceived, Seq::empty()),
        more(updates@[1], MetricId::WorkerUncommittedJobs, Seq::empty()),
{
    lemma_changes(updates@);
}

/// A job that was committed is counted, and one less is not committed.
pub proof fn law_record_worker_job_commit_success(updates: Vec<MetricUpdate>)
    requires
        call_ensures(record_worker_job_commit_success, (), updates),
    ensures
        updates@.len() == 2,
        more(updates@[0], MetricId::WorkerJobCommits, Seq::empty()),
        less(updates@[1], MetricId::WorkerUncommittedJobs, Seq::empty()),
{
    lemma_changes(updates@);
}

/// A published result is counted under its scenario and its status.
pub proof fn law_record_worker_result_published(scenario: &str, status: &str, updates: Vec<MetricUpdate>)
    requires
        call_ensures(record_worker_result_published, (scenario, status), updates),
    ensures
        updates@.len() == 1,
        more(updates@[0], MetricId::WorkerResultsPublished, seq![scenario@, status@]),
{
    lemma_changes(updates@);
}

/// A claim to execute is counted under its outcome.
pub proof fn law_record_execution_lease(outcome: &'static str, updates: Vec<MetricUpdate>)
    requires
        call_ensures(record_execution_lease, (outcome,), updates),
    ensures
        updates@.len() == 1,
        more(updates@[0], MetricId::WorkerExecutionLease, seq![outcome@]),
{
    lemma_changes(updates@);
}

/// A claim that could not be renewed is counted under the class of the failure.
pub proof fn law_record_execution_lease_renewal_failure(class: &'static str, updates: Vec<MetricUpdate>)
    requires
        call_ensures(record_execution_lease_renewal_failure, (class,), updates),
    ensures
        updates@.len() == 1,
        more(updates@[0], MetricId::WorkerExecutionLeaseRenewalFailures, seq![class@]),
{
    lemma_changes(updates@);
}

/// An update of an aggregate is counted under its outcome.
pub proof fn law_record_aggregation_update(outcome: &'static str, updates: Vec<MetricUpdate>)
    requires
        call_ensures(record_aggregation_update, (outcome,), updates),
    ensures
        updates@.len() == 1,
        more(updates@[0], MetricId::AggregateResults, seq![outcome@]),
{
    lemma_changes(updates@);
}

/// The depth of the retry queue is shown as it is, but none below zero and none above one.
pub proof fn law_set_retry_queue_depth(depth: i64, updates: Vec<MetricUpdate>)
    requires
        call_ensures(set_retry_queue_depth, (depth,), updates),
    ensures
        updates@.len() == 1,
        0 <= depth <= 1 ==> sets(updates@[0], MetricId::WorkerRetryQueueDepth, Seq::empty(), depth as int),
        depth < 0 ==> sets(updates@[0], MetricId::WorkerRetryQueueDepth, Seq::empty(), 0),
        depth > 1 ==> sets(updates@[0], MetricId::WorkerRetryQueueDepth, Seq::empty(), 1),
{
    lemma_changes(updates@);
}

/// The age of a job is measured.
pub proof fn law_observe_job_age(span: Duration, updates: Vec<MetricUpdate>)
    requires
        call_ensures(observe_job_age, (span,), updates),
    ensures
        updates@.len() == 1,
        measures(updates@[0], MetricId::WorkerJobAge, Seq::empty(), span),
{
    lemma_changes(updates@);
}

/// The age of a job that is tried again is measured.
pub proof fn law_observe_retry_job_age(span: Duration, updates: Vec<MetricUpdate>)
    requires
        call_ensures(observe_retry_job_age, (span,), updates),
    ensures
        updates@.len() == 1,
        measures(updates@[0], MetricId::WorkerRetryJobAge, Seq::empty(), span),
{
    lemma_changes(updates@);
}

/// The time that a job took is measured.
pub proof fn law_observe_job_processing(span: Duration, updates: Vec<MetricUpdate>)
    requires
        call_ensures(observe_job_processing, (span,), updates),
    ensures
        updates@.len() == 1,
        measures(updates@[0], MetricId::WorkerProcessingDuration, Seq::empty(), span),
{
    lemma_changes(updates@);
}

/// The time that a commit took is measured.
pub proof fn law_observe_kafka_commit(span: Duration, updates: Vec<MetricUpdate>)
    requires
        call_ensures(observe_kafka_commit, (span,), updates),
    ensures
        updates@.len() == 1,
        measures(updates@[0], MetricId::WorkerKafkaCommitDuration, Seq::empty(), span),
{
    lemma_changes(updates@);
}

/// The time that draining took is measured.
pub proof fn law_observe_shutdown_drain(span: Duration, updates: Vec<MetricUpdate>)
    requires
        call_ensures(observe_shutdown_drain, (span,), updates),
    ensures
        updates@.len() == 1,
        measures(updates@[0], MetricId::WorkerShutdownDrainDuration, Seq::empty(), span),
{
    lemma_changes(updates@);
}

/// The time until a record was acknowledged, or failed to be, is measured under its kind.
pub proof fn law_observe_kafka_publish(kind: &'static str, span: Duration, ok: bool, updates: Vec<MetricUpdate>)
    requires
        call_ensures(observe_kafka_publish, (kind, span, ok), updates),
    ensures
        updates@.len() == 1,
        ok ==> measures(updates@[0], MetricId::WorkerKafkaPublishDuration, seq![kind@, "acknowledged"@], span),
        !ok ==> measures(updates@[0], MetricId::WorkerKafkaPublishDuration, seq![kind@, "failed"@], span),
{
    lemma_changes(updates@);
}

/// An execution is counted and measured under its scenario and how it ended.
pub proof fn law_record_scenario_execution(scenario: &str, span: Duration, ok: bool, updates: Vec<MetricUpdate>)
    requires
        call_ensures(record_scenario_execution, (scenario, span, ok), updates),
    ensures
        updates@.len() == 2,
        exists|status: Seq<char>| #[trigger] ended(status, ok) && more(updates@[0], MetricId::ScenarioExecutions, seq![scenario@, status]) && measures(updates@[1], MetricId::ScenarioDuration, seq![scenario@, status], span),
{
    lemma_changes(updates@);
    let status = if ok {
        "success"@
    } else {
        "failure"@
    };
    assert(ended(status, ok));
}

/// A step is counted and measured under its scenario, its name and how it ended.
pub proof fn law_record_step_execution(scenario: &str, step: &str, span: Duration, ok: bool, updates: Vec<MetricUpdate>)
    requires
        call_ensures(record_step_execution, (scenario, step, span, ok), updates),
    ensures
        updates@.len() == 2,
        exists|status: Seq<char>| #[trigger] ended(status, ok) && more(updates@[0], MetricId::StepExecutions, seq![scenario@, step@, status]) && measures(updates@[1], MetricId::StepDuration, seq![scenario@, step@, status], span),
{
    lemma_changes(updates@);
    let status = if ok {
        "success"@
    } else {
        "failure"@
    };
    assert(ended(status, ok));
}

/// Whether a word says how an execution ended.
pub open spec fn ended(word: Seq<char>, ok: bool) -> bool {
    word == (if ok {
        "success"@
    } else {
        "failure"@
    })
}

/// The word for how an execution ended.
pub proof fn law_status_label(ok: bool, word: &'static str)
    requires
        call_ensures(status_label, (ok,), word),
    ensures
        ended(word@, ok),
{
}

} // verus!
