//! What the node counts and measures.
use std::time::Duration;
use vstd::prelude::*;
#[allow(unused_imports)]
use crate::durations::nanos;
use crate::text::copy_str;
#[allow(unused_imports)]
use crate::text::views;

verus! {

/// The metrics of the node.
#[derive(Clone, Copy, Debug, PartialEq, Eq, Structural)]
pub enum MetricId {
    SchedulerJobsPublished,
    SchedulerJobPublishFailures,
    SchedulerIsLeader,
    SchedulerLeadershipChanges,
    SchedulerLeadershipRenewalFailures,
    SchedulerIncompleteDispatchSlices,
    SchedulerScheduleLag,
    WorkerJobsReceived,
    WorkerJobConsumeErrors,
    WorkerJobsUnknownScenario,
    WorkerJobsDuplicate,
    WorkerJobCommits,
    WorkerJobCommitFailures,
    WorkerResultsPublished,
    WorkerResultPublishFailures,
    WorkerRetryJobsPublished,
    WorkerRetryJobPublishFailures,
    WorkerDlqPublished,
    WorkerDlqPublishFailures,
    WorkerExecutionLease,
    WorkerExecutionLeaseRenewalFailures,
    WorkerUncommittedJobs,
    WorkerRetryQueueDepth,
    WorkerJobAge,
    WorkerRetryJobAge,
    WorkerProcessingDuration,
    WorkerKafkaPublishDuration,
    WorkerKafkaCommitDuration,
    WorkerShutdownDrainDuration,
    AggregateResults,
    ScenarioInflight,
    ScenarioExecutions,
    ScenarioDuration,
    StepExecutions,
    StepDuration,
    BuildInfo,
}

/// What a metric is: a count that grows, a number that is set, or a distribution.
#[derive(Clone, Copy, Debug, PartialEq, Eq, Structural)]
pub enum MetricKind {
    Counter,
    Gauge,
    Histogram,
}

/// The name of a metric.
pub open spec fn metric_name(id: MetricId) -> Seq<char> {
    match id {
        MetricId::SchedulerJobsPublished => "pulse_scheduler_jobs_published_total"@,
        MetricId::SchedulerJobPublishFailures => "pulse_scheduler_job_publish_failures_total"@,
        MetricId::SchedulerIsLeader => "pulse_scheduler_is_leader"@,
        MetricId::SchedulerLeadershipChanges => "pulse_scheduler_leadership_changes_total"@,
        MetricId::SchedulerLeadershipRenewalFailures => "pulse_scheduler_leadership_renewal_failures_total"@,
        MetricId::SchedulerIncompleteDispatchSlices => "pulse_scheduler_incomplete_dispatch_slices"@,
        MetricId::SchedulerScheduleLag => "pulse_scheduler_schedule_lag_seconds"@,
        MetricId::WorkerJobsReceived => "pulse_worker_jobs_received_total"@,
        MetricId::WorkerJobConsumeErrors => "pulse_worker_job_consume_errors_total"@,
        MetricId::WorkerJobsUnknownScenario => "pulse_worker_jobs_unknown_scenario_total"@,
        MetricId::WorkerJobsDuplicate => "pulse_worker_jobs_duplicate_total"@,
        MetricId::WorkerJobCommits => "pulse_worker_job_commits_total"@,
        MetricId::WorkerJobCommitFailures => "pulse_worker_job_commit_failures_total"@,
        MetricId::WorkerResultsPublished => "pulse_worker_results_published_total"@,
        MetricId::WorkerResultPublishFailures => "pulse_worker_result_publish_failures_total"@,
        MetricId::WorkerRetryJobsPublished => "pulse_worker_retry_jobs_published_total"@,
        MetricId::WorkerRetryJobPublishFailures => "pulse_worker_retry_job_publish_failures_total"@,
        MetricId::WorkerDlqPublished => "pulse_worker_dlq_published_total"@,
        MetricId::WorkerDlqPublishFailures => "pulse_worker_dlq_publish_failures_total"@,
        MetricId::WorkerExecutionLease => "pulse_worker_execution_lease_total"@,
        MetricId::WorkerExecutionLeaseRenewalFailures => "pulse_worker_execution_lease_renewal_failures_total"@,
        MetricId::WorkerUncommittedJobs => "pulse_worker_uncommitted_jobs"@,
        MetricId::WorkerRetryQueueDepth => "pulse_worker_retry_queue_depth"@,
        MetricId::WorkerJobAge => "pulse_worker_job_age_seconds"@,
        MetricId::WorkerRetryJobAge => "pulse_worker_retry_job_age_seconds"@,
        MetricId::WorkerProcessingDuration => "pulse_worker_processing_duration_seconds"@,
        MetricId::WorkerKafkaPublishDuration => "pulse_kafka_publish_duration_seconds"@,
        MetricId::WorkerKafkaCommitDuration => "pulse_kafka_commit_duration_seconds"@,
        MetricId::WorkerShutdownDrainDuration => "pulse_shutdown_drain_duration_seconds"@,
        MetricId::AggregateResults => "pulse_aggregate_results_total"@,
        MetricId::ScenarioInflight => "pulse_scenario_inflight"@,
        MetricId::ScenarioExecutions => "pulse_scenario_executions_total"@,
        MetricId::ScenarioDuration => "pulse_scenario_duration_seconds"@,
        MetricId::StepExecutions => "pulse_step_executions_total"@,
        MetricId::StepDuration => "pulse_step_duration_seconds"@,
        MetricId::BuildInfo => "pulse_build_info"@,
    }
}

/// What a metric says, in words.
pub open spec fn metric_help(id: MetricId) -> Seq<char> {
    match id {
        MetricId::SchedulerJobsPublished => "Total number of scenario jobs published by scheduler."@,
        MetricId::SchedulerJobPublishFailures => "Total number of scheduler publish failures."@,
        MetricId::SchedulerIsLeader => "Whether current node is leader (1=true, 0=false)."@,
        MetricId::SchedulerLeadershipChanges => "Leadership state transitions, labelled by the bounded transition outcome."@,
        MetricId::SchedulerLeadershipRenewalFailures => "Leader lease renewal failures by bounded error class."@,
        MetricId::SchedulerIncompleteDispatchSlices => "Current unacknowledged deterministic slices in a dispatch window."@,
        MetricId::SchedulerScheduleLag => "Delay between a deterministic schedule window and scheduler processing."@,
        MetricId::WorkerJobsReceived => "Total number of worker jobs received."@,
        MetricId::WorkerJobConsumeErrors => "Total number of worker job consume errors."@,
        MetricId::WorkerJobsUnknownScenario => "Total number of jobs skipped because scenario is unknown."@,
        MetricId::WorkerJobsDuplicate => "Total number of duplicate jobs skipped by idempotency store."@,
        MetricId::WorkerJobCommits => "Total number of worker message commits."@,
        MetricId::WorkerJobCommitFailures => "Total number of worker message commit failures."@,
        MetricId::WorkerResultsPublished => "Total number of scenario run results published."@,
        MetricId::WorkerResultPublishFailures => "Total number of result publish failures."@,
        MetricId::WorkerRetryJobsPublished => "Total number of retry jobs published."@,
        MetricId::WorkerRetryJobPublishFailures => "Total number of retry publish failures."@,
        MetricId::WorkerDlqPublished => "Total number of jobs published to dead-letter topic."@,
        MetricId::WorkerDlqPublishFailures => "Total number of dead-letter publish failures."@,
        MetricId::WorkerExecutionLease => "Execution lease outcomes by bounded outcome class."@,
        MetricId::WorkerExecutionLeaseRenewalFailures => "Execution lease renewal failures by bounded error class."@,
        MetricId::WorkerUncommittedJobs => "Kafka jobs consumed by this process but not synchronously committed."@,
        MetricId::WorkerRetryQueueDepth => "Current bounded in-process settlement retries (at most one per worker)."@,
        MetricId::WorkerJobAge => "Age of a job when processing begins."@,
        MetricId::WorkerRetryJobAge => "Age since the original schedule window when a retry attempt begins processing."@,
        MetricId::WorkerProcessingDuration => "End-to-end job processing and terminal-settlement duration."@,
        MetricId::WorkerKafkaPublishDuration => "Kafka producer acknowledgement latency by bounded record kind."@,
        MetricId::WorkerKafkaCommitDuration => "Synchronous Kafka source-offset commit latency."@,
        MetricId::WorkerShutdownDrainDuration => "Worker shutdown drain duration."@,
        MetricId::AggregateResults => "Run aggregation updates by bounded outcome."@,
        MetricId::ScenarioInflight => "Current number of in-flight scenario executions."@,
        MetricId::ScenarioExecutions => "Total number of scenario executions."@,
        MetricId::ScenarioDuration => "Scenario execution duration in seconds."@,
        MetricId::StepExecutions => "Total number of step executions."@,
        MetricId::StepDuration => "Step execution duration in seconds."@,
        MetricId::BuildInfo => "Build information metric (always 1)."@,
    }
}

/// What a metric is.
pub open spec fn metric_kind(id: MetricId) -> MetricKind {
    match id {
        MetricId::SchedulerJobsPublished => MetricKind::Counter,
        MetricId::SchedulerJobPublishFailures => MetricKind::Counter,
        MetricId::SchedulerIsLeader => MetricKind::Gauge,
        MetricId::SchedulerLeadershipChanges => MetricKind::Counter,
        MetricId::SchedulerLeadershipRenewalFailures => MetricKind::Counter,
        MetricId::SchedulerIncompleteDispatchSlices => MetricKind::Gauge,
        MetricId::SchedulerScheduleLag => MetricKind::Histogram,
        MetricId::WorkerJobsReceived => MetricKind::Counter,
        MetricId::WorkerJobConsumeErrors => MetricKind::Counter,
        MetricId::WorkerJobsUnknownScenario => MetricKind::Counter,
        MetricId::WorkerJobsDuplicate => MetricKind::Counter,
        MetricId::WorkerJobCommits => MetricKind::Counter,
        MetricId::WorkerJobCommitFailures => MetricKind::Counter,
        MetricId::WorkerResultsPublished => MetricKind::Counter,
        MetricId::WorkerResultPublishFailures => MetricKind::Counter,
        MetricId::WorkerRetryJobsPublished => MetricKind::Counter,
        MetricId::WorkerRetryJobPublishFailures => MetricKind::Counter,
        MetricId::WorkerDlqPublished => MetricKind::Counter,
        MetricId::WorkerDlqPublishFailures => MetricKind::Counter,
        MetricId::WorkerExecutionLease => MetricKind::Counter,
        MetricId::WorkerExecutionLeaseRenewalFailures => MetricKind::Counter,
        MetricId::WorkerUncommittedJobs => MetricKind::Gauge,
        MetricId::WorkerRetryQueueDepth => MetricKind::Gauge,
        MetricId::WorkerJobAge => MetricKind::Histogram,
        MetricId::WorkerRetryJobAge => MetricKind::Histogram,
        MetricId::WorkerProcessingDuration => MetricKind::Histogram,
        MetricId::WorkerKafkaPublishDuration => MetricKind::Histogram,
        MetricId::WorkerKafkaCommitDuration => MetricKind::Histogram,
        MetricId::WorkerShutdownDrainDuration => MetricKind::Histogram,
        MetricId::AggregateResults => MetricKind::Counter,
        MetricId::ScenarioInflight => MetricKind::Gauge,
        MetricId::ScenarioExecutions => MetricKind::Counter,
        MetricId::ScenarioDuration => MetricKind::Histogram,
        MetricId::StepExecutions => MetricKind::Counter,
        MetricId::StepDuration => MetricKind::Histogram,
        MetricId::BuildInfo => MetricKind::Gauge,
    }
}

/// The labels of a metric.
pub open spec fn metric_labels(id: MetricId) -> Seq<Seq<char>> {
    match id {
        MetricId::SchedulerJobsPublished => seq!["scenario"@],
        MetricId::SchedulerJobPublishFailures => seq!["scenario"@],
        MetricId::SchedulerIsLeader => Seq::empty(),
        MetricId::SchedulerLeadershipChanges => seq!["outcome"@],
        MetricId::SchedulerLeadershipRenewalFailures => seq!["class"@],
        MetricId::SchedulerIncompleteDispatchSlices => seq!["scenario"@],
        MetricId::SchedulerScheduleLag => seq!["scenario"@],
        MetricId::WorkerJobsReceived => Seq::empty(),
        MetricId::WorkerJobConsumeErrors => Seq::empty(),
        MetricId::WorkerJobsUnknownScenario => Seq::empty(),
        MetricId::WorkerJobsDuplicate => Seq::empty(),
        MetricId::WorkerJobCommits => Seq::empty(),
        MetricId::WorkerJobCommitFailures => Seq::empty(),
        MetricId::WorkerResultsPublished => seq!["scenario"@, "status"@],
        MetricId::WorkerResultPublishFailures => Seq::empty(),
        MetricId::WorkerRetryJobsPublished => seq!["scenario"@],
        MetricId::WorkerRetryJobPublishFailures => seq!["scenario"@],
        MetricId::WorkerDlqPublished => seq!["scenario"@],
        MetricId::WorkerDlqPublishFailures => seq!["scenario"@],
        MetricId::WorkerExecutionLease => seq!["outcome"@],
        MetricId::WorkerExecutionLeaseRenewalFailures => seq!["class"@],
        MetricId::WorkerUncommittedJobs => Seq::empty(),
        MetricId::WorkerRetryQueueDepth => Seq::empty(),
        MetricId::WorkerJobAge => Seq::empty(),
        MetricId::WorkerRetryJobAge => Seq::empty(),
        MetricId::WorkerProcessingDuration => Seq::empty(),
        MetricId::WorkerKafkaPublishDuration => seq!["kind"@, "outcome"@],
        MetricId::WorkerKafkaCommitDuration => Seq::empty(),
        MetricId::WorkerShutdownDrainDuration => Seq::empty(),
        MetricId::AggregateResults => seq!["outcome"@],
        MetricId::ScenarioInflight => seq!["scenario"@],
        MetricId::ScenarioExecutions => seq!["scenario"@, "status"@],
        MetricId::ScenarioDuration => seq!["scenario"@, "status"@],
        MetricId::StepExecutions => seq!["scenario"@, "step"@, "status"@],
        MetricId::StepDuration => seq!["scenario"@, "step"@, "status"@],
        MetricId::BuildInfo => seq!["version"@],
    }
}

/// The upper bounds of a distribution's buckets, in milliseconds.
pub open spec fn metric_buckets(id: MetricId) -> Seq<u64> {
    match id {
        MetricId::SchedulerScheduleLag => seq![10, 50, 100, 250, 500, 1000, 2500, 5000, 15000, 60000],
        MetricId::WorkerJobAge => seq![10, 100, 500, 1000, 5000, 15000, 60000, 300000, 1800000],
        MetricId::WorkerRetryJobAge => seq![10, 100, 500, 1000, 5000, 15000, 60000, 300000, 1800000],
        MetricId::WorkerProcessingDuration => seq![10, 100, 500, 1000, 5000, 15000, 30000, 60000, 120000, 300000],
        MetricId::WorkerKafkaPublishDuration => seq![1, 5, 10, 25, 50, 100, 250, 500, 1000, 5000, 10000],
        MetricId::WorkerKafkaCommitDuration => seq![1, 5, 10, 25, 50, 100, 250, 500, 1000, 5000],
        MetricId::WorkerShutdownDrainDuration => seq![10, 100, 500, 1000, 5000, 10000, 30000, 60000],
        MetricId::ScenarioDuration => seq![1, 5, 10, 25, 50, 100, 250, 500, 1000, 2500, 5000, 10000, 30000, 60000],
        MetricId::StepDuration => seq![1, 5, 10, 25, 50, 100, 250, 500, 1000, 2500, 5000, 10000],
        _ => Seq::empty(),
    }
}

/// A metric as it is registered; bounds of buckets in milliseconds.
pub struct MetricSpec {
    pub id: MetricId,
    pub kind: MetricKind,
    pub name: &'static str,
    pub help: &'static str,
    pub labels: Vec<&'static str>,
    pub buckets: Vec<u64>,
}

/// What texts hold.
pub open spec fn str_views(texts: Seq<&'static str>) -> Seq<Seq<char>> {
    texts.map_values(|t: &'static str| t@)
}

impl MetricSpec {
    /// Whether this is how a metric is registered.
    pub open spec fn describes(&self, id: MetricId) -> bool {
        &&& self.id == id
        &&& self.kind == metric_kind(id)
        &&& self.name@ == metric_name(id)
        &&& self.help@ == metric_help(id)
        &&& str_views(self.labels@) == metric_labels(id)
        &&& self.buckets@ == metric_buckets(id)
    }
}

/// How a metric is registered.
pub fn describe_metric(id: MetricId) -> (m: MetricSpec)
    ensures
        m.describes(id),
{
    let (kind, name, help) = match id {
        MetricId::SchedulerJobsPublished => (
            MetricKind::Counter,
            "pulse_scheduler_jobs_published_total",
            "Total number of scenario jobs published by scheduler.",
        ),
        MetricId::SchedulerJobPublishFailures => (
            MetricKind::Counter,
            "pulse_scheduler_job_publish_failures_total",
            "Total number of scheduler publish failures.",
        ),
        MetricId::SchedulerIsLeader => (
            MetricKind::Gauge,
            "pulse_scheduler_is_leader",
            "Whether current node is leader (1=true, 0=false).",
        ),
        MetricId::SchedulerLeadershipChanges => (
            MetricKind::Counter,
            "pulse_scheduler_leadership_changes_total",
            "Leadership state transitions, labelled by the bounded transition outcome.",
        ),
        MetricId::SchedulerLeadershipRenewalFailures => (
            MetricKind::Counter,
            "pulse_scheduler_leadership_renewal_failures_total",
            "Leader lease renewal failures by bounded error class.",
        ),
        MetricId::SchedulerIncompleteDispatchSlices => (
            MetricKind::Gauge,
            "pulse_scheduler_incomplete_dispatch_slices",
            "Current unacknowledged deterministic slices in a dispatch window.",
        ),
        MetricId::SchedulerScheduleLag => (
            MetricKind::Histogram,
            "pulse_scheduler_schedule_lag_seconds",
            "Delay between a deterministic schedule window and scheduler processing.",
        ),
        MetricId::WorkerJobsReceived => (
            MetricKind::Counter,
            "pulse_worker_jobs_received_total",
            "Total number of worker jobs received.",
        ),
        MetricId::WorkerJobConsumeErrors => (
            MetricKind::Counter,
            "pulse_worker_job_consume_errors_total",
            "Total number of worker job consume errors.",
        ),
        MetricId::WorkerJobsUnknownScenario => (
            MetricKind::Counter,
            "pulse_worker_jobs_unknown_scenario_total",
            "Total number of jobs skipped because scenario is unknown.",
        ),
        MetricId::WorkerJobsDuplicate => (
            MetricKind::Counter,
            "pulse_worker_jobs_duplicate_total",
            "Total number of duplicate jobs skipped by idempotency store.",
        ),
        MetricId::WorkerJobCommits => (
            MetricKind::Counter,
            "pulse_worker_job_commits_total",
            "Total number of worker message commits.",
        ),
        MetricId::WorkerJobCommitFailures => (
            MetricKind::Counter,
            "pulse_worker_job_commit_failures_total",
            "Total number of worker message commit failures.",
        ),
        MetricId::WorkerResultsPublished => (
            MetricKind::Counter,
            "pulse_worker_results_published_total",
            "Total number of scenario run results published.",
        ),
        MetricId::WorkerResultPublishFailures => (
            MetricKind::Counter,
            "pulse_worker_result_publish_failures_total",
            "Total number of result publish failures.",
        ),
        MetricId::WorkerRetryJobsPublished => (
            MetricKind::Counter,
            "pulse_worker_retry_jobs_published_total",
            "Total number of retry jobs published.",
        ),
        MetricId::WorkerRetryJobPublishFailures => (
            MetricKind::Counter,
            "pulse_worker_retry_job_publish_failures_total",
            "Total number of retry publish failures.",
        ),
        MetricId::WorkerDlqPublished => (
            MetricKind::Counter,
            "pulse_worker_dlq_published_total",
            "Total number of jobs published to dead-letter topic.",
        ),
        MetricId::WorkerDlqPublishFailures => (
            MetricKind::Counter,
            "pulse_worker_dlq_publish_failures_total",
            "Total number of dead-letter publish failures.",
        ),
        MetricId::WorkerExecutionLease => (
            MetricKind::Counter,
            "pulse_worker_execution_lease_total",
            "Execution lease outcomes by bounded outcome class.",
        ),
        MetricId::WorkerExecutionLeaseRenewalFailures => (
            MetricKind::Counter,
            "pulse_worker_execution_lease_renewal_failures_total",
            "Execution lease renewal failures by bounded error class.",
        ),
        MetricId::WorkerUncommittedJobs => (
            MetricKind::Gauge,
            "pulse_worker_uncommitted_jobs",
            "Kafka jobs consumed by this process but not synchronously committed.",
        ),
        MetricId::WorkerRetryQueueDepth => (
            MetricKind::Gauge,
            "pulse_worker_retry_queue_depth",
            "Current bounded in-process settlement retries (at most one per worker).",
        ),
        MetricId::WorkerJobAge => (
            MetricKind::Histogram,
            "pulse_worker_job_age_seconds",
            "Age of a job when processing begins.",
        ),
        MetricId::WorkerRetryJobAge => (
            MetricKind::Histogram,
            "pulse_worker_retry_job_age_seconds",
            "Age since the original schedule window when a retry attempt begins processing.",
        ),
        MetricId::WorkerProcessingDuration => (
            MetricKind::Histogram,
            "pulse_worker_processing_duration_seconds",
            "End-to-end job processing and terminal-settlement duration.",
        ),
        MetricId::WorkerKafkaPublishDuration => (
            MetricKind::Histogram,
            "pulse_kafka_publish_duration_seconds",
            "Kafka producer acknowledgement latency by bounded record kind.",
        ),
        MetricId::WorkerKafkaCommitDuration => (
            MetricKind::Histogram,
            "pulse_kafka_commit_duration_seconds",
            "Synchronous Kafka source-offset commit latency.",
        ),
        MetricId::WorkerShutdownDrainDuration => (
            MetricKind::Histogram,
            "pulse_shutdown_drain_duration_seconds",
            "Worker shutdown drain duration.",
        ),
        MetricId::AggregateResults => (
            MetricKind::Counter,
            "pulse_aggregate_results_total",
            "Run aggregation updates by bounded outcome.",
        ),
        MetricId::ScenarioInflight => (
            MetricKind::Gauge,
            "pulse_scenario_inflight",
            "Current number of in-flight scenario executions.",
        ),
        MetricId::ScenarioExecutions => (
            MetricKind::Counter,
            "pulse_scenario_executions_total",
            "Total number of scenario executions.",
        ),
        MetricId::ScenarioDuration => (
            MetricKind::Histogram,
            "pulse_scenario_duration_seconds",
            "Scenario execution duration in seconds.",
        ),
        MetricId::StepExecutions => (
            MetricKind::Counter,
            "pulse_step_executions_total",
            "Total number of step executions.",
        ),
        MetricId::StepDuration => (
            MetricKind::Histogram,
            "pulse_step_duration_seconds",
            "Step execution duration in seconds.",
        ),
        MetricId::BuildInfo => (
            MetricKind::Gauge,
            "pulse_build_info",
            "Build information metric (always 1).",
        ),
    };
    let labels: Vec<&'static str> = match id {
        MetricId::SchedulerJobsPublished
        | MetricId::SchedulerJobPublishFailures
        | MetricId::SchedulerIncompleteDispatchSlices
        | MetricId::SchedulerScheduleLag
        | MetricId::WorkerRetryJobsPublished
        | MetricId::WorkerRetryJobPublishFailures
        | MetricId::WorkerDlqPublished
        | MetricId::WorkerDlqPublishFailures
        | MetricId::ScenarioInflight => vec!["scenario"],
        MetricId::SchedulerLeadershipChanges
        | MetricId::WorkerExecutionLease
        | MetricId::AggregateResults => vec!["outcome"],
        MetricId::SchedulerLeadershipRenewalFailures
        | MetricId::WorkerExecutionLeaseRenewalFailures => vec!["class"],
        MetricId::WorkerResultsPublished
        | MetricId::ScenarioExecutions
        | MetricId::ScenarioDuration => vec!["scenario", "status"],
        MetricId::WorkerKafkaPublishDuration => vec!["kind", "outcome"],
        MetricId::StepExecutions
        | MetricId::StepDuration => vec!["scenario", "step", "status"],
        MetricId::BuildInfo => vec!["version"],
        _ => Vec::new(),
    };
    let buckets: Vec<u64> = match id {
        MetricId::SchedulerScheduleLag => vec![10, 50, 100, 250, 500, 1000, 2500, 5000, 15000, 60000],
        MetricId::WorkerJobAge
        | MetricId::WorkerRetryJobAge => vec![10, 100, 500, 1000, 5000, 15000, 60000, 300000, 1800000],
        MetricId::WorkerProcessingDuration => vec![10, 100, 500, 1000, 5000, 15000, 30000, 60000, 120000, 300000],
        MetricId::WorkerKafkaPublishDuration => vec![1, 5, 10, 25, 50, 100, 250, 500, 1000, 5000, 10000],
        MetricId::WorkerKafkaCommitDuration => vec![1, 5, 10, 25, 50, 100, 250, 500, 1000, 5000],
        MetricId::WorkerShutdownDrainDuration => vec![10, 100, 500, 1000, 5000, 10000, 30000, 60000],
        MetricId::ScenarioDuration => vec![1, 5, 10, 25, 50, 100, 250, 500, 1000, 2500, 5000, 10000, 30000, 60000],
        MetricId::StepDuration => vec![1, 5, 10, 25, 50, 100, 250, 500, 1000, 2500, 5000, 10000],
        _ => Vec::new(),
    };
    assert(str_views(labels@) =~= metric_labels(id));
    assert(buckets@ =~= metric_buckets(id));
    MetricSpec { id, kind, name, help, labels, buckets }
}

/// All metrics, in the order in which they are registered.
pub open spec fn all_metrics() -> Seq<MetricId> {
    seq![
        MetricId::SchedulerJobsPublished,
        MetricId::SchedulerJobPublishFailures,
        MetricId::SchedulerIsLeader,
        MetricId::SchedulerLeadershipChanges,
        MetricId::SchedulerLeadershipRenewalFailures,
        MetricId::SchedulerIncompleteDispatchSlices,
        MetricId::SchedulerScheduleLag,
        MetricId::WorkerJobsReceived,
        MetricId::WorkerJobConsumeErrors,
        MetricId::WorkerJobsUnknownScenario,
        MetricId::WorkerJobsDuplicate,
        MetricId::WorkerJobCommits,
        MetricId::WorkerJobCommitFailures,
        MetricId::WorkerResultsPublished,
        MetricId::WorkerResultPublishFailures,
        MetricId::WorkerRetryJobsPublished,
        MetricId::WorkerRetryJobPublishFailures,
        MetricId::WorkerDlqPublished,
        MetricId::WorkerDlqPublishFailures,
        MetricId::WorkerExecutionLease,
        MetricId::WorkerExecutionLeaseRenewalFailures,
        MetricId::WorkerUncommittedJobs,
        MetricId::WorkerRetryQueueDepth,
        MetricId::WorkerJobAge,
        MetricId::WorkerRetryJobAge,
        MetricId::WorkerProcessingDuration,
        MetricId::WorkerKafkaPublishDuration,
        MetricId::WorkerKafkaCommitDuration,
        MetricId::WorkerShutdownDrainDuration,
        MetricId::AggregateResults,
        MetricId::ScenarioInflight,
        MetricId::ScenarioExecutions,
        MetricId::ScenarioDuration,
        MetricId::StepExecutions,
        MetricId::StepDuration,
        MetricId::BuildInfo,
    ]
}

/// The metrics of the node as they are registered.
pub struct RuntimeMetrics {
    pub specs: Vec<MetricSpec>,
}

impl RuntimeMetrics {
    /// The metrics of the node: every one once.
    pub fn new() -> (m: Self)
        ensures
            m.specs@.len() == all_metrics().len(),
            forall|i: int|
                0 <= i < m.specs@.len() ==> (#[trigger] m.specs@[i]).describes(all_metrics()[i]),
    {
        let ids: Vec<MetricId> = vec![
            MetricId::SchedulerJobsPublished,
            MetricId::SchedulerJobPublishFailures,
            MetricId::SchedulerIsLeader,
            MetricId::SchedulerLeadershipChanges,
            MetricId::SchedulerLeadershipRenewalFailures,
            MetricId::SchedulerIncompleteDispatchSlices,
            MetricId::SchedulerScheduleLag,
            MetricId::WorkerJobsReceived,
            MetricId::WorkerJobConsumeErrors,
            MetricId::WorkerJobsUnknownScenario,
            MetricId::WorkerJobsDuplicate,
            MetricId::WorkerJobCommits,
            MetricId::WorkerJobCommitFailures,
            MetricId::WorkerResultsPublished,
            MetricId::WorkerResultPublishFailures,
            MetricId::WorkerRetryJobsPublished,
            MetricId::WorkerRetryJobPublishFailures,
            MetricId::WorkerDlqPublished,
            MetricId::WorkerDlqPublishFailures,
            MetricId::WorkerExecutionLease,
            MetricId::WorkerExecutionLeaseRenewalFailures,
            MetricId::WorkerUncommittedJobs,
            MetricId::WorkerRetryQueueDepth,
            MetricId::WorkerJobAge,
            MetricId::WorkerRetryJobAge,
            MetricId::WorkerProcessingDuration,
            MetricId::WorkerKafkaPublishDuration,
            MetricId::WorkerKafkaCommitDuration,
            MetricId::WorkerShutdownDrainDuration,
            MetricId::AggregateResults,
            MetricId::ScenarioInflight,
            MetricId::ScenarioExecutions,
            MetricId::ScenarioDuration,
            MetricId::StepExecutions,
            MetricId::StepDuration,
            MetricId::BuildInfo,
        ];
        assert(ids@ =~= all_metrics());
        let mut specs: Vec<MetricSpec> = Vec::new();
        let mut i: usize = 0;
        while i < ids.len()
            invariant
                i <= ids@.len(),
                ids@ == all_metrics(),
                specs@.len() == i,
                forall|k: int|
                    0 <= k < i ==> (#[trigger] specs@[k]).describes(all_metrics()[k]),
            decreases ids@.len() - i,
        {
            specs.push(describe_metric(ids[i]));
            i += 1;
        }
        RuntimeMetrics { specs }
    }
}

/// What tells the name of a metric from the others.
spec fn signature(name: Seq<char>) -> (nat, char, char) {
    (name.len(), name[6], name[name.len() - 9])
}

/// The metric with a signature.
spec fn signed(s: (nat, char, char)) -> MetricId {
    if s == (36nat, 's', 'h') {
        MetricId::SchedulerJobsPublished
    } else if s == (42nat, 's', 'r') {
        MetricId::SchedulerJobPublishFailures
    } else if s == (25nat, 's', 'i') {
        MetricId::SchedulerIsLeader
    } else if s == (40nat, 's', 'g') {
        MetricId::SchedulerLeadershipChanges
    } else if s == (49nat, 's', 'r') {
        MetricId::SchedulerLeadershipRenewalFailures
    } else if s == (42nat, 's', 'c') {
        MetricId::SchedulerIncompleteDispatchSlices
    } else if s == (36nat, 's', 'g') {
        MetricId::SchedulerScheduleLag
    } else if s == (32nat, 'w', 'v') {
        MetricId::WorkerJobsReceived
    } else if s == (37nat, 'w', 'o') {
        MetricId::WorkerJobConsumeErrors
    } else if s == (40nat, 'w', 'r') {
        MetricId::WorkerJobsUnknownScenario
    } else if s == (33nat, 'w', 'a') {
        MetricId::WorkerJobsDuplicate
    } else if s == (30nat, 'w', 'i') {
        MetricId::WorkerJobCommits
    } else if s == (38nat, 'w', 'r') {
        MetricId::WorkerJobCommitFailures
    } else if s == (36nat, 'w', 'h') {
        MetricId::WorkerResultsPublished
    } else if s == (42nat, 'w', 'r') {
        MetricId::WorkerResultPublishFailures
    } else if s == (39nat, 'w', 'h') {
        MetricId::WorkerRetryJobsPublished
    } else if s == (45nat, 'w', 'r') {
        MetricId::WorkerRetryJobPublishFailures
    } else if s == (32nat, 'w', 'h') {
        MetricId::WorkerDlqPublished
    } else if s == (39nat, 'w', 'r') {
        MetricId::WorkerDlqPublishFailures
    } else if s == (34nat, 'w', 'a') {
        MetricId::WorkerExecutionLease
    } else if s == (51nat, 'w', 'r') {
        MetricId::WorkerExecutionLeaseRenewalFailures
    } else if s == (29nat, 'w', 't') {
        MetricId::WorkerUncommittedJobs
    } else if s == (30nat, 'w', 'e') {
        MetricId::WorkerRetryQueueDepth
    } else if s == (28nat, 'w', 'e') {
        MetricId::WorkerJobAge
    } else if s == (34nat, 'w', 'e') {
        MetricId::WorkerRetryJobAge
    } else if s == (40nat, 'w', 'n') {
        MetricId::WorkerProcessingDuration
    } else if s == (36nat, 'k', 'n') {
        MetricId::WorkerKafkaPublishDuration
    } else if s == (35nat, 'k', 'n') {
        MetricId::WorkerKafkaCommitDuration
    } else if s == (37nat, 's', 'n') {
        MetricId::WorkerShutdownDrainDuration
    } else if s == (29nat, 'a', 'l') {
        MetricId::AggregateResults
    } else if s == (23nat, 's', '_') {
        MetricId::ScenarioInflight
    } else if s == (31nat, 's', 'o') {
        MetricId::ScenarioExecutions
    } else if s == (31nat, 's', 'n') {
        MetricId::ScenarioDuration
    } else if s == (27nat, 's', 'o') {
        MetricId::StepExecutions
    } else if s == (27nat, 's', 'n') {
        MetricId::StepDuration
    } else if s == (16nat, 'b', 'u') {
        MetricId::BuildInfo
    } else {
        MetricId::BuildInfo
    }
}

proof fn lemma_signatures_a(id: MetricId)
    ensures
        id == MetricId::SchedulerJobsPublished ==> signed(signature(metric_name(id))) == id,
        id == MetricId::SchedulerJobPublishFailures ==> signed(signature(metric_name(id))) == id,
        id == MetricId::SchedulerIsLeader ==> signed(signature(metric_name(id))) == id,
        id == MetricId::SchedulerLeadershipChanges ==> signed(signature(metric_name(id))) == id,
        id == MetricId::SchedulerLeadershipRenewalFailures ==> signed(signature(metric_name(id))) == id,
        id == MetricId::SchedulerIncompleteDispatchSlices ==> signed(signature(metric_name(id))) == id,
        id == MetricId::SchedulerScheduleLag ==> signed(signature(metric_name(id))) == id,
        id == MetricId::WorkerJobsReceived ==> signed(signature(metric_name(id))) == id,
        id == MetricId::WorkerJobConsumeErrors ==> signed(signature(metric_name(id))) == id,
{
    reveal_strlit("pulse_scheduler_jobs_published_total");
    reveal_strlit("pulse_scheduler_job_publish_failures_total");
    reveal_strlit("pulse_scheduler_is_leader");
    reveal_strlit("pulse_scheduler_leadership_changes_total");
    reveal_strlit("pulse_scheduler_leadership_renewal_failures_total");
    reveal_strlit("pulse_scheduler_incomplete_dispatch_slices");
    reveal_strlit("pulse_scheduler_schedule_lag_seconds");
    reveal_strlit("pulse_worker_jobs_received_total");
    reveal_strlit("pulse_worker_job_consume_errors_total");
}

proof fn lemma_signatures_b(id: MetricId)
    ensures
        id == MetricId::WorkerJobsUnknownScenario ==> signed(signature(metric_name(id))) == id,
        id == MetricId::WorkerJobsDuplicate ==> signed(signature(metric_name(id))) == id,
        id == MetricId::WorkerJobCommits ==> signed(signature(metric_name(id))) == id,
        id == MetricId::WorkerJobCommitFailures ==> signed(signature(metric_name(id))) == id,
        id == MetricId::WorkerResultsPublished ==> signed(signature(metric_name(id))) == id,
        id == MetricId::WorkerResultPublishFailures ==> signed(signature(metric_name(id))) == id,
        id == MetricId::WorkerRetryJobsPublished ==> signed(signature(metric_name(id))) == id,
        id == MetricId::WorkerRetryJobPublishFailures ==> signed(signature(metric_name(id))) == id,
        id == MetricId::WorkerDlqPublished ==> signed(signature(metric_name(id))) == id,
{
    reveal_strlit("pulse_worker_jobs_unknown_scenario_total");
    reveal_strlit("pulse_worker_jobs_duplicate_total");
    reveal_strlit("pulse_worker_job_commits_total");
    reveal_strlit("pulse_worker_job_commit_failures_total");
    reveal_strlit("pulse_worker_results_published_total");
    reveal_strlit("pulse_worker_result_publish_failures_total");
    reveal_strlit("pulse_worker_retry_jobs_published_total");
    reveal_strlit("pulse_worker_retry_job_publish_failures_total");
    reveal_strlit("pulse_worker_dlq_published_total");
}

proof fn lemma_signatures_c(id: MetricId)
    ensures
        id == MetricId::WorkerDlqPublishFailures ==> signed(signature(metric_name(id))) == id,
        id == MetricId::WorkerExecutionLease ==> signed(signature(metric_name(id))) == id,
        id == MetricId::WorkerExecutionLeaseRenewalFailures ==> signed(signature(metric_name(id))) == id,
        id == MetricId::WorkerUncommittedJobs ==> signed(signature(metric_name(id))) == id,
        id == MetricId::WorkerRetryQueueDepth ==> signed(signature(metric_name(id))) == id,
        id == MetricId::WorkerJobAge ==> signed(signature(metric_name(id))) == id,
        id == MetricId::WorkerRetryJobAge ==> signed(signature(metric_name(id))) == id,
        id == MetricId::WorkerProcessingDuration ==> signed(signature(metric_name(id))) == id,
        id == MetricId::WorkerKafkaPublishDuration ==> signed(signature(metric_name(id))) == id,
{
    reveal_strlit("pulse_worker_dlq_publish_failures_total");
    reveal_strlit("pulse_worker_execution_lease_total");
    reveal_strlit("pulse_worker_execution_lease_renewal_failures_total");
    reveal_strlit("pulse_worker_uncommitted_jobs");
    reveal_strlit("pulse_worker_retry_queue_depth");
    reveal_strlit("pulse_worker_job_age_seconds");
    reveal_strlit("pulse_worker_retry_job_age_seconds");
    reveal_strlit("pulse_worker_processing_duration_seconds");
    reveal_strlit("pulse_kafka_publish_duration_seconds");
}

proof fn lemma_signatures_d(id: MetricId)
    ensures
        id == MetricId::WorkerKafkaCommitDuration ==> signed(signature(metric_name(id))) == id,
        id == MetricId::WorkerShutdownDrainDuration ==> signed(signature(metric_name(id))) == id,
        id == MetricId::AggregateResults ==> signed(signature(metric_name(id))) == id,
        id == MetricId::ScenarioInflight ==> signed(signature(metric_name(id))) == id,
        id == MetricId::ScenarioExecutions ==> signed(signature(metric_name(id))) == id,
        id == MetricId::ScenarioDuration ==> signed(signature(metric_name(id))) == id,
        id == MetricId::StepExecutions ==> signed(signature(metric_name(id))) == id,
        id == MetricId::StepDuration ==> signed(signature(metric_name(id))) == id,
        id == MetricId::BuildInfo ==> signed(signature(metric_name(id))) == id,
{
    reveal_strlit("pulse_kafka_commit_duration_seconds");
    reveal_strlit("pulse_shutdown_drain_duration_seconds");
    reveal_strlit("pulse_aggregate_results_total");
    reveal_strlit("pulse_scenario_inflight");
    reveal_strlit("pulse_scenario_executions_total");
    reveal_strlit("pulse_scenario_duration_seconds");
    reveal_strlit("pulse_step_executions_total");
    reveal_strlit("pulse_step_duration_seconds");
    reveal_strlit("pulse_build_info");
}

/// No two metrics have one name.
pub proof fn lemma_metric_names_differ(a: MetricId, b: MetricId)
    requires
        a != b,
    ensures
        metric_name(a) != metric_name(b),
{
    lemma_signatures_a(a);
    lemma_signatures_b(a);
    lemma_signatures_c(a);
    lemma_signatures_d(a);
    lemma_signatures_a(b);
    lemma_signatures_b(b);
    lemma_signatures_c(b);
    lemma_signatures_d(b);
}

/// The bounds of every distribution's buckets increase.
pub proof fn lemma_buckets_increase(id: MetricId)
    ensures
        metric_kind(id) == MetricKind::Histogram <==> metric_buckets(id).len() > 0,
        forall|i: int, j: int|
            0 <= i < j < metric_buckets(id).len() ==> metric_buckets(id)[i] < metric_buckets(id)[j],
{
}

// ---------------------------------------------------------------------------
// Updates
// ---------------------------------------------------------------------------

/// A change of a metric.
pub enum Change {
    Increment,
    Decrement,
    SetTo(i64),
    Observe(Duration),
}

/// A change of a metric, a duration in nanoseconds.
pub enum ChangeView {
    Increment,
    Decrement,
    SetTo(i64),
    Observe(nat),
}

/// A change of the metric with labels.
pub struct MetricUpdate {
    pub metric: MetricId,
    pub labels: Vec<String>,
    pub change: Change,
}

/// What is changed, and how.
pub struct UpdateView {
    pub metric: MetricId,
    pub labels: Seq<Seq<char>>,
    pub change: ChangeView,
}

impl View for MetricUpdate {
    type V = UpdateView;

    open spec fn view(&self) -> UpdateView {
        UpdateView {
            metric: self.metric,
            labels: views(self.labels@),
            change: match self.change {
                Change::Increment => ChangeView::Increment,
                Change::Decrement => ChangeView::Decrement,
                Change::SetTo(n) => ChangeView::SetTo(n),
                Change::Observe(d) => ChangeView::Observe(nanos(d)),
            },
        }
    }
}

/// What is changed, and how.
pub open spec fn update_views(updates: Seq<MetricUpdate>) -> Seq<UpdateView> {
    updates.map_values(|u: MetricUpdate| u@)
}

/// Whether a change suits its metric: as many labels as it has, and a change of its
/// kind.
pub open spec fn suits(u: UpdateView) -> bool {
    &&& u.labels.len() == metric_labels(u.metric).len()
    &&& match u.change {
        ChangeView::Increment => metric_kind(u.metric) != MetricKind::Histogram,
        ChangeView::Decrement => metric_kind(u.metric) == MetricKind::Gauge,
        ChangeView::SetTo(_) => metric_kind(u.metric) == MetricKind::Gauge,
        ChangeView::Observe(_) => metric_kind(u.metric) == MetricKind::Histogram,
    }
}

/// Whether updates are one change, which suits its metric.
pub open spec fn one(updates: Seq<MetricUpdate>, u: UpdateView) -> bool {
    update_views(updates) == seq![u] && suits(u)
}

/// Whether updates are two changes, which suit their metrics.
pub open spec fn two(updates: Seq<MetricUpdate>, u: UpdateView, v: UpdateView) -> bool {
    update_views(updates) == seq![u, v] && suits(u) && suits(v)
}

/// A change of a metric.
pub open spec fn changed(metric: MetricId, labels: Seq<Seq<char>>, change: ChangeView) -> UpdateView {
    UpdateView { metric, labels, change }
}

/// One change.
fn one_update(metric: MetricId, labels: Vec<String>, change: Change) -> (updates: Vec<MetricUpdate>)
    ensures
        update_views(updates@) == seq![(MetricUpdate { metric, labels, change })@],
{
    let ghost u = MetricUpdate { metric, labels, change };
    let updates: Vec<MetricUpdate> = vec![MetricUpdate { metric, labels, change }];
    assert(update_views(updates@) =~= seq![u@]);
    updates
}

/// Two changes.
fn two_updates(u: MetricUpdate, v: MetricUpdate) -> (updates: Vec<MetricUpdate>)
    ensures
        update_views(updates@) == seq![u@, v@],
{
    let updates: Vec<MetricUpdate> = vec![u, v];
    assert(update_views(updates@) =~= seq![u@, v@]);
    updates
}

fn labels1(a: &str) -> (labels: Vec<String>)
    ensures
        views(labels@) == seq![a@],
{
    let labels = vec![copy_str(a)];
    assert(views(labels@) =~= seq![a@]);
    labels
}

fn labels2(a: &str, b: &str) -> (labels: Vec<String>)
    ensures
        views(labels@) == seq![a@, b@],
{
    let labels = vec![copy_str(a), copy_str(b)];
    assert(views(labels@) =~= seq![a@, b@]);
    labels
}

fn labels3(a: &str, b: &str, c: &str) -> (labels: Vec<String>)
    ensures
        views(labels@) == seq![a@, b@, c@],
{
    let labels = vec![copy_str(a), copy_str(b), copy_str(c)];
    assert(views(labels@) =~= seq![a@, b@, c@]);
    labels
}

fn no_labels() -> (labels: Vec<String>)
    ensures
        views(labels@) == Seq::<Seq<char>>::empty(),
{
    let labels: Vec<String> = Vec::new();
    assert(views(labels@) =~= Seq::<Seq<char>>::empty());
    labels
}

/// How an execution ended, in words.
pub open spec fn status_text(ok: bool) -> Seq<char> {
    if ok {
        "success"@
    } else {
        "failure"@
    }
}

/// How an execution ended, in words.
pub fn status_label(ok: bool) -> (r: &'static str)
    ensures
        r@ == status_text(ok),
{
    if ok {
        "success"
    } else {
        "failure"
    }
}

/// Sets the version of the node.
pub fn build_info(version: &str) -> (updates: Vec<MetricUpdate>)
    ensures
        one(
            updates@,
            changed(MetricId::BuildInfo, seq![version@], ChangeView::SetTo(1)),
        ),
{
    one_update(MetricId::BuildInfo, labels1(version), Change::SetTo(1))
}

/// Sets whether the node is the leader.
pub fn set_is_leader(is_leader: bool) -> (updates: Vec<MetricUpdate>)
    ensures
        one(
            updates@,
            changed(
                MetricId::SchedulerIsLeader,
                Seq::<Seq<char>>::empty(),
                ChangeView::SetTo(if is_leader { 1 } else { 0 }),
            ),
        ),
{
    one_update(
        MetricId::SchedulerIsLeader,
        no_labels(),
        Change::SetTo(if is_leader { 1 } else { 0 }),
    )
}

/// Counts a change of leadership.
pub fn record_leadership_change(outcome: &'static str) -> (updates: Vec<MetricUpdate>)
    ensures
        one(
            updates@,
            changed(MetricId::SchedulerLeadershipChanges, seq![outcome@], ChangeView::Increment),
        ),
{
    one_update(MetricId::SchedulerLeadershipChanges, labels1(outcome), Change::Increment)
}

/// Counts a leadership that could not be renewed.
pub fn record_leadership_renewal_failure(class: &'static str) -> (updates: Vec<MetricUpdate>)
    ensures
        one(
            updates@,
            changed(
                MetricId::SchedulerLeadershipRenewalFailures,
                seq![class@],
                ChangeView::Increment,
            ),
        ),
{
    one_update(MetricId::SchedulerLeadershipRenewalFailures, labels1(class), Change::Increment)
}

/// Sets how many slices of a window are not acknowledged.
pub fn set_incomplete_dispatch_slices(scenario: &str, count: u32) -> (updates: Vec<MetricUpdate>)
    ensures
        one(
            updates@,
            changed(
                MetricId::SchedulerIncompleteDispatchSlices,
                seq![scenario@],
                ChangeView::SetTo(count as i64),
            ),
        ),
{
    one_update(
        MetricId::SchedulerIncompleteDispatchSlices,
        labels1(scenario),
        Change::SetTo(count as i64),
    )
}

/// Measures how late a window is scheduled.
pub fn observe_schedule_lag(scenario: &str, lag: Duration) -> (updates: Vec<MetricUpdate>)
    ensures
        one(
            updates@,
            changed(
                MetricId::SchedulerScheduleLag,
                seq![scenario@],
                ChangeView::Observe(nanos(lag)),
            ),
        ),
{
    one_update(MetricId::SchedulerScheduleLag, labels1(scenario), Change::Observe(lag))
}

/// Counts a job that the scheduler published.
pub fn record_scheduler_job_published(scenario: &str) -> (updates: Vec<MetricUpdate>)
    ensures
        one(
            updates@,
            changed(MetricId::SchedulerJobsPublished, seq![scenario@], ChangeView::Increment),
        ),
{
    one_update(MetricId::SchedulerJobsPublished, labels1(scenario), Change::Increment)
}

/// Counts a job that the scheduler could not publish.
pub fn record_scheduler_job_publish_failed(scenario: &str) -> (updates: Vec<MetricUpdate>)
    ensures
        one(
            updates@,
            changed(MetricId::SchedulerJobPublishFailures, seq![scenario@], ChangeView::Increment),
        ),
{
    one_update(MetricId::SchedulerJobPublishFailures, labels1(scenario), Change::Increment)
}

/// Counts a failure to consume a job.
pub fn record_worker_consume_error() -> (updates: Vec<MetricUpdate>)
    ensures
        one(
            updates@,
            changed(
                MetricId::WorkerJobConsumeErrors,
                Seq::<Seq<char>>::empty(),
                ChangeView::Increment,
            ),
        ),
{
    one_update(MetricId::WorkerJobConsumeErrors, no_labels(), Change::Increment)
}

/// Counts a job that was received, which is not committed yet.
pub fn record_worker_job_received() -> (updates: Vec<MetricUpdate>)
    ensures
        two(
            updates@,
            changed(MetricId::WorkerJobsReceived, Seq::<Seq<char>>::empty(), ChangeView::Increment),
            changed(
                MetricId::WorkerUncommittedJobs,
                Seq::<Seq<char>>::empty(),
                ChangeView::Increment,
            ),
        ),
{
    two_updates(
        MetricUpdate {
            metric: MetricId::WorkerJobsReceived,
            labels: no_labels(),
            change: Change::Increment,
        },
        MetricUpdate {
            metric: MetricId::WorkerUncommittedJobs,
            labels: no_labels(),
            change: Change::Increment,
        },
    )
}

/// Counts a job of a scenario that is not known.
pub fn record_worker_unknown_scenario() -> (updates: Vec<MetricUpdate>)
    ensures
        one(
            updates@,
            changed(
                MetricId::WorkerJobsUnknownScenario,
                Seq::<Seq<char>>::empty(),
                ChangeView::Increment,
            ),
        ),
{
    one_update(MetricId::WorkerJobsUnknownScenario, no_labels(), Change::Increment)
}

/// Counts a job that was there before.
pub fn record_worker_duplicate_job() -> (updates: Vec<MetricUpdate>)
    ensures
        one(
            updates@,
            changed(
                MetricId::WorkerJobsDuplicate,
                Seq::<Seq<char>>::empty(),
                ChangeView::Increment,
            ),
        ),
{
    one_update(MetricId::WorkerJobsDuplicate, no_labels(), Change::Increment)
}

/// Counts a job that was committed.
pub fn record_worker_job_commit_success() -> (updates: Vec<MetricUpdate>)
    ensures
        two(
            updates@,
            changed(MetricId::WorkerJobCommits, Seq::<Seq<char>>::empty(), ChangeView::Increment),
            changed(
                MetricId::WorkerUncommittedJobs,
                Seq::<Seq<char>>::empty(),
                ChangeView::Decrement,
            ),
        ),
{
    two_updates(
        MetricUpdate {
            metric: MetricId::WorkerJobCommits,
            labels: no_labels(),
            change: Change::Increment,
        },
        MetricUpdate {
            metric: MetricId::WorkerUncommittedJobs,
            labels: no_labels(),
            change: Change::Decrement,
        },
    )
}

/// Counts a job that could not be committed.
pub fn record_worker_job_commit_failure() -> (updates: Vec<MetricUpdate>)
    ensures
        one(
            updates@,
            changed(
                MetricId::WorkerJobCommitFailures,
                Seq::<Seq<char>>::empty(),
                ChangeView::Increment,
            ),
        ),
{
    one_update(MetricId::WorkerJobCommitFailures, no_labels(), Change::Increment)
}

/// Counts a result that was published.
pub fn record_worker_result_published(scenario: &str, status: &str) -> (updates: Vec<MetricUpdate>)
    ensures
        one(
            updates@,
            changed(
                MetricId::WorkerResultsPublished,
                seq![scenario@, status@],
                ChangeView::Increment,
            ),
        ),
{
    one_update(MetricId::WorkerResultsPublished, labels2(scenario, status), Change::Increment)
}

/// Counts a result that could not be published.
pub fn record_worker_result_publish_failure() -> (updates: Vec<MetricUpdate>)
    ensures
        one(
            updates@,
            changed(
                MetricId::WorkerResultPublishFailures,
                Seq::<Seq<char>>::empty(),
                ChangeView::Increment,
            ),
        ),
{
    one_update(MetricId::WorkerResultPublishFailures, no_labels(), Change::Increment)
}

/// Counts a job that was published for another attempt.
pub fn record_worker_retry_job_published(scenario: &str) -> (updates: Vec<MetricUpdate>)
    ensures
        one(
            updates@,
            changed(MetricId::WorkerRetryJobsPublished, seq![scenario@], ChangeView::Increment),
        ),
{
    one_update(MetricId::WorkerRetryJobsPublished, labels1(scenario), Change::Increment)
}

/// Counts a job that could not be published for another attempt.
pub fn record_worker_retry_job_publish_failure(scenario: &str) -> (updates: Vec<MetricUpdate>)
    ensures
        one(
            updates@,
            changed(
                MetricId::WorkerRetryJobPublishFailures,
                seq![scenario@],
                ChangeView::Increment,
            ),
        ),
{
    one_update(MetricId::WorkerRetryJobPublishFailures, labels1(scenario), Change::Increment)
}

/// Counts a job that was published as failed.
pub fn record_worker_dlq_published(scenario: &str) -> (updates: Vec<MetricUpdate>)
    ensures
        one(
            updates@,
            changed(MetricId::WorkerDlqPublished, seq![scenario@], ChangeView::Increment),
        ),
{
    one_update(MetricId::WorkerDlqPublished, labels1(scenario), Change::Increment)
}

/// Counts a job that could not be published as failed.
pub fn record_worker_dlq_publish_failure(scenario: &str) -> (updates: Vec<MetricUpdate>)
    ensures
        one(
            updates@,
            changed(MetricId::WorkerDlqPublishFailures, seq![scenario@], ChangeView::Increment),
        ),
{
    one_update(MetricId::WorkerDlqPublishFailures, labels1(scenario), Change::Increment)
}

/// Counts what became of a claim to execute.
pub fn record_execution_lease(outcome: &'static str) -> (updates: Vec<MetricUpdate>)
    ensures
        one(
            updates@,
            changed(MetricId::WorkerExecutionLease, seq![outcome@], ChangeView::Increment),
        ),
{
    one_update(MetricId::WorkerExecutionLease, labels1(outcome), Change::Increment)
}

/// Counts a claim to execute that could not be renewed.
pub fn record_execution_lease_renewal_failure(class: &'static str) -> (updates: Vec<MetricUpdate>)
    ensures
        one(
            updates@,
            changed(
                MetricId::WorkerExecutionLeaseRenewalFailures,
                seq![class@],
                ChangeView::Increment,
            ),
        ),
{
    one_update(MetricId::WorkerExecutionLeaseRenewalFailures, labels1(class), Change::Increment)
}

/// A depth within zero and one.
pub open spec fn clamped_depth(depth: i64) -> i64 {
    if depth < 0 {
        0
    } else if depth > 1 {
        1
    } else {
        depth
    }
}

/// Sets how many settlements wait for another attempt: one at most.
pub fn set_retry_queue_depth(depth: i64) -> (updates: Vec<MetricUpdate>)
    ensures
        one(
            updates@,
            changed(
                MetricId::WorkerRetryQueueDepth,
                Seq::<Seq<char>>::empty(),
                ChangeView::SetTo(clamped_depth(depth)),
            ),
        ),
{
    let held: i64 = if depth < 0 {
        0
    } else if depth > 1 {
        1
    } else {
        depth
    };
    one_update(MetricId::WorkerRetryQueueDepth, no_labels(), Change::SetTo(held))
}

/// Measures how old a job is.
pub fn observe_job_age(age: Duration) -> (updates: Vec<MetricUpdate>)
    ensures
        one(
            updates@,
            changed(
                MetricId::WorkerJobAge,
                Seq::<Seq<char>>::empty(),
                ChangeView::Observe(nanos(age)),
            ),
        ),
{
    one_update(MetricId::WorkerJobAge, no_labels(), Change::Observe(age))
}

/// Measures how old a job is at a further attempt.
pub fn observe_retry_job_age(age: Duration) -> (updates: Vec<MetricUpdate>)
    ensures
        one(
            updates@,
            changed(
                MetricId::WorkerRetryJobAge,
                Seq::<Seq<char>>::empty(),
                ChangeView::Observe(nanos(age)),
            ),
        ),
{
    one_update(MetricId::WorkerRetryJobAge, no_labels(), Change::Observe(age))
}

/// Measures how long a job took.
pub fn observe_job_processing(duration: Duration) -> (updates: Vec<MetricUpdate>)
    ensures
        one(
            updates@,
            changed(
                MetricId::WorkerProcessingDuration,
                Seq::<Seq<char>>::empty(),
                ChangeView::Observe(nanos(duration)),
            ),
        ),
{
    one_update(MetricId::WorkerProcessingDuration, no_labels(), Change::Observe(duration))
}

/// How a record that was sent was answered, in words.
pub open spec fn publish_text(ok: bool) -> Seq<char> {
    if ok {
        "acknowledged"@
    } else {
        "failed"@
    }
}

/// Measures how long a record took to be acknowledged.
pub fn observe_kafka_publish(kind: &'static str, duration: Duration, ok: bool) -> (updates: Vec<MetricUpdate>)
    ensures
        one(
            updates@,
            changed(
                MetricId::WorkerKafkaPublishDuration,
                seq![kind@, publish_text(ok)],
                ChangeView::Observe(nanos(duration)),
            ),
        ),
{
    let outcome: &'static str = if ok {
        "acknowledged"
    } else {
        "failed"
    };
    one_update(
        MetricId::WorkerKafkaPublishDuration,
        labels2(kind, outcome),
        Change::Observe(duration),
    )
}

/// Measures how long a commit took.
pub fn observe_kafka_commit(duration: Duration) -> (updates: Vec<MetricUpdate>)
    ensures
        one(
            updates@,
            changed(
                MetricId::WorkerKafkaCommitDuration,
                Seq::<Seq<char>>::empty(),
                ChangeView::Observe(nanos(duration)),
            ),
        ),
{
    one_update(MetricId::WorkerKafkaCommitDuration, no_labels(), Change::Observe(duration))
}

/// Measures how long draining took.
pub fn observe_shutdown_drain(duration: Duration) -> (updates: Vec<MetricUpdate>)
    ensures
        one(
            updates@,
            changed(
                MetricId::WorkerShutdownDrainDuration,
                Seq::<Seq<char>>::empty(),
                ChangeView::Observe(nanos(duration)),
            ),
        ),
{
    one_update(MetricId::WorkerShutdownDrainDuration, no_labels(), Change::Observe(duration))
}

/// Counts what a result did to the aggregate of its run.
pub fn record_aggregation_update(outcome: &'static str) -> (updates: Vec<MetricUpdate>)
    ensures
        one(
            updates@,
            changed(MetricId::AggregateResults, seq![outcome@], ChangeView::Increment),
        ),
{
    one_update(MetricId::AggregateResults, labels1(outcome), Change::Increment)
}

/// Counts an execution that has begun.
pub fn record_scenario_inflight_inc(scenario: &str) -> (updates: Vec<MetricUpdate>)
    ensures
        one(
            updates@,
            changed(MetricId::ScenarioInflight, seq![scenario@], ChangeView::Increment),
        ),
{
    one_update(MetricId::ScenarioInflight, labels1(scenario), Change::Increment)
}

/// Counts an execution that has ended.
pub fn record_scenario_inflight_dec(scenario: &str) -> (updates: Vec<MetricUpdate>)
    ensures
        one(
            updates@,
            changed(MetricId::ScenarioInflight, seq![scenario@], ChangeView::Decrement),
        ),
{
    one_update(MetricId::ScenarioInflight, labels1(scenario), Change::Decrement)
}

/// Counts and measures the execution of a scenario.
pub fn record_scenario_execution(scenario: &str, duration: Duration, ok: bool) -> (updates: Vec<MetricUpdate>)
    ensures
        two(
            updates@,
            changed(
                MetricId::ScenarioExecutions,
                seq![scenario@, status_text(ok)],
                ChangeView::Increment,
            ),
            changed(
                MetricId::ScenarioDuration,
                seq![scenario@, status_text(ok)],
                ChangeView::Observe(nanos(duration)),
            ),
        ),
{
    let status: &'static str = status_label(ok);
    two_updates(
        MetricUpdate {
            metric: MetricId::ScenarioExecutions,
            labels: labels2(scenario, status),
            change: Change::Increment,
        },
        MetricUpdate {
            metric: MetricId::ScenarioDuration,
            labels: labels2(scenario, status),
            change: Change::Observe(duration),
        },
    )
}

/// Counts and measures the execution of a step.
pub fn record_step_execution(scenario: &str, step: &str, duration: Duration, ok: bool) -> (updates: Vec<MetricUpdate>)
    ensures
        two(
            updates@,
            changed(
                MetricId::StepExecutions,
                seq![scenario@, step@, status_text(ok)],
                ChangeView::Increment,
            ),
            changed(
                MetricId::StepDuration,
                seq![scenario@, step@, status_text(ok)],
                ChangeView::Observe(nanos(duration)),
            ),
        ),
{
    let status: &'static str = status_label(ok);
    two_updates(
        MetricUpdate {
            metric: MetricId::StepExecutions,
            labels: labels3(scenario, step, status),
            change: Change::Increment,
        },
        MetricUpdate {
            metric: MetricId::StepDuration,
            labels: labels3(scenario, step, status),
            change: Change::Observe(duration),
        },
    )
}

// ---------------------------------------------------------------------------
// What updates come to
// ---------------------------------------------------------------------------

/// What changes make of a number that counts or is set.
pub open spec fn applied(
    value: int,
    metric: MetricId,
    labels: Seq<Seq<char>>,
    updates: Seq<UpdateView>,
) -> int
    decreases updates.len(),
{
    if updates.len() == 0 {
        value
    } else {
        let u = updates[0];
        let next = if u.metric != metric || u.labels != labels {
            value
        } else {
            match u.change {
                ChangeView::Increment => value + 1,
                ChangeView::Decrement => value - 1,
                ChangeView::SetTo(n) => n as int,
                ChangeView::Observe(_) => value,
            }
        };
        applied(next, metric, labels, updates.skip(1))
    }
}

/// An execution that has begun and ended leaves the number of those in flight as it
/// was.
pub proof fn lemma_inflight_returns(
    value: int,
    scenario: Seq<char>,
    begun: Seq<MetricUpdate>,
    ended: Seq<MetricUpdate>,
)
    requires
        one(begun, changed(MetricId::ScenarioInflight, seq![scenario], ChangeView::Increment)),
        one(ended, changed(MetricId::ScenarioInflight, seq![scenario], ChangeView::Decrement)),
    ensures
        applied(
            value,
            MetricId::ScenarioInflight,
            seq![scenario],
            update_views(begun) + update_views(ended),
        ) == value,
{
    reveal_with_fuel(applied, 3);
    let all = update_views(begun) + update_views(ended);
    assert(all.skip(1)[0] == update_views(ended)[0]);
    assert(all.skip(1).skip(1) =~= Seq::<UpdateView>::empty());
}

/// A job that was received and committed leaves the number of uncommitted jobs as it
/// was.
pub proof fn lemma_committed_jobs_are_settled(
    value: int,
    received: Seq<MetricUpdate>,
    committed: Seq<MetricUpdate>,
)
    requires
        two(
            received,
            changed(MetricId::WorkerJobsReceived, Seq::empty(), ChangeView::Increment),
            changed(MetricId::WorkerUncommittedJobs, Seq::empty(), ChangeView::Increment),
        ),
        two(
            committed,
            changed(MetricId::WorkerJobCommits, Seq::empty(), ChangeView::Increment),
            changed(MetricId::WorkerUncommittedJobs, Seq::empty(), ChangeView::Decrement),
        ),
    ensures
        applied(
            value,
            MetricId::WorkerUncommittedJobs,
            Seq::empty(),
            update_views(received) + update_views(committed),
        ) == value,
{
    reveal_with_fuel(applied, 5);
    let all = update_views(received) + update_views(committed);
    assert(all.skip(1)[0] == update_views(received)[1]);
    assert(all.skip(1).skip(1)[0] == update_views(committed)[0]);
    assert(all.skip(1).skip(1).skip(1)[0] == update_views(committed)[1]);
    assert(all.skip(1).skip(1).skip(1).skip(1) =~= Seq::<UpdateView>::empty());
}

/// The changes of several records, one after the other.
pub open spec fn all_changes(history: Seq<Seq<UpdateView>>) -> Seq<UpdateView>
    decreases history.len(),
{
    if history.len() == 0 {
        Seq::empty()
    } else {
        all_changes(history.drop_last()) + history.last()
    }
}

/// Whether changes leave a metric alone.
pub open spec fn leaves_alone(updates: Seq<UpdateView>, metric: MetricId) -> bool {
    forall|i: int| 0 <= i < updates.len() ==> (#[trigger] updates[i]).metric != metric
}

/// How often a distribution with labels was given a value.
pub open spec fn observations(
    metric: MetricId,
    labels: Seq<Seq<char>>,
    updates: Seq<UpdateView>,
) -> nat
    decreases updates.len(),
{
    if updates.len() == 0 {
        0
    } else {
        let u = updates[0];
        let rest = observations(metric, labels, updates.skip(1));
        if u.metric == metric && u.labels == labels && u.change is Observe {
            1 + rest
        } else {
            rest
        }
    }
}

proof fn lemma_applied_in_turn(
    value: int,
    metric: MetricId,
    labels: Seq<Seq<char>>,
    a: Seq<UpdateView>,
    b: Seq<UpdateView>,
)
    ensures
        applied(value, metric, labels, a + b) == applied(
            applied(value, metric, labels, a),
            metric,
            labels,
            b,
        ),
        observations(metric, labels, a + b) == observations(metric, labels, a) + observations(
            metric,
            labels,
            b,
        ),
    decreases a.len(),
{
    if a.len() == 0 {
        assert(a + b =~= b);
    } else {
        assert((a + b)[0] == a[0]);
        assert((a + b).skip(1) =~= a.skip(1) + b);
        let next = applied(value, metric, labels, seq![a[0]]);
        reveal_with_fuel(applied, 2);
        assert(seq![a[0]].skip(1) =~= Seq::<UpdateView>::empty());
        lemma_applied_in_turn(next, metric, labels, a.skip(1), b);
    }
}

proof fn lemma_left_alone(
    value: int,
    metric: MetricId,
    labels: Seq<Seq<char>>,
    updates: Seq<UpdateView>,
)
    requires
        leaves_alone(updates, metric),
    ensures
        applied(value, metric, labels, updates) == value,
        observations(metric, labels, updates) == 0,
    decreases updates.len(),
{
    if updates.len() > 0 {
        assert(updates[0].metric != metric);
        assert forall|i: int| 0 <= i < updates.skip(1).len() implies (#[trigger] updates.skip(
            1,
        )[i]).metric != metric by {
            assert(updates.skip(1)[i] == updates[i + 1]);
        }
        lemma_left_alone(value, metric, labels, updates.skip(1));
    }
}

proof fn lemma_pair(
    value: int,
    metric: MetricId,
    labels: Seq<Seq<char>>,
    u: UpdateView,
    v: UpdateView,
)
    ensures
        applied(value, metric, labels, seq![u, v]) == applied(
            applied(value, metric, labels, seq![u]),
            metric,
            labels,
            seq![v],
        ),
        observations(metric, labels, seq![u, v]) == observations(metric, labels, seq![u])
            + observations(metric, labels, seq![v]),
        seq![u].skip(1) == Seq::<UpdateView>::empty(),
        seq![v].skip(1) == Seq::<UpdateView>::empty(),
{
    assert(seq![u, v] =~= seq![u] + seq![v]);
    lemma_applied_in_turn(value, metric, labels, seq![u], seq![v]);
    assert(seq![u].skip(1) =~= Seq::<UpdateView>::empty());
    assert(seq![v].skip(1) =~= Seq::<UpdateView>::empty());
}

/// Whether a record is that of a job that was received or committed, or is of something
/// else.
pub open spec fn counts_jobs(updates: Seq<UpdateView>) -> bool {
    ||| updates == seq![
        changed(MetricId::WorkerJobsReceived, Seq::empty(), ChangeView::Increment),
        changed(MetricId::WorkerUncommittedJobs, Seq::empty(), ChangeView::Increment),
    ]
    ||| updates == seq![
        changed(MetricId::WorkerJobCommits, Seq::empty(), ChangeView::Increment),
        changed(MetricId::WorkerUncommittedJobs, Seq::empty(), ChangeView::Decrement),
    ]
    ||| leaves_alone(updates, MetricId::WorkerJobsReceived) && leaves_alone(
        updates,
        MetricId::WorkerJobCommits,
    ) && leaves_alone(updates, MetricId::WorkerUncommittedJobs)
}

/// After any history the uncommitted jobs are those that were received less those that
/// were committed.
pub proof fn lemma_uncommitted_jobs_are_the_difference(history: Seq<Seq<UpdateView>>)
    requires
        forall|i: int| 0 <= i < history.len() ==> counts_jobs(#[trigger] history[i]),
    ensures
        ({
            let all = all_changes(history);
            let none = Seq::<Seq<char>>::empty();
            applied(0, MetricId::WorkerUncommittedJobs, none, all) == applied(
                0,
                MetricId::WorkerJobsReceived,
                none,
                all,
            ) - applied(0, MetricId::WorkerJobCommits, none, all)
        }),
    decreases history.len(),
{
    if history.len() > 0 {
        let before = history.drop_last();
        let last = history.last();
        assert forall|i: int| 0 <= i < before.len() implies counts_jobs(#[trigger] before[i]) by {
            assert(before[i] == history[i]);
        }
        lemma_uncommitted_jobs_are_the_difference(before);
        assert(counts_jobs(history[history.len() - 1]));
        lemma_turn(before, last, MetricId::WorkerUncommittedJobs);
        lemma_turn(before, last, MetricId::WorkerJobsReceived);
        lemma_turn(before, last, MetricId::WorkerJobCommits);
    }
}

/// What one record more makes of a number without labels.
proof fn lemma_turn(before: Seq<Seq<UpdateView>>, last: Seq<UpdateView>, metric: MetricId)
    requires
        counts_jobs(last),
        metric == MetricId::WorkerUncommittedJobs || metric == MetricId::WorkerJobsReceived
            || metric == MetricId::WorkerJobCommits,
    ensures
        ({
            let none = Seq::<Seq<char>>::empty();
            let value = applied(0, metric, none, all_changes(before));
            let after = applied(0, metric, none, all_changes(before) + last);
            if leaves_alone(last, metric) {
                after == value
            } else if last[1].change is Decrement && metric == MetricId::WorkerUncommittedJobs {
                after == value - 1
            } else {
                after == value + 1
            }
        }),
{
    let none = Seq::<Seq<char>>::empty();
    let value = applied(0, metric, none, all_changes(before));
    lemma_applied_in_turn(0, metric, none, all_changes(before), last);
    if leaves_alone(last, metric) {
        lemma_left_alone(value, metric, none, last);
    } else {
        assert(last =~= seq![last[0], last[1]]);
        lemma_pair(value, metric, none, last[0], last[1]);
        reveal_with_fuel(applied, 2);
    }
}

/// Whether a record counts and measures one execution, or is of something else.
pub open spec fn measures_executions(
    updates: Seq<UpdateView>,
    counted: MetricId,
    measured: MetricId,
) -> bool {
    ||| exists|labels: Seq<Seq<char>>, duration: nat|
        updates == seq![
            changed(counted, labels, ChangeView::Increment),
            #[trigger] changed(measured, labels, ChangeView::Observe(duration)),
        ]
    ||| leaves_alone(updates, counted) && leaves_alone(updates, measured)
}

/// After any history, each execution of a scenario or of a step that was counted was
/// also measured, under the same labels.
pub proof fn lemma_executions_are_measured(
    history: Seq<Seq<UpdateView>>,
    counted: MetricId,
    measured: MetricId,
    labels: Seq<Seq<char>>,
)
    requires
        (counted == MetricId::ScenarioExecutions && measured == MetricId::ScenarioDuration) || (
        counted == MetricId::StepExecutions && measured == MetricId::StepDuration),
        forall|i: int|
            0 <= i < history.len() ==> measures_executions(
                #[trigger] history[i],
                counted,
                measured,
            ),
    ensures
        applied(0, counted, labels, all_changes(history)) == observations(
            measured,
            labels,
            all_changes(history),
        ),
    decreases history.len(),
{
    if history.len() > 0 {
        let before = history.drop_last();
        let last = history.last();
        assert forall|i: int| 0 <= i < before.len() implies measures_executions(
            #[trigger] before[i],
            counted,
            measured,
        ) by {
            assert(before[i] == history[i]);
        }
        lemma_executions_are_measured(before, counted, measured, labels);
        assert(measures_executions(history[history.len() - 1], counted, measured));
        let value = applied(0, counted, labels, all_changes(before));
        lemma_applied_in_turn(0, counted, labels, all_changes(before), last);
        lemma_applied_in_turn(0, measured, labels, all_changes(before), last);
        if leaves_alone(last, counted) && leaves_alone(last, measured) {
            lemma_left_alone(value, counted, labels, last);
            lemma_left_alone(value, measured, labels, last);
        } else {
            assert(last =~= seq![last[0], last[1]]);
            lemma_pair(value, counted, labels, last[0], last[1]);
            lemma_pair(value, measured, labels, last[0], last[1]);
            reveal_with_fuel(applied, 2);
            reveal_with_fuel(observations, 2);
        }
    }
}

} // verus!
