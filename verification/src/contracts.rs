//! Records that nodes exchange, and the bounds that they keep.
use vstd::prelude::*;

verus! {

/// The newest contract version that this node writes.
pub const CURRENT_CONTRACT_VERSION: u16 = 2;

/// The most retries that a job may ask for.
pub const MAX_CONTRACT_ATTEMPT: u32 = 32;

/// The most bytes of an identity or a reason.
pub const MAX_CONTRACT_ID_BYTES: usize = 1_024;

/// The most slices of one run.
pub const MAX_CONTRACT_SLICES: u32 = 4_096;

/// The most bytes of an error kind.
pub const MAX_CONTRACT_ERROR_KIND_BYTES: usize = 256;

/// The most buckets of a latency histogram.
pub const MAX_CONTRACT_HISTOGRAM_BUCKETS: usize = 256;

/// The largest integer that a double holds exactly together with all smaller
/// ones: 2^53 - 1.
pub const MAX_CONTRACT_EXACT_INTEGER: u64 = 9_007_199_254_740_991;

/// The most bytes of a poison message's key or payload that are kept.
pub const MAX_POISON_EVIDENCE_FIELD_BYTES: usize = 262_144;

/// Why a record breaks its contract.
#[derive(Debug, Clone, PartialEq, Eq)]
pub enum ContractError {
    Malformed(String),
    FutureVersion { found: u16, max_supported: u16 },
    MissingField(&'static str),
    InvalidSlice(String),
    InvalidLoad(String),
    InvalidResult(String),
    InvalidAttempt { attempt: u32, max_retries: u32 },
}

/// One of the parts that a run is divided into.
#[derive(Debug, Clone, Copy, PartialEq, Eq, Structural)]
pub struct JobSlice {
    pub index: u32,
    pub total: u32,
}

/// How many executions took at most `upper_bound_ms`, and longer than the bucket
/// before.
#[derive(Debug, Clone, Copy, PartialEq, Eq, Structural)]
pub struct LatencyBucket {
    pub upper_bound_ms: u64,
    pub count: u64,
}

/// How often an error of one kind occurred.
#[derive(Debug, Clone, PartialEq, Eq)]
pub struct ErrorCount {
    pub kind: String,
    pub count: u64,
}

impl ErrorCount {
    /// The kind and the count.
    pub open spec fn pair(self) -> (Seq<char>, u64) {
        (self.kind@, self.count)
    }
}

/// The kinds and counts of an error breakdown.
pub open spec fn error_pairs(errors: Seq<ErrorCount>) -> Seq<(Seq<char>, u64)> {
    errors.map_values(|e: ErrorCount| e.pair())
}

/// Whether every execution of a slice succeeded.
#[derive(Debug, Clone, Copy, PartialEq, Eq, Structural)]
pub enum ScenarioRunStatus {
    Success,
    Failed,
}

/// What one worker reports of one slice of a run.
#[derive(Debug, Clone, PartialEq, Eq)]
pub struct ScenarioRunResult {
    pub schema_version: u16,
    pub scenario_id: String,
    pub run_id: String,
    pub event_id: String,
    pub execution_key: String,
    pub slice: JobSlice,
    pub attempt: u32,
    pub started_at_unix_ms: u128,
    pub finished_at_unix_ms: u128,
    pub status: ScenarioRunStatus,
    pub total: u64,
    pub success: u64,
    pub failure: u64,
    pub scenario_latency_p50_ms: u64,
    pub scenario_latency_p95_ms: u64,
    pub scenario_latency_p99_ms: u64,
    pub latency_histogram: Vec<LatencyBucket>,
    pub error_breakdown: Vec<ErrorCount>,
}

/// How a run ended.
#[derive(Debug, Clone, Copy, PartialEq, Eq, Structural)]
pub enum ScenarioRunSummaryStatus {
    Partial,
    Complete,
    TimedOut,
    Cancelled,
}

/// What is known of a run when it has ended.
#[derive(Debug, Clone, PartialEq, Eq)]
pub struct ScenarioRunSummary {
    pub schema_version: u16,
    pub scenario_id: String,
    pub run_id: String,
    pub status: ScenarioRunSummaryStatus,
    pub expected_slices: u32,
    pub received_slices: u32,
    pub missing_slices: Vec<u32>,
    pub total: u64,
    pub success: u64,
    pub failure: u64,
    pub scenario_latency_p50_ms: u64,
    pub scenario_latency_p95_ms: u64,
    pub scenario_latency_p99_ms: u64,
    pub latency_histogram: Vec<LatencyBucket>,
    pub error_breakdown: Vec<ErrorCount>,
    pub first_result_at_unix_ms: u128,
    pub finalized_at_unix_ms: u128,
}

/// A summary with the state of its publication.
#[derive(Debug, Clone, PartialEq, Eq)]
pub struct DurableRunSummary {
    pub revision: u64,
    pub event_id: String,
    pub pending_publication: bool,
    pub summary: ScenarioRunSummary,
}

} // verus!
