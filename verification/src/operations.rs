//! What the operations on Redis come to, however their exchanges end. An operation
//! has three parts: the call, which is refused before anything is sent where the
//! request makes no sense; the exchange; and what the exchange came to, given here.
use vstd::prelude::*;
use crate::aggregation::{
    RedisRunAggregationStore, RunAggregationUpdate, RunExpiryOutcome, RunFinalizationOutcome,
    SummaryAcknowledgement,
};
#[allow(unused_imports)]
use crate::aggregation::{
    acknowledge_means, batch, expiry_means, finalize_means, ingest_means, load_means,
    pending_means,
};
use crate::contracts::DurableRunSummary;
use crate::coordination::{
    map_coordination_error, redis_operation, ClaimOutcome, CompletedOutcome, CoordinationError,
    DispatchOutcome, DispatchProgress, DispatchSpec, Exchange, ExecutionClaim, ExecutionLease,
    LeaderLease, LeadershipOutcome, ReleaseOutcome, TerminalOutcome,
};
use crate::dispatch::RedisDueStateStore;
#[allow(unused_imports)]
use crate::dispatch::{ack_means, prepare_means, register_means};
use crate::execution::RedisIdempotencyStore;
#[allow(unused_imports)]
use crate::execution::{claim_means, complete_means, release_means, renew_means};
use crate::leader::RedisLeaderElector;
#[allow(unused_imports)]
use crate::leader::relinquish_means;
use crate::snapshot::{invalid_state, RunAggregationStoreError};
use crate::text::concat2;
#[allow(unused_imports)]
use crate::text::views;

verus! {

/// Whether `r` is what an operation came to: what the reply means where there is one,
/// and otherwise how the exchange failed.
pub open spec fn came_to<T, R>(
    operation: Seq<char>,
    exchange: Exchange<T>,
    means: spec_fn(T) -> bool,
    r: Result<R, CoordinationError>,
) -> bool {
    match exchange {
        Exchange::Done(reply) => means(reply),
        Exchange::Failed(text) => r matches Err(
            CoordinationError::Unavailable { operation: o, message: m },
        ) && o@ == operation && m@ == text@,
        Exchange::TimedOut => r matches Err(CoordinationError::Timeout { operation: o }) && o@
            == operation,
    }
}

/// The same for an operation of the aggregation store.
pub open spec fn store_came_to<T, R>(
    operation: Seq<char>,
    exchange: Exchange<T>,
    means: spec_fn(T) -> bool,
    r: Result<R, RunAggregationStoreError>,
) -> bool {
    match exchange {
        Exchange::Done(reply) => means(reply),
        Exchange::Failed(text) => r matches Err(
            RunAggregationStoreError::Unavailable { operation: o, message: m },
        ) && o@ == operation && m@ == text@,
        Exchange::TimedOut => r matches Err(RunAggregationStoreError::Timeout { operation: o })
            && o@ == operation,
    }
}

/// A Redis that fails or is silent is an error of the operation, and no outcome: it is
/// taken neither for success nor for a duplicate, for work that is not due, for another
/// leader or for a stale owner.
pub proof fn lemma_failure_is_no_outcome<T, R>(
    operation: Seq<char>,
    exchange: Exchange<T>,
    means: spec_fn(T) -> bool,
    r: Result<R, CoordinationError>,
)
    requires
        came_to(operation, exchange, means, r),
        !(exchange is Done),
    ensures
        r is Err,
        r->Err_0 is Unavailable || r->Err_0 is Timeout,
{
}

/// A Redis that fails or is silent is an error of the aggregation: no result is taken
/// for accepted or for a duplicate, and no summary for published.
pub proof fn lemma_store_failure_is_no_outcome<T, R>(
    operation: Seq<char>,
    exchange: Exchange<T>,
    means: spec_fn(T) -> bool,
    r: Result<R, RunAggregationStoreError>,
)
    requires
        store_came_to(operation, exchange, means, r),
        !(exchange is Done),
    ensures
        r is Err,
        r->Err_0 is Unavailable || r->Err_0 is Timeout,
{
}

/// An attempt is taken for a duplicate only where Redis answered with a recorded
/// outcome, which is the one that is told, and it is run only where Redis granted the
/// lease.
pub proof fn lemma_claims_follow_redis(
    claim: ExecutionClaim,
    owner: Seq<char>,
    ttl: std::time::Duration,
    exchange: Exchange<(i64, i64, i64, String, i64, String)>,
    r: Result<ClaimOutcome, CoordinationError>,
)
    requires
        came_to(
            "execution_claim"@,
            exchange,
            |reply: (i64, i64, i64, String, i64, String)|
                claim_means(
                    claim,
                    owner,
                    ttl,
                    reply.0,
                    reply.1,
                    reply.2,
                    reply.3@,
                    reply.4,
                    reply.5@,
                    r,
                ),
            r,
        ),
    ensures
        r matches Ok(ClaimOutcome::AlreadyCompleted(done)) ==> {
            &&& exchange is Done
            &&& exchange->Done_0.0 == 2
            &&& done.outcome.label() == exchange->Done_0.3@
            &&& done.completed_at_unix_ms == exchange->Done_0.4
        },
        r matches Ok(ClaimOutcome::Acquired(lease)) ==> {
            &&& exchange is Done
            &&& exchange->Done_0.0 == 1
            &&& lease.owner_token@ == owner
            &&& lease.execution_key@ == claim.execution_key@
            &&& lease.attempt == claim.attempt
        },
{
}

/// What an exchange of the aggregation store came to.
pub fn store_operation<T>(operation: &'static str, exchange: Exchange<T>) -> (r: Result<
    T,
    RunAggregationStoreError,
>)
    ensures
        store_came_to(
            operation@,
            exchange,
            |reply: T| r == Ok::<T, RunAggregationStoreError>(reply),
            r,
        ),
{
    match redis_operation(operation, exchange) {
        Ok(reply) => Ok(reply),
        Err(e) => Err(map_coordination_error(e)),
    }
}

impl RedisLeaderElector {
    /// What asking for the leadership came to.
    pub fn acquire(
        &self,
        owner_token: String,
        exchange: Exchange<(i64, i64, i64, i64, String)>,
    ) -> (r: Result<LeadershipOutcome, CoordinationError>)
        ensures
            came_to(
                "leader_acquire"@,
                exchange,
                |reply: (i64, i64, i64, i64, String)|
                    self.acquire_means(
                        owner_token@,
                        reply.0,
                        reply.1,
                        reply.2,
                        reply.3,
                        reply.4@,
                        r,
                    ),
                r,
            ),
    {
        let (code, fence, expires_at, retry_after, message) = redis_operation(
            "leader_acquire",
            exchange,
        )?;
        self.acquire_reply(owner_token, code, fence, expires_at, retry_after, &message)
    }

    /// What prolonging the leadership came to.
    pub fn renew(&self, current: &LeaderLease, exchange: Exchange<(i64, i64, String)>) -> (r:
        Result<LeadershipOutcome, CoordinationError>)
        ensures
            came_to(
                "leader_renew"@,
                exchange,
                |reply: (i64, i64, String)|
                    self.renew_means(*current, reply.0, reply.1, reply.2@, r),
                r,
            ),
    {
        let (code, expires_at, message) = redis_operation("leader_renew", exchange)?;
        self.renew_reply(current, code, expires_at, &message)
    }

    /// What giving the leadership up came to.
    pub fn relinquish(&self, exchange: Exchange<i64>) -> (r: Result<(), CoordinationError>)
        ensures
            came_to("leader_relinquish"@, exchange, |reply: i64| relinquish_means(reply, r), r),
    {
        let code: i64 = redis_operation("leader_relinquish", exchange)?;
        self.relinquish_reply(code)
    }
}

impl RedisDueStateStore {
    /// What preparing a window came to.
    pub fn prepare_window(
        &self,
        spec: &DispatchSpec,
        exchange: Exchange<(i64, String, i64, String, i64, String)>,
    ) -> (r: Result<DispatchOutcome, CoordinationError>)
        ensures
            came_to(
                "dispatch_prepare_window"@,
                exchange,
                |reply: (i64, String, i64, String, i64, String)|
                    prepare_means(
                        *spec,
                        reply.0,
                        reply.1@,
                        reply.2,
                        reply.3@,
                        reply.4,
                        reply.5@,
                        r,
                    ),
                r,
            ),
    {
        let (code, window_id, scheduled_at, missing, retry_after, message) = redis_operation(
            "dispatch_prepare_window",
            exchange,
        )?;
        self.prepare_window_reply(
            spec,
            code,
            window_id,
            scheduled_at,
            &missing,
            retry_after,
            &message,
        )
    }

    /// What acknowledging a slice came to.
    pub fn ack_slice(&self, exchange: Exchange<(i64, i64, String)>) -> (r: Result<
        DispatchProgress,
        CoordinationError,
    >)
        ensures
            came_to(
                "dispatch_ack_slice"@,
                exchange,
                |reply: (i64, i64, String)| ack_means(reply.0, reply.1, reply.2@, r),
                r,
            ),
    {
        let (code, remaining, message) = redis_operation("dispatch_ack_slice", exchange)?;
        self.ack_slice_reply(code, remaining, &message)
    }

    /// What making a run known to the aggregation came to.
    pub fn register_run(&self, exchange: Exchange<(i64, String)>) -> (r: Result<
        (),
        CoordinationError,
    >)
        ensures
            came_to(
                "aggregation_register_run"@,
                exchange,
                |reply: (i64, String)| register_means(reply.0, reply.1@, r),
                r,
            ),
    {
        let (code, message) = redis_operation("aggregation_register_run", exchange)?;
        self.register_run_reply(code, &message)
    }
}

impl RedisIdempotencyStore {
    /// What claiming an attempt came to.
    pub fn claim(
        &self,
        claim: &ExecutionClaim,
        owner_token: String,
        exchange: Exchange<(i64, i64, i64, String, i64, String)>,
    ) -> (r: Result<ClaimOutcome, CoordinationError>)
        ensures
            came_to(
                "execution_claim"@,
                exchange,
                |reply: (i64, i64, i64, String, i64, String)|
                    claim_means(
                        *claim,
                        owner_token@,
                        self.lease(),
                        reply.0,
                        reply.1,
                        reply.2,
                        reply.3@,
                        reply.4,
                        reply.5@,
                        r,
                    ),
                r,
            ),
    {
        let (code, lease_or_retry, recovered, terminal_state, completed_at, message) =
            redis_operation("execution_claim", exchange)?;
        self.claim_reply(
            claim,
            owner_token,
            code,
            lease_or_retry,
            recovered,
            &terminal_state,
            completed_at,
            &message,
        )
    }

    /// What prolonging a lease came to.
    pub fn renew(&self, lease: &ExecutionLease, exchange: Exchange<(i64, i64, String)>) -> (r:
        Result<ExecutionLease, CoordinationError>)
        ensures
            came_to(
                "execution_renew"@,
                exchange,
                |reply: (i64, i64, String)|
                    renew_means(*lease, self.lease(), reply.0, reply.1, reply.2@, r),
                r,
            ),
    {
        let (code, expires_at, message) = redis_operation("execution_renew", exchange)?;
        self.renew_reply(lease, code, expires_at, &message)
    }

    /// What recording an outcome came to.
    pub fn complete(&self, outcome: TerminalOutcome, exchange: Exchange<(i64, i64, String)>) -> (r:
        Result<CompletedOutcome, CoordinationError>)
        ensures
            came_to(
                "execution_complete"@,
                exchange,
                |reply: (i64, i64, String)|
                    complete_means(outcome, reply.0, reply.1, reply.2@, r),
                r,
            ),
    {
        let (code, completed_at, message) = redis_operation("execution_complete", exchange)?;
        self.complete_reply(outcome, code, completed_at, &message)
    }

    /// What giving a lease up came to.
    pub fn release(&self, exchange: Exchange<(i64, String)>) -> (r: Result<
        ReleaseOutcome,
        CoordinationError,
    >)
        ensures
            came_to(
                "execution_release"@,
                exchange,
                |reply: (i64, String)| release_means(reply.0, reply.1@, r),
                r,
            ),
    {
        let (code, message) = redis_operation("execution_release", exchange)?;
        self.release_reply(code, &message)
    }
}

impl RedisRunAggregationStore {
    /// What handing a result in came to.
    pub fn ingest(&self, exchange: Exchange<(i64, String, Vec<String>)>) -> (r: Result<
        RunAggregationUpdate,
        RunAggregationStoreError,
    >)
        ensures
            store_came_to(
                "aggregation_ingest"@,
                exchange,
                |reply: (i64, String, Vec<String>)|
                    ingest_means(
                        reply.0,
                        reply.1@,
                        views(reply.2@),
                        self.error_kind_limit(),
                        self.active_run_limit(),
                        r,
                    ),
                r,
            ),
    {
        let (code, message, snapshot) = store_operation("aggregation_ingest", exchange)?;
        self.ingest_reply(code, message, &snapshot)
    }

    /// What listing the runs came to whose deadline has passed.
    pub fn due_runs(&self, exchange: Exchange<Vec<String>>) -> (r: Result<
        Vec<String>,
        RunAggregationStoreError,
    >)
        ensures
            store_came_to(
                "aggregation_due_runs"@,
                exchange,
                |reply: Vec<String>| r == Ok::<Vec<String>, RunAggregationStoreError>(reply),
                r,
            ),
    {
        store_operation("aggregation_due_runs", exchange)
    }

    /// What ending a run whose deadline has passed came to.
    pub fn mark_expired(&self, exchange: Exchange<(i64, String, Vec<String>)>) -> (r: Result<
        RunExpiryOutcome,
        RunAggregationStoreError,
    >)
        ensures
            store_came_to(
                "aggregation_mark_expired"@,
                exchange,
                |reply: (i64, String, Vec<String>)|
                    expiry_means(reply.0, reply.1@, views(reply.2@), r),
                r,
            ),
    {
        let (code, message, snapshot) = store_operation("aggregation_mark_expired", exchange)?;
        self.mark_expired_reply(code, message, &snapshot)
    }

    /// What ending a run on request came to.
    pub fn finalize_run(&self, exchange: Exchange<(i64, String, Vec<String>)>) -> (r: Result<
        RunFinalizationOutcome,
        RunAggregationStoreError,
    >)
        ensures
            store_came_to(
                "aggregation_finalize_run"@,
                exchange,
                |reply: (i64, String, Vec<String>)|
                    finalize_means(reply.0, reply.1@, views(reply.2@), r),
                r,
            ),
    {
        let (code, message, snapshot) = store_operation("aggregation_finalize_run", exchange)?;
        self.finalize_run_reply(code, message, &snapshot)
    }

    /// What loading the summary of a run came to.
    pub fn load_summary(&self, exchange: Exchange<Vec<String>>) -> (r: Result<
        Option<DurableRunSummary>,
        RunAggregationStoreError,
    >)
        ensures
            store_came_to(
                "aggregation_load_summary"@,
                exchange,
                |reply: Vec<String>| load_means(views(reply@), r),
                r,
            ),
    {
        let snapshot = store_operation("aggregation_load_summary", exchange)?;
        self.load_summary_reply(&snapshot)
    }

    /// What listing the runs of the outbox came to.
    pub fn outbox_runs(&self, exchange: Exchange<Vec<String>>) -> (r: Result<
        Vec<String>,
        RunAggregationStoreError,
    >)
        ensures
            store_came_to(
                "aggregation_pending_summaries"@,
                exchange,
                |reply: Vec<String>| r == Ok::<Vec<String>, RunAggregationStoreError>(reply),
                r,
            ),
    {
        store_operation("aggregation_pending_summaries", exchange)
    }

    /// What loading the fields of the runs of the outbox came to: the summaries that
    /// wait for publication, and the runs that can be taken out of the outbox.
    pub fn pending_summaries(&self, run_ids: &Vec<String>, exchange: Exchange<Vec<Vec<String>>>) -> (r:
        Result<(Vec<DurableRunSummary>, Vec<String>), RunAggregationStoreError>)
        ensures
            store_came_to(
                "aggregation_pending_summaries"@,
                exchange,
                |reply: Vec<Vec<String>>| pending_means(views(run_ids@), batch(reply@), r),
                r,
            ),
    {
        let snapshots = store_operation("aggregation_pending_summaries", exchange)?;
        self.pending_summaries_reply(run_ids, &snapshots)
    }

    /// What taking a run out of the outbox came to.
    pub fn clean_outbox_if_settled(&self, exchange: Exchange<i64>) -> (r: Result<
        (),
        RunAggregationStoreError,
    >)
        ensures
            store_came_to("aggregation_outbox_cleanup"@, exchange, |reply: i64| r is Ok, r),
    {
        let _: i64 = store_operation("aggregation_outbox_cleanup", exchange)?;
        Ok(())
    }

    /// The error of a task that took a run out of the outbox and was lost.
    pub fn outbox_cleanup_lost(&self, error: &str) -> (e: RunAggregationStoreError)
        ensures
            e.is_invalid_state(
                "aggregation_pending_summaries"@,
                "outbox cleanup task failed: "@ + error@,
            ),
    {
        invalid_state(
            "aggregation_pending_summaries",
            &concat2("outbox cleanup task failed: ", error),
        )
    }

    /// What acknowledging a summary came to.
    pub fn acknowledge_summary(&self, exchange: Exchange<(i64, i64, String)>) -> (r: Result<
        SummaryAcknowledgement,
        RunAggregationStoreError,
    >)
        ensures
            store_came_to(
                "aggregation_acknowledge_summary"@,
                exchange,
                |reply: (i64, i64, String)| acknowledge_means(reply.0, reply.1, reply.2@, r),
                r,
            ),
    {
        let (code, current, message) = store_operation(
            "aggregation_acknowledge_summary",
            exchange,
        )?;
        self.acknowledge_summary_reply(code, current, message)
    }
}

} // verus!
