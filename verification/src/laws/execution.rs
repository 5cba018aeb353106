//! Claiming, prolonging, completing and giving up executions.
use std::time::Duration;
use vstd::prelude::*;
use super::script::{arg, hands_over, key, lemma_texts};
use crate::calls::ScriptCall;
use crate::coordination::{
    ClaimOutcome, CompletedOutcome, CoordinationError, Exchange, ExecutionClaim, ExecutionLease,
    ReleaseOutcome, TerminalOutcome,
};
use crate::coordination_scripts::{
    CLAIM_SCRIPT, COMPLETE_SCRIPT, RELEASE_SCRIPT, RENEW_EXECUTION_SCRIPT,
};
use crate::durations::nanos;
use crate::execution::RedisIdempotencyStore;
use crate::text::{decimal, is_blank};

verus! {

/// The whole milliseconds of a span.
pub open spec fn whole_ms(d: Duration) -> nat {
    nanos(d) / 1_000_000
}

/// Whether a span of so many milliseconds can be handed to Redis.
pub open spec fn ms_fit(ms: nat) -> bool {
    1 <= ms <= 9_223_372_036_854_775_807
}

/// For how many milliseconds the record of a running attempt is kept: for the terminal
/// time, or for four leases where that is longer.
pub open spec fn kept_ms(lease: Duration, terminal: Duration) -> nat {
    if nanos(terminal) >= nanos(lease) * 4 {
        nanos(terminal) / 1_000_000
    } else {
        nanos(lease) * 4 / 1_000_000
    }
}

/// A claim is sent under the name of the attempt, to be held for the lease and kept for
/// the retention: the program adds argument 4 to the time for the end of the lease, and
/// lets the record expire after argument 5. The lease handed over is never longer than
/// the time for which the record is kept.
pub proof fn law_claim_call(
    prefix: String,
    lease: Duration,
    terminal: Duration,
    timeout: Duration,
    store: RedisIdempotencyStore,
    claim: ExecutionClaim,
    owner: String,
    r: Result<ScriptCall, CoordinationError>,
)
    requires
        call_ensures(RedisIdempotencyStore::with_timings, (prefix, lease, terminal, timeout), store),
        call_ensures(RedisIdempotencyStore::claim_call_as, (&store, &claim, &owner), r),
    ensures
        r matches Ok(call) ==> {
            &&& call.script@ == CLAIM_SCRIPT@
            &&& hands_over(call, 1, 5)
            &&& key(call, 1) == prefix@ + ":"@ + claim.execution_key@ + ":attempt-"@ + decimal(
                claim.attempt as nat,
            )
            &&& arg(call, 1) == owner@
            &&& arg(call, 2) == claim.execution_key@
            &&& arg(call, 3) == decimal(claim.attempt as nat)
            &&& arg(call, 4) == decimal(whole_ms(lease))
            &&& arg(call, 5) == decimal(kept_ms(lease, terminal))
            &&& 1 <= whole_ms(lease) <= kept_ms(lease, terminal)
        },
{
    if r is Ok {
        lemma_texts(r->Ok_0);
        lemma_lease_within(lease, terminal);
    }
}

proof fn lemma_lease_within(lease: Duration, terminal: Duration)
    ensures
        whole_ms(lease) <= kept_ms(lease, terminal),
{
    assert(nanos(lease) / 1_000_000 <= (nanos(lease) * 4) / 1_000_000);
}

/// A claim is refused only where the key is blank or a span cannot be handed to Redis.
pub proof fn law_claim_refused(
    store: RedisIdempotencyStore,
    claim: ExecutionClaim,
    owner: String,
    r: Result<ScriptCall, CoordinationError>,
)
    requires
        call_ensures(RedisIdempotencyStore::claim_call_as, (&store, &claim, &owner), r),
    ensures
        r is Ok <==> !is_blank(claim.execution_key@) && ms_fit(whole_ms(store.lease())) && ms_fit(
            kept_ms(store.lease(), store.terminal()),
        ),
        r matches Err(e) ==> e is InvalidState,
{
}

/// A lease is prolonged by its own owner for its own attempt, for as long as it was
/// claimed: key and arguments are those of claiming the attempt as that owner.
pub proof fn law_renewing_asks_for_what_claiming_asked(
    store: RedisIdempotencyStore,
    claim: ExecutionClaim,
    owner: String,
    lease: ExecutionLease,
    claimed: Result<ScriptCall, CoordinationError>,
    renewed: Result<ScriptCall, CoordinationError>,
)
    requires
        call_ensures(RedisIdempotencyStore::claim_call_as, (&store, &claim, &owner), claimed),
        call_ensures(RedisIdempotencyStore::renew_call, (&store, &lease), renewed),
        lease.execution_key@ == claim.execution_key@,
        lease.attempt == claim.attempt,
        lease.owner_token@ == owner@,
        claimed is Ok,
    ensures
        renewed matches Ok(call) && {
            &&& call.script@ == RENEW_EXECUTION_SCRIPT@
            &&& hands_over(call, 1, 5)
            &&& key(call, 1) == key(claimed->Ok_0, 1)
            &&& forall|n: int| 1 <= n <= 5 ==> #[trigger] arg(call, n) == arg(claimed->Ok_0, n)
        },
{
    lemma_texts(claimed->Ok_0);
    lemma_texts(renewed->Ok_0);
}

/// Prolonging a lease sends its owner and its attempt, the lease as argument 4 and the
/// retention as argument 5.
pub proof fn law_renew_call(
    prefix: String,
    lease_ttl: Duration,
    terminal: Duration,
    timeout: Duration,
    store: RedisIdempotencyStore,
    lease: ExecutionLease,
    r: Result<ScriptCall, CoordinationError>,
)
    requires
        call_ensures(
            RedisIdempotencyStore::with_timings,
            (prefix, lease_ttl, terminal, timeout),
            store,
        ),
        call_ensures(RedisIdempotencyStore::renew_call, (&store, &lease), r),
    ensures
        r is Ok <==> ms_fit(whole_ms(lease_ttl)) && ms_fit(kept_ms(lease_ttl, terminal)),
        r matches Ok(call) ==> {
            &&& call.script@ == RENEW_EXECUTION_SCRIPT@
            &&& hands_over(call, 1, 5)
            &&& key(call, 1) == prefix@ + ":"@ + lease.execution_key@ + ":attempt-"@ + decimal(
                lease.attempt as nat,
            )
            &&& arg(call, 1) == lease.owner_token@
            &&& arg(call, 2) == lease.execution_key@
            &&& arg(call, 3) == decimal(lease.attempt as nat)
            &&& arg(call, 4) == decimal(whole_ms(lease_ttl))
            &&& arg(call, 5) == decimal(kept_ms(lease_ttl, terminal))
        },
{
    if r is Ok {
        lemma_texts(r->Ok_0);
    }
}

/// The name under which an outcome is recorded, of those that the program knows.
pub open spec fn recorded_as(outcome: TerminalOutcome, name: Seq<char>) -> bool {
    &&& outcome is ResultPublished ==> name == "completed"@
    &&& outcome is RetryPublished ==> name == "retry_published"@
    &&& outcome is DeadLetterPublished ==> name == "dlq_published"@
}

/// Completing an attempt sends its owner, its name, the recorded name of the outcome as
/// argument 4 and the terminal time as argument 5.
pub proof fn law_complete_call(
    prefix: String,
    lease_ttl: Duration,
    terminal: Duration,
    timeout: Duration,
    store: RedisIdempotencyStore,
    lease: ExecutionLease,
    outcome: TerminalOutcome,
    r: Result<ScriptCall, CoordinationError>,
)
    requires
        call_ensures(
            RedisIdempotencyStore::with_timings,
            (prefix, lease_ttl, terminal, timeout),
            store,
        ),
        call_ensures(RedisIdempotencyStore::complete_call, (&store, &lease, outcome), r),
    ensures
        r is Ok <==> ms_fit(whole_ms(terminal)),
        r matches Ok(call) ==> {
            &&& call.script@ == COMPLETE_SCRIPT@
            &&& hands_over(call, 1, 5)
            &&& key(call, 1) == prefix@ + ":"@ + lease.execution_key@ + ":attempt-"@ + decimal(
                lease.attempt as nat,
            )
            &&& arg(call, 1) == lease.owner_token@
            &&& arg(call, 2) == lease.execution_key@
            &&& arg(call, 3) == decimal(lease.attempt as nat)
            &&& recorded_as(outcome, arg(call, 4))
            &&& arg(call, 5) == decimal(whole_ms(terminal))
        },
{
    if r is Ok {
        lemma_texts(r->Ok_0);
    }
}

/// Giving a lease up sends its owner and its attempt.
pub proof fn law_release_call(
    prefix: String,
    lease_ttl: Duration,
    terminal: Duration,
    timeout: Duration,
    store: RedisIdempotencyStore,
    lease: ExecutionLease,
    call: ScriptCall,
)
    requires
        call_ensures(
            RedisIdempotencyStore::with_timings,
            (prefix, lease_ttl, terminal, timeout),
            store,
        ),
        call_ensures(RedisIdempotencyStore::release_call, (&store, &lease), call),
    ensures
        call.script@ == RELEASE_SCRIPT@,
        hands_over(call, 1, 3),
        key(call, 1) == prefix@ + ":"@ + lease.execution_key@ + ":attempt-"@ + decimal(
            lease.attempt as nat,
        ),
        arg(call, 1) == lease.owner_token@,
        arg(call, 2) == lease.execution_key@,
        arg(call, 3) == decimal(lease.attempt as nat),
{
    lemma_texts(call);
}

/// A store for which only one time is given remembers outcomes for it; its leases last
/// as long, and 30 seconds at most; one exchange may take 2 seconds.
pub proof fn law_default_timings(
    prefix: String,
    ttl: Duration,
    store: RedisIdempotencyStore,
    timeout: Duration,
)
    requires
        call_ensures(RedisIdempotencyStore::new, (prefix, ttl), store),
        call_ensures(RedisIdempotencyStore::operation_timeout, (&store,), timeout),
    ensures
        store.prefix() == prefix@,
        store.terminal() == ttl,
        nanos(store.lease()) <= nanos(ttl),
        nanos(store.lease()) <= 30_000_000_000,
        nanos(store.lease()) == nanos(ttl) || nanos(store.lease()) == 30_000_000_000,
        nanos(timeout) == 2_000_000_000,
{
}

/// What the answer to a claim means. 1 grants the lease that was asked for, until the
/// time that was told, recovered where the third part is 1; 2 tells the recorded
/// outcome; 3 tells how long another owner still holds it; every other answer is an
/// error, with the message of the program where it is 4.
pub open spec fn claim_answered(
    store: RedisIdempotencyStore,
    claim: ExecutionClaim,
    owner: Seq<char>,
    code: i64,
    until_or_left: i64,
    recovered: i64,
    state: Seq<char>,
    completed_at: i64,
    message: Seq<char>,
    r: Result<ClaimOutcome, CoordinationError>,
) -> bool {
    &&& (r matches Ok(ClaimOutcome::Acquired(lease))) <==> code == 1 && until_or_left >= 0
    &&& r matches Ok(ClaimOutcome::Acquired(lease)) ==> {
        &&& lease.execution_key@ == claim.execution_key@
        &&& lease.attempt == claim.attempt
        &&& lease.owner_token@ == owner
        &&& lease.expires_at_unix_ms == until_or_left
        &&& lease.ttl == store.lease()
        &&& lease.recovered <==> recovered == 1
    }
    &&& code == 2 && completed_at >= 0 && state == "completed"@ ==> (r matches Ok(
        ClaimOutcome::AlreadyCompleted(done),
    ) && done.outcome is ResultPublished && done.completed_at_unix_ms == completed_at)
    &&& code == 2 && completed_at >= 0 && state == "retry_published"@ ==> (r matches Ok(
        ClaimOutcome::AlreadyCompleted(done),
    ) && done.outcome is RetryPublished && done.completed_at_unix_ms == completed_at)
    &&& code == 2 && completed_at >= 0 && state == "dlq_published"@ ==> (r matches Ok(
        ClaimOutcome::AlreadyCompleted(done),
    ) && done.outcome is DeadLetterPublished && done.completed_at_unix_ms == completed_at)
    &&& r matches Ok(ClaimOutcome::AlreadyCompleted(done)) ==> code == 2 && completed_at >= 0 && (state
        == "completed"@ || state == "retry_published"@ || state == "dlq_published"@)
    &&& (r matches Ok(ClaimOutcome::Busy { retry_after })) <==> code == 3
    &&& r matches Ok(ClaimOutcome::Busy { retry_after }) ==> nanos(retry_after) == (
    if until_or_left < 0 {
        0
    } else {
        until_or_left * 1_000_000
    })
    &&& r matches Err(e) ==> e is InvalidState
    &&& code == 4 ==> (r matches Err(CoordinationError::InvalidState { operation, message: m })
        && operation@ == "execution_claim"@ && m@ == message)
}

/// The answer of the program to `claim` is read so.
pub proof fn law_claim_reply(
    store: RedisIdempotencyStore,
    claim: ExecutionClaim,
    owner: String,
    code: i64,
    until_or_left: i64,
    recovered: i64,
    state: &str,
    completed_at: i64,
    message: &str,
    r: Result<ClaimOutcome, CoordinationError>,
)
    requires
        call_ensures(
            RedisIdempotencyStore::claim_reply,
            (&store, &claim, owner, code, until_or_left, recovered, state, completed_at, message),
            r,
        ),
    ensures
        claim_answered(
            store,
            claim,
            owner@,
            code,
            until_or_left,
            recovered,
            state@,
            completed_at,
            message@,
            r,
        ),
{
    reveal_strlit("completed");
    reveal_strlit("retry_published");
    reveal_strlit("dlq_published");
    let a = TerminalOutcome::ResultPublished;
    let b = TerminalOutcome::RetryPublished;
    let c = TerminalOutcome::DeadLetterPublished;
    assert(a.label() == "completed"@ && b.label() == "retry_published"@ && c.label()
        == "dlq_published"@);
    assert("completed"@[0] == 'c' && "retry_published"@[0] == 'r' && "dlq_published"@[0] == 'd');
}

/// An exchange that ended well means what was answered; one that failed is an error
/// with its text, and one that took too long another.
pub proof fn law_claim(
    store: RedisIdempotencyStore,
    claim: ExecutionClaim,
    owner: String,
    exchange: Exchange<(i64, i64, i64, String, i64, String)>,
    r: Result<ClaimOutcome, CoordinationError>,
)
    requires
        call_ensures(RedisIdempotencyStore::claim, (&store, &claim, owner, exchange), r),
    ensures
        exchange matches Exchange::Done(reply) ==> claim_answered(
            store,
            claim,
            owner@,
            reply.0,
            reply.1,
            reply.2,
            reply.3@,
            reply.4,
            reply.5@,
            r,
        ),
        exchange matches Exchange::Failed(text) ==> (r matches Err(
            CoordinationError::Unavailable { operation, message },
        ) && operation@ == "execution_claim"@ && message@ == text@),
        exchange is TimedOut ==> (r matches Err(CoordinationError::Timeout { operation }) && operation@
            == "execution_claim"@),
{
    reveal_strlit("completed");
    reveal_strlit("retry_published");
    reveal_strlit("dlq_published");
    let a = TerminalOutcome::ResultPublished;
    let b = TerminalOutcome::RetryPublished;
    let c = TerminalOutcome::DeadLetterPublished;
    assert(a.label() == "completed"@ && b.label() == "retry_published"@ && c.label()
        == "dlq_published"@);
    assert("completed"@[0] == 'c' && "retry_published"@[0] == 'r' && "dlq_published"@[0] == 'd');
}

/// What the answer to a renewal means. 1 grants the same lease until the time that was
/// told; 2 says that another owner has it; every other answer is an error.
pub open spec fn renewal_answered(
    store: RedisIdempotencyStore,
    lease: ExecutionLease,
    code: i64,
    expires_at: i64,
    message: Seq<char>,
    r: Result<ExecutionLease, CoordinationError>,
) -> bool {
    &&& r is Ok <==> code == 1 && expires_at >= 0
    &&& r matches Ok(renewed) ==> {
        &&& renewed.execution_key@ == lease.execution_key@
        &&& renewed.attempt == lease.attempt
        &&& renewed.owner_token@ == lease.owner_token@
        &&& renewed.expires_at_unix_ms == expires_at
        &&& renewed.ttl == store.lease()
        &&& renewed.recovered == lease.recovered
    }
    &&& (r matches Err(e) ==> (e is InvalidState) <==> code != 2)
    &&& code == 2 ==> (r matches Err(CoordinationError::StaleOwner { operation }) && operation@
        == "execution_renew"@)
    &&& code == 3 ==> (r matches Err(CoordinationError::InvalidState { operation, message: m })
        && operation@ == "execution_renew"@ && m@ == message)
}

/// The answer of the program to `renew` is read so.
pub proof fn law_renewal_reply(
    store: RedisIdempotencyStore,
    lease: ExecutionLease,
    code: i64,
    expires_at: i64,
    message: &str,
    r: Result<ExecutionLease, CoordinationError>,
)
    requires
        call_ensures(
            RedisIdempotencyStore::renew_reply,
            (&store, &lease, code, expires_at, message),
            r,
        ),
    ensures
        renewal_answered(
            store,
            lease,
            code,
            expires_at,
            message@,
            r,
        ),
{
}

/// An exchange that ended well means what was answered; one that failed is an error
/// with its text, and one that took too long another.
pub proof fn law_renewal(
    store: RedisIdempotencyStore,
    lease: ExecutionLease,
    exchange: Exchange<(i64, i64, String)>,
    r: Result<ExecutionLease, CoordinationError>,
)
    requires
        call_ensures(RedisIdempotencyStore::renew, (&store, &lease, exchange), r),
    ensures
        exchange matches Exchange::Done(reply) ==> renewal_answered(
            store,
            lease,
            reply.0,
            reply.1,
            reply.2@,
            r,
        ),
        exchange matches Exchange::Failed(text) ==> (r matches Err(
            CoordinationError::Unavailable { operation, message },
        ) && operation@ == "execution_renew"@ && message@ == text@),
        exchange is TimedOut ==> (r matches Err(CoordinationError::Timeout { operation }) && operation@
            == "execution_renew"@),
{
}

/// What the answer to a completion means. 1 records the outcome at the time that was
/// told; 2 says that another owner has the attempt; every other answer is an error.
pub open spec fn completion_answered(
    store: RedisIdempotencyStore,
    outcome: TerminalOutcome,
    code: i64,
    completed_at: i64,
    message: Seq<char>,
    r: Result<CompletedOutcome, CoordinationError>,
) -> bool {
    &&& r is Ok <==> code == 1 && completed_at >= 0
    &&& r matches Ok(done) ==> done.outcome == outcome && done.completed_at_unix_ms == completed_at
    &&& (r matches Err(e) ==> (e is InvalidState) <==> code != 2)
    &&& code == 2 ==> (r matches Err(CoordinationError::StaleOwner { operation }) && operation@
        == "execution_complete"@)
    &&& code == 3 ==> (r matches Err(CoordinationError::InvalidState { operation, message: m })
        && operation@ == "execution_complete"@ && m@ == message)
}

/// The answer of the program to `complete` is read so.
pub proof fn law_completion_reply(
    store: RedisIdempotencyStore,
    outcome: TerminalOutcome,
    code: i64,
    completed_at: i64,
    message: &str,
    r: Result<CompletedOutcome, CoordinationError>,
)
    requires
        call_ensures(
            RedisIdempotencyStore::complete_reply,
            (&store, outcome, code, completed_at, message),
            r,
        ),
    ensures
        completion_answered(
            store,
            outcome,
            code,
            completed_at,
            message@,
            r,
        ),
{
}

/// An exchange that ended well means what was answered; one that failed is an error
/// with its text, and one that took too long another.
pub proof fn law_completion(
    store: RedisIdempotencyStore,
    outcome: TerminalOutcome,
    exchange: Exchange<(i64, i64, String)>,
    r: Result<CompletedOutcome, CoordinationError>,
)
    requires
        call_ensures(RedisIdempotencyStore::complete, (&store, outcome, exchange), r),
    ensures
        exchange matches Exchange::Done(reply) ==> completion_answered(
            store,
            outcome,
            reply.0,
            reply.1,
            reply.2@,
            r,
        ),
        exchange matches Exchange::Failed(text) ==> (r matches Err(
            CoordinationError::Unavailable { operation, message },
        ) && operation@ == "execution_complete"@ && message@ == text@),
        exchange is TimedOut ==> (r matches Err(CoordinationError::Timeout { operation }) && operation@
            == "execution_complete"@),
{
}

/// What the answer to giving a lease up means: 0 that there was none, 1 that it was
/// given up, 2 that another owner has it; every other answer is an error.
pub open spec fn release_answered(
    store: RedisIdempotencyStore,
    code: i64,
    message: Seq<char>,
    r: Result<ReleaseOutcome, CoordinationError>,
) -> bool {
    &&& code == 0 <==> (r matches Ok(ReleaseOutcome::AlreadyAbsent))
    &&& code == 1 <==> (r matches Ok(ReleaseOutcome::Released))
    &&& (r matches Err(e) ==> (e is InvalidState) <==> code != 2)
    &&& code == 2 ==> (r matches Err(CoordinationError::StaleOwner { operation }) && operation@
        == "execution_release"@)
    &&& code == 3 ==> (r matches Err(CoordinationError::InvalidState { operation, message: m })
        && operation@ == "execution_release"@ && m@ == message)
}

/// The answer of the program to `release` is read so.
pub proof fn law_release_reply(
    store: RedisIdempotencyStore,
    code: i64,
    message: &str,
    r: Result<ReleaseOutcome, CoordinationError>,
)
    requires
        call_ensures(
            RedisIdempotencyStore::release_reply,
            (&store, code, message),
            r,
        ),
    ensures
        release_answered(
            store,
            code,
            message@,
            r,
        ),
{
}

/// An exchange that ended well means what was answered; one that failed is an error
/// with its text, and one that took too long another.
pub proof fn law_release(
    store: RedisIdempotencyStore,
    exchange: Exchange<(i64, String)>,
    r: Result<ReleaseOutcome, CoordinationError>,
)
    requires
        call_ensures(RedisIdempotencyStore::release, (&store, exchange), r),
    ensures
        exchange matches Exchange::Done(reply) ==> release_answered(
            store,
            reply.0,
            reply.1@,
            r,
        ),
        exchange matches Exchange::Failed(text) ==> (r matches Err(
            CoordinationError::Unavailable { operation, message },
        ) && operation@ == "execution_release"@ && message@ == text@),
        exchange is TimedOut ==> (r matches Err(CoordinationError::Timeout { operation }) && operation@
            == "execution_release"@),
{
}

} // verus!
