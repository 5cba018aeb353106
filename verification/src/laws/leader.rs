//! Taking, prolonging and giving up the leadership.
use std::time::Duration;
use vstd::prelude::*;
use super::execution::{ms_fit, whole_ms};
use super::script::{arg, hands_over, key, lemma_texts};
use crate::calls::ScriptCall;
use crate::coordination::{CoordinationError, Exchange, LeaderLease, LeadershipOutcome};
use crate::coordination_scripts::{ACQUIRE_SCRIPT, RELINQUISH_SCRIPT, RENEW_LEADER_SCRIPT};
use crate::durations::nanos;
use crate::leader::RedisLeaderElector;
use crate::text::decimal;

verus! {

/// Asking for the leadership sends the lock as key 1 and its fence as key 2, and the
/// owner, the node and the time to live, in this order.
pub proof fn law_acquire_call(
    lock: String,
    node: String,
    ttl_ms: u64,
    elector: RedisLeaderElector,
    owner: String,
    r: Result<ScriptCall, CoordinationError>,
)
    requires
        call_ensures(RedisLeaderElector::new, (lock, node, ttl_ms), elector),
        call_ensures(RedisLeaderElector::acquire_call_as, (&elector, &owner), r),
    ensures
        r is Ok <==> 1 <= ttl_ms <= 9_223_372_036_854_775_807,
        r matches Ok(call) ==> {
            &&& call.script@ == ACQUIRE_SCRIPT@
            &&& hands_over(call, 2, 3)
            &&& key(call, 1) == lock@
            &&& key(call, 2) == lock@ + ":fence"@
            &&& arg(call, 1) == owner@
            &&& arg(call, 2) == node@
            &&& arg(call, 3) == decimal(ttl_ms as nat)
        },
{
    assert(ttl_ms as nat * 1_000_000 / 1_000_000 == ttl_ms as nat);
    if r is Ok {
        lemma_texts(r->Ok_0);
    }
}

/// A fresh owner token begins with the node and a colon and is 36 characters longer.
pub proof fn law_owner_token(
    elector: RedisLeaderElector,
    r: Result<(ScriptCall, String), CoordinationError>,
)
    requires
        call_ensures(RedisLeaderElector::acquire_call, (&elector,), r),
    ensures
        r is Ok <==> ms_fit(whole_ms(elector.ttl())),
        r matches Ok((call, owner)) ==> {
            &&& owner@.len() == elector.node().len() + 37
            &&& owner@.take(elector.node().len() as int) == elector.node()
            &&& owner@[elector.node().len() as int] == ':'
            &&& arg(call, 1) == owner@
            &&& arg(call, 2) == elector.node()
            &&& arg(call, 3) == decimal(whole_ms(elector.ttl()))
            &&& key(call, 1) == elector.lock()
            &&& key(call, 2) == elector.fence()
            &&& call.script@ == ACQUIRE_SCRIPT@
        },
{
    reveal_strlit(":");
    if r is Ok {
        let (call, owner) = r->Ok_0;
        lemma_texts(call);
        assert(owner@.take(elector.node().len() as int) =~= elector.node());
    }
}

/// Another bound on one exchange changes nothing else.
pub proof fn law_other_timeout(
    lock: String,
    node: String,
    ttl_ms: u64,
    timeout: Duration,
    first: RedisLeaderElector,
    elector: RedisLeaderElector,
    default: Duration,
    bound: Duration,
)
    requires
        call_ensures(RedisLeaderElector::new, (lock, node, ttl_ms), first),
        call_ensures(RedisLeaderElector::operation_timeout, (&first,), default),
        call_ensures(RedisLeaderElector::with_operation_timeout, (first, timeout), elector),
        call_ensures(RedisLeaderElector::operation_timeout, (&elector,), bound),
    ensures
        nanos(default) == 2_000_000_000,
        bound == timeout,
        elector.lock() == lock@,
        elector.fence() == lock@ + ":fence"@,
        elector.node() == node@,
        nanos(elector.ttl()) == ttl_ms * 1_000_000,
{
}

/// Prolonging the leadership sends the lock, and the owner, the fence and the time to
/// live, in this order; a lease of another lock or of another node is refused.
pub proof fn law_renew_leader_call(
    lock: String,
    node: String,
    ttl_ms: u64,
    elector: RedisLeaderElector,
    lease: LeaderLease,
    r: Result<ScriptCall, CoordinationError>,
)
    requires
        call_ensures(RedisLeaderElector::new, (lock, node, ttl_ms), elector),
        call_ensures(RedisLeaderElector::renew_call, (&elector, &lease), r),
    ensures
        r is Ok <==> lease.lock_key@ == lock@ && lease.node_id@ == node@ && 1 <= ttl_ms
            <= 9_223_372_036_854_775_807 && lease.fencing_token <= 9_223_372_036_854_775_807,
        r matches Ok(call) ==> {
            &&& call.script@ == RENEW_LEADER_SCRIPT@
            &&& hands_over(call, 1, 3)
            &&& key(call, 1) == lock@
            &&& arg(call, 1) == lease.owner_token@
            &&& arg(call, 2) == decimal(lease.fencing_token as nat)
            &&& arg(call, 3) == decimal(ttl_ms as nat)
        },
{
    assert(ttl_ms as nat * 1_000_000 / 1_000_000 == ttl_ms as nat);
    if r is Ok {
        lemma_texts(r->Ok_0);
    }
}

/// Giving the leadership up sends the lock, and the owner and the fence, in this order;
/// a lease of another lock or of another node is refused.
pub proof fn law_relinquish_call(
    lock: String,
    node: String,
    ttl_ms: u64,
    elector: RedisLeaderElector,
    lease: LeaderLease,
    r: Result<ScriptCall, CoordinationError>,
)
    requires
        call_ensures(RedisLeaderElector::new, (lock, node, ttl_ms), elector),
        call_ensures(RedisLeaderElector::relinquish_call, (&elector, &lease), r),
    ensures
        r is Ok <==> lease.lock_key@ == lock@ && lease.node_id@ == node@ && lease.fencing_token
            <= 9_223_372_036_854_775_807,
        r matches Ok(call) ==> {
            &&& call.script@ == RELINQUISH_SCRIPT@
            &&& hands_over(call, 1, 2)
            &&& key(call, 1) == lock@
            &&& arg(call, 1) == lease.owner_token@
            &&& arg(call, 2) == decimal(lease.fencing_token as nat)
        },
{
    if r is Ok {
        lemma_texts(r->Ok_0);
    }
}

/// What the answer to asking for the leadership means. 1 gives it under the fence and
/// until the time that were told; 2 tells how long another node still has it; every
/// other answer is an error, with the message of the program where it is 3.
pub open spec fn acquisition_answered(
    elector: RedisLeaderElector,
    owner: Seq<char>,
    code: i64,
    fence: i64,
    expires_at: i64,
    retry_after: i64,
    message: Seq<char>,
    r: Result<LeadershipOutcome, CoordinationError>,
) -> bool {
    &&& (r matches Ok(LeadershipOutcome::Acquired(lease))) <==> code == 1 && fence >= 0 && expires_at >= 0
    &&& r matches Ok(LeadershipOutcome::Acquired(lease)) ==> {
        &&& lease.lock_key@ == elector.lock()
        &&& lease.node_id@ == elector.node()
        &&& lease.owner_token@ == owner
        &&& lease.fencing_token == fence
        &&& lease.expires_at_unix_ms == expires_at
        &&& lease.ttl == elector.ttl()
    }
    &&& !(r matches Ok(LeadershipOutcome::Renewed(lease)))
    &&& (r matches Ok(LeadershipOutcome::Follower { retry_after: d })) <==> code == 2
    &&& r matches Ok(LeadershipOutcome::Follower { retry_after: d }) ==> nanos(d) == (
    if retry_after < 0 {
        0
    } else {
        retry_after * 1_000_000
    })
    &&& r matches Err(e) ==> e is InvalidState
    &&& code == 3 ==> (r matches Err(CoordinationError::InvalidState { operation, message: m })
        && operation@ == "leader_acquire"@ && m@ == message)
}

/// The answer of the program to `acquire` is read so.
pub proof fn law_acquisition_reply(
    elector: RedisLeaderElector,
    owner: String,
    code: i64,
    fence: i64,
    expires_at: i64,
    retry_after: i64,
    message: &str,
    r: Result<LeadershipOutcome, CoordinationError>,
)
    requires
        call_ensures(
            RedisLeaderElector::acquire_reply,
            (&elector, owner, code, fence, expires_at, retry_after, message),
            r,
        ),
    ensures
        acquisition_answered(
            elector,
            owner@,
            code,
            fence,
            expires_at,
            retry_after,
            message@,
            r,
        ),
{
}

/// An exchange that ended well means what was answered; one that failed is an error
/// with its text, and one that took too long another.
pub proof fn law_acquisition(
    elector: RedisLeaderElector,
    owner: String,
    exchange: Exchange<(i64, i64, i64, i64, String)>,
    r: Result<LeadershipOutcome, CoordinationError>,
)
    requires
        call_ensures(RedisLeaderElector::acquire, (&elector, owner, exchange), r),
    ensures
        exchange matches Exchange::Done(reply) ==> acquisition_answered(
            elector,
            owner@,
            reply.0,
            reply.1,
            reply.2,
            reply.3,
            reply.4@,
            r,
        ),
        exchange matches Exchange::Failed(text) ==> (r matches Err(
            CoordinationError::Unavailable { operation, message },
        ) && operation@ == "leader_acquire"@ && message@ == text@),
        exchange is TimedOut ==> (r matches Err(CoordinationError::Timeout { operation }) && operation@
            == "leader_acquire"@),
{
}

/// What the answer to prolonging the leadership means. 1 gives the same lease until the
/// time that was told: the fence and the owner stay; 2 says that another node has it;
/// every other answer is an error.
pub open spec fn leader_renewal_answered(
    elector: RedisLeaderElector,
    lease: LeaderLease,
    code: i64,
    expires_at: i64,
    message: Seq<char>,
    r: Result<LeadershipOutcome, CoordinationError>,
) -> bool {
    &&& r is Ok <==> code == 1 && expires_at >= 0
    &&& r matches Ok(outcome) ==> (outcome matches LeadershipOutcome::Renewed(renewed) && {
        &&& renewed.lock_key@ == lease.lock_key@
        &&& renewed.node_id@ == lease.node_id@
        &&& renewed.owner_token@ == lease.owner_token@
        &&& renewed.fencing_token == lease.fencing_token
        &&& renewed.expires_at_unix_ms == expires_at
        &&& renewed.ttl == elector.ttl()
    })
    &&& (r matches Err(e) ==> (e is InvalidState) <==> code != 2)
    &&& code == 2 ==> (r matches Err(CoordinationError::StaleOwner { operation }) && operation@
        == "leader_renew"@)
}

/// The answer of the program to `renew` is read so.
pub proof fn law_leader_renewal_reply(
    elector: RedisLeaderElector,
    lease: LeaderLease,
    code: i64,
    expires_at: i64,
    message: &str,
    r: Result<LeadershipOutcome, CoordinationError>,
)
    requires
        call_ensures(
            RedisLeaderElector::renew_reply,
            (&elector, &lease, code, expires_at, message),
            r,
        ),
    ensures
        leader_renewal_answered(
            elector,
            lease,
            code,
            expires_at,
            message@,
            r,
        ),
{
}

/// An exchange that ended well means what was answered; one that failed is an error
/// with its text, and one that took too long another.
pub proof fn law_leader_renewal(
    elector: RedisLeaderElector,
    lease: LeaderLease,
    exchange: Exchange<(i64, i64, String)>,
    r: Result<LeadershipOutcome, CoordinationError>,
)
    requires
        call_ensures(RedisLeaderElector::renew, (&elector, &lease, exchange), r),
    ensures
        exchange matches Exchange::Done(reply) ==> leader_renewal_answered(
            elector,
            lease,
            reply.0,
            reply.1,
            reply.2@,
            r,
        ),
        exchange matches Exchange::Failed(text) ==> (r matches Err(
            CoordinationError::Unavailable { operation, message },
        ) && operation@ == "leader_renew"@ && message@ == text@),
        exchange is TimedOut ==> (r matches Err(CoordinationError::Timeout { operation }) && operation@
            == "leader_renew"@),
{
}

/// What the answer to giving the leadership up means: 0 and 1 that this node no longer
/// has it, 2 that another has it; every other answer is an error.
pub open spec fn relinquishment_answered(
    elector: RedisLeaderElector,
    code: i64,
    r: Result<(), CoordinationError>,
) -> bool {
    &&& r is Ok <==> code == 0 || code == 1
    &&& (r matches Err(e) ==> (e is InvalidState) <==> code != 2)
    &&& code == 2 ==> (r matches Err(CoordinationError::StaleOwner { operation }) && operation@
        == "leader_relinquish"@)
}

/// The answer of the program to `relinquish` is read so.
pub proof fn law_relinquishment_reply(
    elector: RedisLeaderElector,
    code: i64,
    r: Result<(), CoordinationError>,
)
    requires
        call_ensures(
            RedisLeaderElector::relinquish_reply,
            (&elector, code),
            r,
        ),
    ensures
        relinquishment_answered(
            elector,
            code,
            r,
        ),
{
}

/// An exchange that ended well means what was answered; one that failed is an error
/// with its text, and one that took too long another.
pub proof fn law_relinquishment(
    elector: RedisLeaderElector,
    exchange: Exchange<i64>,
    r: Result<(), CoordinationError>,
)
    requires
        call_ensures(RedisLeaderElector::relinquish, (&elector, exchange), r),
    ensures
        exchange matches Exchange::Done(reply) ==> relinquishment_answered(
            elector,
            reply,
            r,
        ),
        exchange matches Exchange::Failed(text) ==> (r matches Err(
            CoordinationError::Unavailable { operation, message },
        ) && operation@ == "leader_relinquish"@ && message@ == text@),
        exchange is TimedOut ==> (r matches Err(CoordinationError::Timeout { operation }) && operation@
            == "leader_relinquish"@),
{
}

} // verus!
