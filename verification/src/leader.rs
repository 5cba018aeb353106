//! Leadership among the nodes.
use std::time::Duration;
use vstd::prelude::*;
use crate::calls::{texts1, texts2, texts3, ScriptCall};
use crate::coordination::{
    as_u64, duration_from_nonnegative_ms, duration_ms, fence_as_i64, random_uuid, unknown_reply,
    CoordinationError, LeaderLease, LeadershipOutcome, DEFAULT_OPERATION_TIMEOUT_MS,
};
#[allow(unused_imports)]
use crate::coordination::{duration_error, is_uuid, negative_message, unknown_code};
use crate::coordination_scripts::{ACQUIRE_SCRIPT, RELINQUISH_SCRIPT, RENEW_LEADER_SCRIPT};
#[allow(unused_imports)]
use crate::durations::{millis, nanos};
use crate::text::{concat2, concat3, concat4, decimal_i64, str_eq};
#[allow(unused_imports)]
use crate::text::{decimal, decimal_int, views};

verus! {

/// Whether `r` is what the reply of the relinquishing program means.
pub open spec fn relinquish_means(code: i64, r: Result<(), CoordinationError>) -> bool {
    let operation = "leader_relinquish"@;
    if code == 0 || code == 1 {
        r is Ok
    } else if code == 2 {
        r matches Err(e) && e.is_stale_owner(operation)
    } else {
        r matches Err(e) && e.is_invalid_state(operation, unknown_code(code))
    }
}

/// A node that stands for leadership.
#[derive(Debug)]
pub struct RedisLeaderElector {
    lock_key: String,
    fence_key: String,
    node_id: String,
    lock_ttl: Duration,
    operation_timeout: Duration,
}

impl RedisLeaderElector {
    pub closed spec fn lock(&self) -> Seq<char> {
        self.lock_key@
    }

    pub closed spec fn fence(&self) -> Seq<char> {
        self.fence_key@
    }

    pub closed spec fn node(&self) -> Seq<char> {
        self.node_id@
    }

    pub closed spec fn ttl(&self) -> Duration {
        self.lock_ttl
    }

    pub closed spec fn exchange_timeout(&self) -> Duration {
        self.operation_timeout
    }

    /// Whether a lease was given to this node for this lock.
    pub open spec fn owns(&self, lease: LeaderLease) -> bool {
        lease.lock_key@ == self.lock() && lease.node_id@ == self.node()
    }

    /// A node that stands for the leadership of a lock.
    pub fn new(lock_key: String, node_id: String, lock_ttl_ms: u64) -> (e: Self)
        ensures
            e.lock() == lock_key@,
            e.fence() == lock_key@ + ":fence"@,
            e.node() == node_id@,
            nanos(e.ttl()) == lock_ttl_ms * 1_000_000,
            nanos(e.exchange_timeout()) == DEFAULT_OPERATION_TIMEOUT_MS * 1_000_000,
    {
        let fence_key = concat2(&lock_key, ":fence");
        RedisLeaderElector {
            lock_key,
            fence_key,
            node_id,
            lock_ttl: Duration::from_millis(lock_ttl_ms),
            operation_timeout: Duration::from_millis(DEFAULT_OPERATION_TIMEOUT_MS),
        }
    }

    /// The same node with another bound on one exchange.
    pub fn with_operation_timeout(self, operation_timeout: Duration) -> (e: Self)
        ensures
            e.lock() == self.lock(),
            e.fence() == self.fence(),
            e.node() == self.node(),
            e.ttl() == self.ttl(),
            e.exchange_timeout() == operation_timeout,
    {
        let mut elector = self;
        elector.operation_timeout = operation_timeout;
        elector
    }

    /// How long one exchange may take.
    pub fn operation_timeout(&self) -> (d: Duration)
        ensures
            d == self.exchange_timeout(),
    {
        self.operation_timeout
    }

    /// The call that takes the leadership under a fresh owner token, and the token.
    pub fn acquire_call(&self) -> (r: Result<(ScriptCall, String), CoordinationError>)
        ensures
            match r {
                Ok((call, owner)) => {
                    &&& duration_error(self.ttl()) is None
                    &&& exists|u: Seq<char>| #[trigger]
                        is_uuid(u) && owner@ == self.node() + ":"@ + u
                    &&& call.is(
                        ACQUIRE_SCRIPT@,
                        seq![self.lock(), self.fence()],
                        seq![owner@, self.node(), decimal(millis(self.ttl()))],
                    )
                },
                Err(e) => duration_error(self.ttl()) matches Some(m) && e.is_invalid_state(
                    "leader_acquire"@,
                    m,
                ),
            },
    {
        let token = random_uuid();
        let owner = concat3(&self.node_id, ":", &token);
        match self.acquire_call_as(&owner) {
            Ok(call) => Ok((call, owner)),
            Err(e) => Err(e),
        }
    }

    /// The call that takes the leadership under an owner token.
    pub fn acquire_call_as(&self, owner_token: &String) -> (r: Result<
        ScriptCall,
        CoordinationError,
    >)
        ensures
            match r {
                Ok(call) => {
                    &&& duration_error(self.ttl()) is None
                    &&& call.is(
                        ACQUIRE_SCRIPT@,
                        seq![self.lock(), self.fence()],
                        seq![owner_token@, self.node(), decimal(millis(self.ttl()))],
                    )
                },
                Err(e) => duration_error(self.ttl()) matches Some(m) && e.is_invalid_state(
                    "leader_acquire"@,
                    m,
                ),
            },
    {
        let ttl_ms: i64 = duration_ms("leader_acquire", self.lock_ttl)?;
        Ok(
            ScriptCall {
                script: ACQUIRE_SCRIPT,
                keys: texts2(self.lock_key.clone(), self.fence_key.clone()),
                args: texts3(owner_token.clone(), self.node_id.clone(), decimal_i64(ttl_ms)),
            },
        )
    }

    /// Whether `r` is what the reply of the acquiring program means.
    pub open spec fn acquire_means(
        &self,
        owner_token: Seq<char>,
        code: i64,
        fence: i64,
        expires_at: i64,
        retry_after: i64,
        message: Seq<char>,
        r: Result<LeadershipOutcome, CoordinationError>,
    ) -> bool {
        let operation = "leader_acquire"@;
        if code == 1 {
            if fence < 0 {
                r matches Err(e) && e.is_invalid_state(
                    operation,
                    negative_message("fencing token"@),
                )
            } else if expires_at < 0 {
                r matches Err(e) && e.is_invalid_state(
                    operation,
                    negative_message("lease expiry"@),
                )
            } else {
                r matches Ok(LeadershipOutcome::Acquired(lease)) && self.owns(lease)
                    && lease.owner_token@ == owner_token && lease.fencing_token == fence
                    && lease.expires_at_unix_ms == expires_at && lease.ttl == self.ttl()
            }
        } else if code == 2 {
            r matches Ok(LeadershipOutcome::Follower { retry_after: d }) && nanos(d) == (
            if retry_after < 0 {
                0
            } else {
                retry_after * 1_000_000
            })
        } else if code == 3 {
            r matches Err(e) && e.is_invalid_state(operation, message)
        } else {
            r matches Err(e) && e.is_invalid_state(operation, unknown_code(code))
        }
    }

    /// What the reply of the acquiring program means.
    pub fn acquire_reply(
        &self,
        owner_token: String,
        code: i64,
        fence: i64,
        expires_at: i64,
        retry_after: i64,
        message: &str,
    ) -> (r: Result<LeadershipOutcome, CoordinationError>)
        ensures
            self.acquire_means(owner_token@, code, fence, expires_at, retry_after, message@, r),
    {
        let operation = "leader_acquire";
        match code {
            1 => {
                let fencing_token: u64 = as_u64(operation, "fencing token", fence)?;
                let expires_at_unix_ms: u64 = as_u64(operation, "lease expiry", expires_at)?;
                Ok(
                    LeadershipOutcome::Acquired(
                        LeaderLease {
                            lock_key: self.lock_key.clone(),
                            node_id: self.node_id.clone(),
                            owner_token,
                            fencing_token,
                            expires_at_unix_ms,
                            ttl: self.lock_ttl,
                        },
                    ),
                )
            },
            2 => Ok(
                LeadershipOutcome::Follower {
                    retry_after: duration_from_nonnegative_ms(retry_after),
                },
            ),
            3 => Err(CoordinationError::invalid_state(operation, message)),
            other => Err(unknown_reply(operation, other)),
        }
    }

    /// Why a lease can be neither renewed nor given up by this node.
    pub open spec fn lease_error(&self, lease: LeaderLease) -> Option<Seq<char>> {
        if !self.owns(lease) {
            Some("lease belongs to a different elector"@)
        } else {
            None
        }
    }

    /// Why a lease cannot be renewed.
    pub open spec fn renew_error(&self, lease: LeaderLease) -> Option<Seq<char>> {
        if self.lease_error(lease) is Some {
            self.lease_error(lease)
        } else if duration_error(self.ttl()) is Some {
            duration_error(self.ttl())
        } else if lease.fencing_token > i64::MAX {
            Some("fencing token exceeds Redis integer range"@)
        } else {
            None
        }
    }

    /// Why a lease cannot be given up.
    pub open spec fn relinquish_error(&self, lease: LeaderLease) -> Option<Seq<char>> {
        if self.lease_error(lease) is Some {
            self.lease_error(lease)
        } else if lease.fencing_token > i64::MAX {
            Some("fencing token exceeds Redis integer range"@)
        } else {
            None
        }
    }

    fn check_owner(&self, lease: &LeaderLease, operation: &'static str) -> (r: Result<
        (),
        CoordinationError,
    >)
        ensures
            match r {
                Ok(_) => self.lease_error(*lease) is None,
                Err(e) => self.lease_error(*lease) matches Some(m) && e.is_invalid_state(
                    operation@,
                    m,
                ),
            },
    {
        if !str_eq(&lease.lock_key, &self.lock_key) || !str_eq(&lease.node_id, &self.node_id) {
            return Err(
                CoordinationError::invalid_state(operation, "lease belongs to a different elector"),
            );
        }
        Ok(())
    }

    /// The call that prolongs the leadership.
    pub fn renew_call(&self, current: &LeaderLease) -> (r: Result<ScriptCall, CoordinationError>)
        ensures
            match r {
                Ok(call) => {
                    &&& self.renew_error(*current) is None
                    &&& call.is(
                        RENEW_LEADER_SCRIPT@,
                        seq![self.lock()],
                        seq![
                            current.owner_token@,
                            decimal(current.fencing_token as nat),
                            decimal(millis(self.ttl())),
                        ],
                    )
                },
                Err(e) => self.renew_error(*current) matches Some(m) && e.is_invalid_state(
                    "leader_renew"@,
                    m,
                ),
            },
    {
        let operation = "leader_renew";
        self.check_owner(current, operation)?;
        let ttl_ms: i64 = duration_ms(operation, self.lock_ttl)?;
        let fence: i64 = fence_as_i64(operation, current.fencing_token)?;
        Ok(
            ScriptCall {
                script: RENEW_LEADER_SCRIPT,
                keys: texts1(self.lock_key.clone()),
                args: texts3(current.owner_token.clone(), decimal_i64(fence), decimal_i64(ttl_ms)),
            },
        )
    }

    /// Whether `r` is what the reply of the renewing program means.
    pub open spec fn renew_means(
        &self,
        current: LeaderLease,
        code: i64,
        expires_at: i64,
        message: Seq<char>,
        r: Result<LeadershipOutcome, CoordinationError>,
    ) -> bool {
        let operation = "leader_renew"@;
        if code == 1 {
            if expires_at < 0 {
                r matches Err(e) && e.is_invalid_state(
                    operation,
                    negative_message("lease expiry"@),
                )
            } else {
                r matches Ok(LeadershipOutcome::Renewed(lease)) && lease.lock_key@
                    == current.lock_key@ && lease.node_id@ == current.node_id@
                    && lease.owner_token@ == current.owner_token@ && lease.fencing_token
                    == current.fencing_token && lease.expires_at_unix_ms == expires_at
                    && lease.ttl == self.ttl()
            }
        } else if code == 2 {
            r matches Err(e) && e.is_stale_owner(operation)
        } else {
            r matches Err(e) && e.is_invalid_state(
                operation,
                "unknown Redis response code "@ + decimal_int(code as int) + ": "@ + message,
            )
        }
    }

    /// What the reply of the renewing program means. Who holds the leadership and
    /// the fencing token stay as they are.
    pub fn renew_reply(&self, current: &LeaderLease, code: i64, expires_at: i64, message: &str) -> (r:
        Result<LeadershipOutcome, CoordinationError>)
        ensures
            self.renew_means(*current, code, expires_at, message@, r),
    {
        let operation = "leader_renew";
        match code {
            1 => {
                let expires_at_unix_ms: u64 = as_u64(operation, "lease expiry", expires_at)?;
                Ok(
                    LeadershipOutcome::Renewed(
                        LeaderLease {
                            lock_key: current.lock_key.clone(),
                            node_id: current.node_id.clone(),
                            owner_token: current.owner_token.clone(),
                            fencing_token: current.fencing_token,
                            expires_at_unix_ms,
                            ttl: self.lock_ttl,
                        },
                    ),
                )
            },
            2 => Err(CoordinationError::stale_owner(operation)),
            other => Err(
                CoordinationError::invalid_state(
                    operation,
                    &concat4("unknown Redis response code ", &decimal_i64(other), ": ", message),
                ),
            ),
        }
    }

    /// The call that gives the leadership up.
    pub fn relinquish_call(&self, lease: &LeaderLease) -> (r: Result<ScriptCall, CoordinationError>)
        ensures
            match r {
                Ok(call) => {
                    &&& self.relinquish_error(*lease) is None
                    &&& call.is(
                        RELINQUISH_SCRIPT@,
                        seq![self.lock()],
                        seq![lease.owner_token@, decimal(lease.fencing_token as nat)],
                    )
                },
                Err(e) => self.relinquish_error(*lease) matches Some(m) && e.is_invalid_state(
                    "leader_relinquish"@,
                    m,
                ),
            },
    {
        let operation = "leader_relinquish";
        self.check_owner(lease, operation)?;
        let fence: i64 = fence_as_i64(operation, lease.fencing_token)?;
        Ok(
            ScriptCall {
                script: RELINQUISH_SCRIPT,
                keys: texts1(self.lock_key.clone()),
                args: texts2(lease.owner_token.clone(), decimal_i64(fence)),
            },
        )
    }

    /// What the reply of the relinquishing program means.
    pub fn relinquish_reply(&self, code: i64) -> (r: Result<(), CoordinationError>)
        ensures
            relinquish_means(code, r),
    {
        let operation = "leader_relinquish";
        match code {
            0 | 1 => Ok(()),
            2 => Err(CoordinationError::stale_owner(operation)),
            other => Err(unknown_reply(operation, other)),
        }
    }
}

} // verus!
