//! Execution leases: the right of one worker to run one attempt.
use std::time::Duration;
use vstd::prelude::*;
use crate::calls::{texts1, texts3, ScriptCall};
use crate::coordination::{
    as_u64, duration_from_nonnegative_ms, duration_ms, random_uuid, unknown_reply, ClaimOutcome,
    CompletedOutcome, CoordinationError, ExecutionClaim, ExecutionLease, ReleaseOutcome,
    TerminalOutcome, DEFAULT_OPERATION_TIMEOUT_MS,
};
#[allow(unused_imports)]
use crate::coordination::{duration_error, is_uuid, negative_message, unknown_code};
use crate::coordination_scripts::{
    CLAIM_SCRIPT, COMPLETE_SCRIPT, RELEASE_SCRIPT, RENEW_EXECUTION_SCRIPT,
};
use crate::durations::{longest, shortest};
#[allow(unused_imports)]
use crate::durations::{max_nanos, millis, nanos};
use crate::text::{blank, concat3, concat5, copy_str, decimal_i64, decimal_u64, str_eq};
#[allow(unused_imports)]
use crate::text::{decimal, is_blank, views};

verus! {

/// The longest lease, in milliseconds, that is taken without being asked for.
pub const DEFAULT_EXECUTION_LEASE_TTL_MS: u64 = 30_000;

impl TerminalOutcome {
    /// The stored label of an outcome.
    pub open spec fn label(self) -> Seq<char> {
        match self {
            TerminalOutcome::ResultPublished => "completed"@,
            TerminalOutcome::RetryPublished => "retry_published"@,
            TerminalOutcome::DeadLetterPublished => "dlq_published"@,
        }
    }

    /// The stored label of an outcome.
    pub fn as_str(&self) -> (s: &'static str)
        ensures
            s@ == self.label(),
    {
        match self {
            TerminalOutcome::ResultPublished => "completed",
            TerminalOutcome::RetryPublished => "retry_published",
            TerminalOutcome::DeadLetterPublished => "dlq_published",
        }
    }

    /// The outcome of a stored label.
    pub fn parse(text: &str) -> (r: Result<TerminalOutcome, String>)
        ensures
            match r {
                Ok(outcome) => text@ == outcome.label(),
                Err(m) => m@ == unknown_outcome(text@) && forall|o: TerminalOutcome|
                    text@ != #[trigger] o.label(),
            },
    {
        if str_eq(text, "completed") {
            Ok(TerminalOutcome::ResultPublished)
        } else if str_eq(text, "retry_published") {
            Ok(TerminalOutcome::RetryPublished)
        } else if str_eq(text, "dlq_published") {
            Ok(TerminalOutcome::DeadLetterPublished)
        } else {
            Err(concat3("unknown terminal outcome '", text, "'"))
        }
    }
}

/// The message of a label that stands for no outcome.
pub open spec fn unknown_outcome(text: Seq<char>) -> Seq<char> {
    "unknown terminal outcome '"@ + text + "'"@
}

/// Different outcomes have different labels.
pub proof fn lemma_outcome_labels_differ(a: TerminalOutcome, b: TerminalOutcome)
    requires
        a.label() == b.label(),
    ensures
        a == b,
{
    reveal_strlit("completed");
    reveal_strlit("retry_published");
    reveal_strlit("dlq_published");
    assert("completed"@[0] == 'c');
    assert("retry_published"@[0] == 'r');
    assert("dlq_published"@[0] == 'd');
}

/// The leases and outcomes of the executions.
#[derive(Debug)]
pub struct RedisIdempotencyStore {
    key_prefix: String,
    lease_ttl: Duration,
    terminal_ttl: Duration,
    operation_timeout: Duration,
}

/// The key of an attempt.
pub open spec fn attempt_key(prefix: Seq<char>, execution_key: Seq<char>, attempt: u32) -> Seq<char> {
    prefix + ":"@ + execution_key + ":attempt-"@ + decimal(attempt as nat)
}

/// How long a running attempt is remembered: as long as a finished one, and at
/// least four leases.
pub open spec fn running_nanos(lease_ttl: Duration, terminal_ttl: Duration) -> nat {
    let four = if nanos(lease_ttl) * 4 > max_nanos() {
        max_nanos()
    } else {
        nanos(lease_ttl) * 4
    };
    if nanos(terminal_ttl) <= four {
        four
    } else {
        nanos(terminal_ttl)
    }
}

/// Why a span of so many nanoseconds cannot be handed to Redis in milliseconds.
pub open spec fn nanos_error(n: nat) -> Option<Seq<char>> {
    if n / 1_000_000 == 0 {
        Some("duration must be at least one millisecond"@)
    } else if n / 1_000_000 > i64::MAX {
        Some("duration exceeds Redis integer range"@)
    } else {
        None
    }
}

/// Whether `r` is what the reply of the claiming program means.
pub open spec fn claim_means(
    claim: ExecutionClaim,
    owner_token: Seq<char>,
    ttl: Duration,
    code: i64,
    lease_or_retry: i64,
    recovered: i64,
    terminal_state: Seq<char>,
    completed_at: i64,
    message: Seq<char>,
    r: Result<ClaimOutcome, CoordinationError>,
) -> bool {
    let operation = "execution_claim"@;
    if code == 1 {
        if lease_or_retry < 0 {
            r matches Err(e) && e.is_invalid_state(
                operation,
                negative_message("execution lease expiry"@),
            )
        } else {
            r matches Ok(ClaimOutcome::Acquired(lease)) && lease.execution_key@
                == claim.execution_key@ && lease.attempt == claim.attempt && lease.owner_token@
                == owner_token && lease.expires_at_unix_ms == lease_or_retry && lease.ttl == ttl
                && lease.recovered == (recovered == 1)
        }
    } else if code == 2 {
        if forall|o: TerminalOutcome| terminal_state != #[trigger] o.label() {
            r matches Err(e) && e.is_invalid_state(operation, unknown_outcome(terminal_state))
        } else if completed_at < 0 {
            r matches Err(e) && e.is_invalid_state(
                operation,
                negative_message("completion timestamp"@),
            )
        } else {
            r matches Ok(ClaimOutcome::AlreadyCompleted(done)) && done.outcome.label()
                == terminal_state && done.completed_at_unix_ms == completed_at
        }
    } else if code == 3 {
        r matches Ok(ClaimOutcome::Busy { retry_after }) && nanos(retry_after) == (
        if lease_or_retry < 0 {
            0
        } else {
            lease_or_retry * 1_000_000
        })
    } else if code == 4 {
        r matches Err(e) && e.is_invalid_state(operation, message)
    } else {
        r matches Err(e) && e.is_invalid_state(operation, unknown_code(code))
    }
}

/// Whether `r` is what the reply of the renewing program means.
pub open spec fn renew_means(
    lease: ExecutionLease,
    ttl: Duration,
    code: i64,
    expires_at: i64,
    message: Seq<char>,
    r: Result<ExecutionLease, CoordinationError>,
) -> bool {
    let operation = "execution_renew"@;
    if code == 1 {
        if expires_at < 0 {
            r matches Err(e) && e.is_invalid_state(
                operation,
                negative_message("execution lease expiry"@),
            )
        } else {
            r matches Ok(renewed) && renewed.execution_key@ == lease.execution_key@
                && renewed.attempt == lease.attempt && renewed.owner_token@
                == lease.owner_token@ && renewed.expires_at_unix_ms == expires_at
                && renewed.ttl == ttl && renewed.recovered == lease.recovered
        }
    } else if code == 2 {
        r matches Err(e) && e.is_stale_owner(operation)
    } else if code == 3 {
        r matches Err(e) && e.is_invalid_state(operation, message)
    } else {
        r matches Err(e) && e.is_invalid_state(operation, unknown_code(code))
    }
}

/// Whether `r` is what the reply of the completing program means.
pub open spec fn complete_means(
    outcome: TerminalOutcome,
    code: i64,
    completed_at: i64,
    message: Seq<char>,
    r: Result<CompletedOutcome, CoordinationError>,
) -> bool {
    let operation = "execution_complete"@;
    if code == 1 {
        if completed_at < 0 {
            r matches Err(e) && e.is_invalid_state(
                operation,
                negative_message("completion timestamp"@),
            )
        } else {
            r matches Ok(done) && done.outcome == outcome && done.completed_at_unix_ms
                == completed_at
        }
    } else if code == 2 {
        r matches Err(e) && e.is_stale_owner(operation)
    } else if code == 3 {
        r matches Err(e) && e.is_invalid_state(operation, message)
    } else {
        r matches Err(e) && e.is_invalid_state(operation, unknown_code(code))
    }
}

/// Whether `r` is what the reply of the releasing program means.
pub open spec fn release_means(
    code: i64,
    message: Seq<char>,
    r: Result<ReleaseOutcome, CoordinationError>,
) -> bool {
    let operation = "execution_release"@;
    if code == 0 {
        r matches Ok(ReleaseOutcome::AlreadyAbsent)
    } else if code == 1 {
        r matches Ok(ReleaseOutcome::Released)
    } else if code == 2 {
        r matches Err(e) && e.is_stale_owner(operation)
    } else if code == 3 {
        r matches Err(e) && e.is_invalid_state(operation, message)
    } else {
        r matches Err(e) && e.is_invalid_state(operation, unknown_code(code))
    }
}

impl RedisIdempotencyStore {
    pub closed spec fn prefix(&self) -> Seq<char> {
        self.key_prefix@
    }

    pub closed spec fn lease(&self) -> Duration {
        self.lease_ttl
    }

    pub closed spec fn terminal(&self) -> Duration {
        self.terminal_ttl
    }

    pub closed spec fn exchange_timeout(&self) -> Duration {
        self.operation_timeout
    }

    /// A store that remembers outcomes for `ttl`. Leases last as long, but at most
    /// 30 seconds, and are renewed by the worker.
    pub fn new(key_prefix: String, ttl: Duration) -> (s: Self)
        ensures
            s.prefix() == key_prefix@,
            nanos(s.lease()) == (if nanos(ttl) <= DEFAULT_EXECUTION_LEASE_TTL_MS * 1_000_000 {
                nanos(ttl)
            } else {
                (DEFAULT_EXECUTION_LEASE_TTL_MS * 1_000_000) as nat
            }),
            s.terminal() == ttl,
            nanos(s.exchange_timeout()) == DEFAULT_OPERATION_TIMEOUT_MS * 1_000_000,
    {
        RedisIdempotencyStore {
            key_prefix,
            lease_ttl: shortest(ttl, Duration::from_millis(DEFAULT_EXECUTION_LEASE_TTL_MS)),
            terminal_ttl: ttl,
            operation_timeout: Duration::from_millis(DEFAULT_OPERATION_TIMEOUT_MS),
        }
    }

    /// A store with the given timings.
    pub fn with_timings(
        key_prefix: String,
        lease_ttl: Duration,
        terminal_ttl: Duration,
        operation_timeout: Duration,
    ) -> (s: Self)
        ensures
            s.prefix() == key_prefix@,
            s.lease() == lease_ttl,
            s.terminal() == terminal_ttl,
            s.exchange_timeout() == operation_timeout,
    {
        RedisIdempotencyStore { key_prefix, lease_ttl, terminal_ttl, operation_timeout }
    }

    /// How long a lease lasts.
    pub fn lease_ttl(&self) -> (d: Duration)
        ensures
            d == self.lease(),
    {
        self.lease_ttl
    }

    /// How long one exchange may take.
    pub fn operation_timeout(&self) -> (d: Duration)
        ensures
            d == self.exchange_timeout(),
    {
        self.operation_timeout
    }

    /// The key of a claimed attempt.
    pub fn key_for(&self, claim: &ExecutionClaim) -> (key: String)
        ensures
            key@ == attempt_key(self.prefix(), claim.execution_key@, claim.attempt),
    {
        concat5(
            &self.key_prefix,
            ":",
            &claim.execution_key,
            ":attempt-",
            &decimal_u64(claim.attempt as u64),
        )
    }

    /// The key of a leased attempt.
    pub fn key_for_lease(&self, lease: &ExecutionLease) -> (key: String)
        ensures
            key@ == attempt_key(self.prefix(), lease.execution_key@, lease.attempt),
    {
        concat5(
            &self.key_prefix,
            ":",
            &lease.execution_key,
            ":attempt-",
            &decimal_u64(lease.attempt as u64),
        )
    }

    /// How long a running attempt is remembered.
    pub fn running_retention(&self) -> (d: Duration)
        ensures
            nanos(d) == running_nanos(self.lease(), self.terminal()),
    {
        longest(self.terminal_ttl, self.lease_ttl.saturating_mul(4))
    }

    /// Why no lease can be taken or renewed with these timings.
    pub open spec fn timing_error(&self) -> Option<Seq<char>> {
        if duration_error(self.lease()) is Some {
            duration_error(self.lease())
        } else {
            nanos_error(running_nanos(self.lease(), self.terminal()))
        }
    }

    /// Why an attempt cannot be claimed.
    pub open spec fn claim_error(&self, claim: ExecutionClaim) -> Option<Seq<char>> {
        if is_blank(claim.execution_key@) {
            Some("execution key must not be empty"@)
        } else {
            self.timing_error()
        }
    }

    /// The arguments of a call for an owner and an attempt with the two timings.
    pub open spec fn lease_args(
        &self,
        owner: Seq<char>,
        execution_key: Seq<char>,
        attempt: u32,
    ) -> Seq<Seq<char>> {
        seq![
            owner,
            execution_key,
            decimal(attempt as nat),
            decimal(millis(self.lease())),
            decimal(running_nanos(self.lease(), self.terminal()) / 1_000_000),
        ]
    }

    /// The call that claims an attempt under a fresh owner token, and the token.
    pub fn claim_call(&self, claim: &ExecutionClaim) -> (r: Result<
        (ScriptCall, String),
        CoordinationError,
    >)
        ensures
            match r {
                Ok((call, owner)) => {
                    &&& self.claim_error(*claim) is None
                    &&& is_uuid(owner@)
                    &&& call.is(
                        CLAIM_SCRIPT@,
                        seq![attempt_key(self.prefix(), claim.execution_key@, claim.attempt)],
                        self.lease_args(owner@, claim.execution_key@, claim.attempt),
                    )
                },
                Err(e) => self.claim_error(*claim) matches Some(m) && e.is_invalid_state(
                    "execution_claim"@,
                    m,
                ),
            },
    {
        let owner = random_uuid();
        match self.claim_call_as(claim, &owner) {
            Ok(call) => Ok((call, owner)),
            Err(e) => Err(e),
        }
    }

    /// The call that claims an attempt under an owner token.
    pub fn claim_call_as(&self, claim: &ExecutionClaim, owner_token: &String) -> (r: Result<
        ScriptCall,
        CoordinationError,
    >)
        ensures
            match r {
                Ok(call) => {
                    &&& self.claim_error(*claim) is None
                    &&& call.is(
                        CLAIM_SCRIPT@,
                        seq![attempt_key(self.prefix(), claim.execution_key@, claim.attempt)],
                        self.lease_args(owner_token@, claim.execution_key@, claim.attempt),
                    )
                },
                Err(e) => self.claim_error(*claim) matches Some(m) && e.is_invalid_state(
                    "execution_claim"@,
                    m,
                ),
            },
    {
        let operation = "execution_claim";
        if blank(&claim.execution_key) {
            return Err(
                CoordinationError::invalid_state(operation, "execution key must not be empty"),
            );
        }
        let lease_ttl_ms: i64 = duration_ms(operation, self.lease_ttl)?;
        let retention_ms: i64 = duration_ms(operation, self.running_retention())?;
        let args: Vec<String> = vec![
            owner_token.clone(),
            claim.execution_key.clone(),
            decimal_u64(claim.attempt as u64),
            decimal_i64(lease_ttl_ms),
            decimal_i64(retention_ms),
        ];
        assert(views(args@) =~= self.lease_args(owner_token@, claim.execution_key@, claim.attempt));
        Ok(ScriptCall { script: CLAIM_SCRIPT, keys: texts1(self.key_for(claim)), args })
    }

    /// What the reply of the claiming program means.
    pub fn claim_reply(
        &self,
        claim: &ExecutionClaim,
        owner_token: String,
        code: i64,
        lease_or_retry: i64,
        recovered: i64,
        terminal_state: &str,
        completed_at: i64,
        message: &str,
    ) -> (r: Result<ClaimOutcome, CoordinationError>)
        ensures
            claim_means(
                *claim,
                owner_token@,
                self.lease(),
                code,
                lease_or_retry,
                recovered,
                terminal_state@,
                completed_at,
                message@,
                r,
            ),
    {
        let operation = "execution_claim";
        match code {
            1 => {
                let expires_at: u64 = as_u64(operation, "execution lease expiry", lease_or_retry)?;
                Ok(
                    ClaimOutcome::Acquired(
                        ExecutionLease {
                            execution_key: claim.execution_key.clone(),
                            attempt: claim.attempt,
                            owner_token,
                            expires_at_unix_ms: expires_at as u128,
                            ttl: self.lease_ttl,
                            recovered: recovered == 1,
                        },
                    ),
                )
            },
            2 => match TerminalOutcome::parse(terminal_state) {
                Err(m) => Err(CoordinationError::invalid_state(operation, &m)),
                Ok(outcome) => {
                    assert(outcome.label() == terminal_state@);
                    let completed: u64 = as_u64(operation, "completion timestamp", completed_at)?;
                    Ok(
                        ClaimOutcome::AlreadyCompleted(
                            CompletedOutcome { outcome, completed_at_unix_ms: completed as u128 },
                        ),
                    )
                },
            },
            3 => Ok(
                ClaimOutcome::Busy { retry_after: duration_from_nonnegative_ms(lease_or_retry) },
            ),
            4 => Err(CoordinationError::invalid_state(operation, message)),
            other => Err(unknown_reply(operation, other)),
        }
    }

    /// The call that prolongs a lease.
    pub fn renew_call(&self, lease: &ExecutionLease) -> (r: Result<ScriptCall, CoordinationError>)
        ensures
            match r {
                Ok(call) => {
                    &&& self.timing_error() is None
                    &&& call.is(
                        RENEW_EXECUTION_SCRIPT@,
                        seq![attempt_key(self.prefix(), lease.execution_key@, lease.attempt)],
                        self.lease_args(lease.owner_token@, lease.execution_key@, lease.attempt),
                    )
                },
                Err(e) => self.timing_error() matches Some(m) && e.is_invalid_state(
                    "execution_renew"@,
                    m,
                ),
            },
    {
        let operation = "execution_renew";
        let lease_ttl_ms: i64 = duration_ms(operation, self.lease_ttl)?;
        let retention_ms: i64 = duration_ms(operation, self.running_retention())?;
        let args: Vec<String> = vec![
            lease.owner_token.clone(),
            lease.execution_key.clone(),
            decimal_u64(lease.attempt as u64),
            decimal_i64(lease_ttl_ms),
            decimal_i64(retention_ms),
        ];
        assert(views(args@) =~= self.lease_args(
            lease.owner_token@,
            lease.execution_key@,
            lease.attempt,
        ));
        Ok(ScriptCall { script: RENEW_EXECUTION_SCRIPT, keys: texts1(self.key_for_lease(lease)), args })
    }

    /// What the reply of the renewing program means. Owner and attempt stay as they
    /// are.
    pub fn renew_reply(&self, lease: &ExecutionLease, code: i64, expires_at: i64, message: &str) -> (r:
        Result<ExecutionLease, CoordinationError>)
        ensures
            renew_means(*lease, self.lease(), code, expires_at, message@, r),
    {
        let operation = "execution_renew";
        match code {
            1 => {
                let expires: u64 = as_u64(operation, "execution lease expiry", expires_at)?;
                Ok(
                    ExecutionLease {
                        execution_key: lease.execution_key.clone(),
                        attempt: lease.attempt,
                        owner_token: lease.owner_token.clone(),
                        expires_at_unix_ms: expires as u128,
                        ttl: self.lease_ttl,
                        recovered: lease.recovered,
                    },
                )
            },
            2 => Err(CoordinationError::stale_owner(operation)),
            3 => Err(CoordinationError::invalid_state(operation, message)),
            other => Err(unknown_reply(operation, other)),
        }
    }

    /// The call that records the outcome of an attempt.
    pub fn complete_call(&self, lease: &ExecutionLease, outcome: TerminalOutcome) -> (r: Result<
        ScriptCall,
        CoordinationError,
    >)
        ensures
            match r {
                Ok(call) => {
                    &&& duration_error(self.terminal()) is None
                    &&& call.is(
                        COMPLETE_SCRIPT@,
                        seq![attempt_key(self.prefix(), lease.execution_key@, lease.attempt)],
                        seq![
                            lease.owner_token@,
                            lease.execution_key@,
                            decimal(lease.attempt as nat),
                            outcome.label(),
                            decimal(millis(self.terminal())),
                        ],
                    )
                },
                Err(e) => duration_error(self.terminal()) matches Some(m) && e.is_invalid_state(
                    "execution_complete"@,
                    m,
                ),
            },
    {
        let operation = "execution_complete";
        let terminal_ttl_ms: i64 = duration_ms(operation, self.terminal_ttl)?;
        let args: Vec<String> = vec![
            lease.owner_token.clone(),
            lease.execution_key.clone(),
            decimal_u64(lease.attempt as u64),
            copy_str(outcome.as_str()),
            decimal_i64(terminal_ttl_ms),
        ];
        assert(views(args@) =~= seq![
            lease.owner_token@,
            lease.execution_key@,
            decimal(lease.attempt as nat),
            outcome.label(),
            decimal(millis(self.terminal())),
        ]);
        Ok(ScriptCall { script: COMPLETE_SCRIPT, keys: texts1(self.key_for_lease(lease)), args })
    }

    /// What the reply of the completing program means.
    pub fn complete_reply(
        &self,
        outcome: TerminalOutcome,
        code: i64,
        completed_at: i64,
        message: &str,
    ) -> (r: Result<CompletedOutcome, CoordinationError>)
        ensures
            complete_means(outcome, code, completed_at, message@, r),
    {
        let operation = "execution_complete";
        match code {
            1 => {
                let completed: u64 = as_u64(operation, "completion timestamp", completed_at)?;
                Ok(CompletedOutcome { outcome, completed_at_unix_ms: completed as u128 })
            },
            2 => Err(CoordinationError::stale_owner(operation)),
            3 => Err(CoordinationError::invalid_state(operation, message)),
            other => Err(unknown_reply(operation, other)),
        }
    }

    /// The call that gives a lease up.
    pub fn release_call(&self, lease: &ExecutionLease) -> (call: ScriptCall)
        ensures
            call.is(
                RELEASE_SCRIPT@,
                seq![attempt_key(self.prefix(), lease.execution_key@, lease.attempt)],
                seq![lease.owner_token@, lease.execution_key@, decimal(lease.attempt as nat)],
            ),
    {
        ScriptCall {
            script: RELEASE_SCRIPT,
            keys: texts1(self.key_for_lease(lease)),
            args: texts3(
                lease.owner_token.clone(),
                lease.execution_key.clone(),
                decimal_u64(lease.attempt as u64),
            ),
        }
    }

    /// What the reply of the releasing program means.
    pub fn release_reply(&self, code: i64, message: &str) -> (r: Result<
        ReleaseOutcome,
        CoordinationError,
    >)
        ensures
            release_means(code, message@, r),
    {
        let operation = "execution_release";
        match code {
            0 => Ok(ReleaseOutcome::AlreadyAbsent),
            1 => Ok(ReleaseOutcome::Released),
            2 => Err(CoordinationError::stale_owner(operation)),
            3 => Err(CoordinationError::invalid_state(operation, message)),
            other => Err(unknown_reply(operation, other)),
        }
    }
}

} // verus!
