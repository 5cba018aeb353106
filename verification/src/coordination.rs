//! Leases, dispatch windows and the errors of coordinating through Redis.
use std::time::Duration;
use vstd::prelude::*;
#[allow(unused_imports)]
use crate::durations::{millis, nanos};
use crate::snapshot::RunAggregationStoreError;
use crate::text::{concat2, copy_str};

verus! {

/// How long one exchange with Redis may take, in milliseconds, unless another
/// bound is set.
pub const DEFAULT_OPERATION_TIMEOUT_MS: u64 = 2_000;

/// Why a coordination operation failed.
#[derive(Debug, PartialEq, Eq)]
pub enum CoordinationError {
    Unavailable { operation: &'static str, message: String },
    Timeout { operation: &'static str },
    InvalidState { operation: &'static str, message: String },
    StaleOwner { operation: &'static str },
}

impl CoordinationError {
    /// Whether this is the invalid state of an operation with a message.
    pub open spec fn is_invalid_state(self, operation: Seq<char>, message: Seq<char>) -> bool {
        self matches CoordinationError::InvalidState { operation: o, message: m } && o@ == operation
            && m@ == message
    }

    /// Whether this says that another owner took over.
    pub open spec fn is_stale_owner(self, operation: Seq<char>) -> bool {
        self matches CoordinationError::StaleOwner { operation: o } && o@ == operation
    }

    /// The invalid state of an operation, with a message.
    pub fn invalid_state(operation: &'static str, message: &str) -> (e: Self)
        ensures
            e.is_invalid_state(operation@, message@),
    {
        CoordinationError::InvalidState { operation, message: copy_str(message) }
    }

    /// Another owner took over.
    pub fn stale_owner(operation: &'static str) -> (e: Self)
        ensures
            e.is_stale_owner(operation@),
    {
        CoordinationError::StaleOwner { operation }
    }
}

/// How an exchange with Redis ended.
pub enum Exchange<T> {
    Done(T),
    Failed(String),
    TimedOut,
}

/// What the end of an exchange means for the operation that made it.
pub fn redis_operation<T>(operation: &'static str, exchange: Exchange<T>) -> (r: Result<
    T,
    CoordinationError,
>)
    ensures
        match exchange {
            Exchange::Done(value) => r == Ok::<T, CoordinationError>(value),
            Exchange::Failed(text) => r matches Err(
                CoordinationError::Unavailable { operation: o, message: m },
            ) && o@ == operation@ && m@ == text@,
            Exchange::TimedOut => r matches Err(CoordinationError::Timeout { operation: o }) && o@
                == operation@,
        },
{
    match exchange {
        Exchange::Done(value) => Ok(value),
        Exchange::Failed(message) => Err(CoordinationError::Unavailable { operation, message }),
        Exchange::TimedOut => Err(CoordinationError::Timeout { operation }),
    }
}

/// The error of the aggregation store that a coordination error stands for.
pub fn map_coordination_error(error: CoordinationError) -> (e: RunAggregationStoreError)
    ensures
        match error {
            CoordinationError::Unavailable { operation, message } => e
                == (RunAggregationStoreError::Unavailable { operation, message }),
            CoordinationError::Timeout { operation } => e == (RunAggregationStoreError::Timeout {
                operation,
            }),
            CoordinationError::InvalidState { operation, message } => e
                == (RunAggregationStoreError::InvalidState { operation, message }),
            CoordinationError::StaleOwner { operation } => e.is_invalid_state(
                operation@,
                "unexpected stale-owner response"@,
            ),
        },
{
    match error {
        CoordinationError::Unavailable { operation, message } => {
            RunAggregationStoreError::Unavailable { operation, message }
        },
        CoordinationError::Timeout { operation } => RunAggregationStoreError::Timeout { operation },
        CoordinationError::InvalidState { operation, message } => {
            RunAggregationStoreError::InvalidState { operation, message }
        },
        CoordinationError::StaleOwner { operation } => RunAggregationStoreError::InvalidState {
            operation,
            message: copy_str("unexpected stale-owner response"),
        },
    }
}

/// Why a span cannot be handed to Redis in milliseconds.
pub open spec fn duration_error(d: Duration) -> Option<Seq<char>> {
    if millis(d) == 0 {
        Some("duration must be at least one millisecond"@)
    } else if millis(d) > i64::MAX {
        Some("duration exceeds Redis integer range"@)
    } else {
        None
    }
}

/// The milliseconds of a span of at least one millisecond.
pub fn duration_ms(operation: &'static str, duration: Duration) -> (r: Result<
    i64,
    CoordinationError,
>)
    ensures
        match r {
            Ok(ms) => duration_error(duration) is None && ms == millis(duration),
            Err(e) => duration_error(duration) matches Some(m) && e.is_invalid_state(operation@, m),
        },
{
    let ms: u128 = duration.as_millis();
    if ms == 0 {
        return Err(
            CoordinationError::invalid_state(operation, "duration must be at least one millisecond"),
        );
    }
    if ms > i64::MAX as u128 {
        return Err(
            CoordinationError::invalid_state(operation, "duration exceeds Redis integer range"),
        );
    }
    Ok(ms as i64)
}

/// The span of so many milliseconds; an empty one where the number is negative.
pub fn duration_from_nonnegative_ms(value: i64) -> (d: Duration)
    ensures
        nanos(d) == (if value < 0 {
            0
        } else {
            value * 1_000_000
        }),
{
    if value < 0 {
        Duration::from_millis(0)
    } else {
        Duration::from_millis(value as u64)
    }
}

/// The message of a number that must not be negative.
pub open spec fn negative_message(field: Seq<char>) -> Seq<char> {
    field + " must not be negative"@
}

/// A number that must not be negative.
pub fn as_u64(operation: &'static str, field: &'static str, value: i64) -> (r: Result<
    u64,
    CoordinationError,
>)
    ensures
        match r {
            Ok(n) => value >= 0 && n == value,
            Err(e) => value < 0 && e.is_invalid_state(operation@, negative_message(field@)),
        },
{
    if value < 0 {
        return Err(
            CoordinationError::invalid_state(operation, &concat2(field, " must not be negative")),
        );
    }
    Ok(value as u64)
}

/// A fencing token as Redis counts it.
pub fn fence_as_i64(operation: &'static str, fencing_token: u64) -> (r: Result<
    i64,
    CoordinationError,
>)
    ensures
        match r {
            Ok(n) => fencing_token <= i64::MAX && n == fencing_token,
            Err(e) => fencing_token > i64::MAX && e.is_invalid_state(
                operation@,
                "fencing token exceeds Redis integer range"@,
            ),
        },
{
    if fencing_token > i64::MAX as u64 {
        return Err(
            CoordinationError::invalid_state(
                operation,
                "fencing token exceeds Redis integer range",
            ),
        );
    }
    Ok(fencing_token as i64)
}

/// The leadership that a node holds for a while. The fencing token grows with
/// every change of the holder.
#[derive(Debug)]
pub struct LeaderLease {
    pub lock_key: String,
    pub node_id: String,
    pub owner_token: String,
    pub fencing_token: u64,
    pub expires_at_unix_ms: u64,
    pub ttl: Duration,
}

/// What came of asking for the leadership.
#[derive(Debug)]
pub enum LeadershipOutcome {
    Acquired(LeaderLease),
    Renewed(LeaderLease),
    Follower { retry_after: Duration },
}

/// How often a scenario is dispatched.
#[derive(Debug, Clone, Copy)]
pub enum RepeatPolicy {
    Once,
    Every(Duration),
}

/// What is to be dispatched.
#[derive(Debug)]
pub struct DispatchSpec {
    pub scenario_id: String,
    pub contract_version: u16,
    pub total_slices: u32,
    pub repeat: RepeatPolicy,
    pub plan_fingerprint: String,
}

/// One dispatch of a scenario, with the slices that are not yet published.
#[derive(Debug)]
pub struct DispatchWindow {
    pub scenario_id: String,
    pub run_id: String,
    pub window_id: String,
    pub scheduled_at_unix_ms: u128,
    pub contract_version: u16,
    pub total_slices: u32,
    pub plan_fingerprint: String,
    pub missing_slices: Vec<u32>,
}

/// Whether a scenario can be dispatched.
#[derive(Debug)]
pub enum DispatchOutcome {
    Ready(DispatchWindow),
    NotDue { retry_after: Duration },
    Finished,
}

/// How far the dispatch of a window has come.
#[derive(Debug, PartialEq, Eq)]
pub enum DispatchProgress {
    Pending { remaining_slices: u32 },
    Complete,
}

/// One attempt at an execution.
#[derive(Debug)]
pub struct ExecutionClaim {
    pub execution_key: String,
    pub attempt: u32,
}

/// The right to run an attempt, held for a while.
#[derive(Debug)]
pub struct ExecutionLease {
    pub execution_key: String,
    pub attempt: u32,
    pub owner_token: String,
    pub expires_at_unix_ms: u128,
    pub ttl: Duration,
    pub recovered: bool,
}

/// How an attempt ended.
#[derive(Debug, Clone, Copy, PartialEq, Eq, Structural)]
pub enum TerminalOutcome {
    ResultPublished,
    RetryPublished,
    DeadLetterPublished,
}

/// An outcome with the time at which it was recorded.
#[derive(Debug, PartialEq, Eq)]
pub struct CompletedOutcome {
    pub outcome: TerminalOutcome,
    pub completed_at_unix_ms: u128,
}

/// What came of claiming an attempt.
#[derive(Debug)]
pub enum ClaimOutcome {
    Acquired(ExecutionLease),
    AlreadyCompleted(CompletedOutcome),
    Busy { retry_after: Duration },
}

/// What came of giving a lease up.
#[derive(Debug, PartialEq, Eq)]
pub enum ReleaseOutcome {
    AlreadyAbsent,
    Released,
}

/// The message of a reply code that no program gives.
pub open spec fn unknown_code(code: i64) -> Seq<char> {
    "unknown Redis response code "@ + crate::text::decimal_int(code as int)
}

/// The error of a reply code that no program gives.
pub fn unknown_reply(operation: &'static str, code: i64) -> (e: CoordinationError)
    ensures
        e.is_invalid_state(operation@, unknown_code(code)),
{
    CoordinationError::invalid_state(
        operation,
        &concat2("unknown Redis response code ", &crate::text::decimal_i64(code)),
    )
}

/// Whether a character is a small hexadecimal digit.
pub open spec fn is_hex(c: char) -> bool {
    ('0' <= c && c <= '9') || ('a' <= c && c <= 'f')
}

/// Whether a text has the form of a random UUID: groups of 8, 4, 4, 4 and 12 small
/// hexadecimal digits with hyphens between, the third group beginning with 4.
pub open spec fn is_uuid(s: Seq<char>) -> bool {
    &&& s.len() == 36
    &&& s[8] == '-' && s[13] == '-' && s[18] == '-' && s[23] == '-'
    &&& s[14] == '4'
    &&& forall|i: int|
        0 <= i < 36 && i != 8 && i != 13 && i != 18 && i != 23 ==> is_hex(#[trigger] s[i])
}

/// `uuid::Uuid::new_v4`, written out by its `to_string`: a fresh random UUID of
/// version 4 in its hyphenated form with small letters.
#[verifier::external_body]
pub(crate) fn random_uuid() -> (s: String)
    ensures
        is_uuid(s@),
{
    uuid::Uuid::new_v4().to_string()
}

} // verus!
