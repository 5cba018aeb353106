//! Watching the parts of the node, and stopping them.
use std::time::Duration;
use vstd::prelude::*;
use crate::config::app::AppConfig;
#[allow(unused_imports)]
use crate::durations::{max_nanos, nanos};
#[allow(unused_imports)]
use crate::kafka::settings::reports;
use crate::text::{concat2, copy_str};
#[allow(unused_imports)]
use crate::text::opt_view;

verus! {

/// How a part of the node ended.
pub enum ComponentEnd {
    /// It came to its end, under its name.
    Finished(String),
    /// It failed.
    Failed(String),
    /// It was lost to a panic or a cancellation.
    Lost(String),
    /// No part was left.
    NoneLeft,
}

/// Why the node ends with an error when a part has ended; nothing where it was told to
/// shut down.
pub open spec fn exit_error(shutdown: bool, end: ComponentEnd) -> Option<Seq<char>> {
    if shutdown {
        None
    } else {
        match end {
            ComponentEnd::Finished(name) => Some(name@ + " exited unexpectedly"@),
            ComponentEnd::Failed(error) => Some(error@),
            ComponentEnd::Lost(error) => Some(
                "runtime component panicked or was cancelled: "@ + error@,
            ),
            ComponentEnd::NoneLeft => Some("all runtime components exited unexpectedly"@),
        }
    }
}

/// Why the node ends with an error when a part has ended.
pub fn component_exit(shutdown: bool, end: ComponentEnd) -> (r: Option<String>)
    ensures
        opt_view(r) == exit_error(shutdown, end),
{
    if shutdown {
        return None;
    }
    match end {
        ComponentEnd::Finished(name) => Some(concat2(&name, " exited unexpectedly")),
        ComponentEnd::Failed(error) => Some(error),
        ComponentEnd::Lost(error) => Some(
            concat2("runtime component panicked or was cancelled: ", &error),
        ),
        ComponentEnd::NoneLeft => Some(copy_str("all runtime components exited unexpectedly")),
    }
}

/// Why the node ends with an error when the server of its metrics has ended.
pub fn metrics_server_exit(result: &str) -> (text: String)
    ensures
        text@ == "metrics/health server exited while the runtime was active: "@ + result@,
{
    concat2("metrics/health server exited while the runtime was active: ", result)
}

/// How the node ends.
pub fn run_outcome(unexpected_exit: Option<String>) -> (r: Result<(), String>)
    ensures
        reports(r, opt_view(unexpected_exit)),
{
    match unexpected_exit {
        Some(error) => Err(error),
        None => Ok(()),
    }
}

/// The lesser of a number of nanoseconds and those of the longest span.
pub open spec fn at_most(n: nat) -> nat {
    if n > max_nanos() {
        max_nanos()
    } else {
        n
    }
}

/// How long the parts of the node may take to end, in nanoseconds: what they are given
/// to settle their work, two renewals of the leadership, one request to a broker and a
/// second.
pub open spec fn join_nanos(c: AppConfig) -> nat {
    at_most(
        nanos(c.shutdown_drain_timeout) + 2 * nanos(c.leader_renew_interval) + nanos(
            c.kafka_request_timeout,
        ) + 1_000_000_000,
    )
}

/// How long the parts of the node may take to end.
pub fn runtime_join_timeout(config: &AppConfig) -> (d: Duration)
    ensures
        nanos(d) == join_nanos(*config),
{
    config.shutdown_drain_timeout.saturating_add(
        config.leader_renew_interval.saturating_mul(2),
    ).saturating_add(config.kafka_request_timeout).saturating_add(Duration::from_secs(1))
}

/// Waiting for the parts of the node lasts longer than they are given to settle their
/// work, unless that is almost the longest span there is.
pub proof fn lemma_join_outlasts_drain(c: AppConfig)
    requires
        nanos(c.shutdown_drain_timeout) < max_nanos(),
    ensures
        join_nanos(c) > nanos(c.shutdown_drain_timeout),
{
}

/// What ended a wait.
pub enum WaitEvent {
    Elapsed,
    /// The request to shut down changed.
    Changed,
    /// Nobody can request a shutdown any more.
    Closed,
}

/// Whether a wait may begin.
pub fn wait_allowed(shutdown: bool) -> (r: Result<(), String>)
    ensures
        reports(
            r,
            if shutdown {
                Some("shutdown requested"@)
            } else {
                None
            },
        ),
{
    if shutdown {
        Err(copy_str("shutdown requested"))
    } else {
        Ok(())
    }
}

/// Why waiting ends everything.
pub open spec fn wait_error(event: WaitEvent, shutdown: bool) -> Option<Seq<char>> {
    match event {
        WaitEvent::Elapsed => None,
        WaitEvent::Changed => if shutdown {
            Some("shutdown requested"@)
        } else {
            None
        },
        WaitEvent::Closed => Some("shutdown signal channel closed"@),
    }
}

/// Whether to go on after a wait, given whether a shutdown is requested now.
pub fn wait_ended(event: WaitEvent, shutdown: bool) -> (r: Result<(), String>)
    ensures
        reports(r, wait_error(event, shutdown)),
{
    match event {
        WaitEvent::Elapsed => Ok(()),
        WaitEvent::Changed => wait_allowed(shutdown),
        WaitEvent::Closed => Err(copy_str("shutdown signal channel closed")),
    }
}

/// The number of the next attempt.
pub fn next_attempt(attempt: u32) -> (n: u32)
    ensures
        n == (if attempt == u32::MAX {
            u32::MAX
        } else {
            (attempt + 1) as u32
        }),
{
    attempt.saturating_add(1)
}

} // verus!
