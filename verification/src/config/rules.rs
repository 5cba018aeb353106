//! The rules of single settings.
use std::time::Duration;
use vstd::prelude::*;
use super::error::{reports, ConfigError};
#[allow(unused_imports)]
use super::error::Problem;
use crate::durations::{is_zero, shorter, shortest};
#[allow(unused_imports)]
use crate::durations::{max_nanos, nanos};
use crate::text::{
    blank, byte_len, chars_of, concat2, concat3, concat4, copy_str, decimal_i64, decimal_u64,
    decimal_usize, str_is_empty, trim,
};
#[allow(unused_imports)]
use crate::text::{decimal, decimal_int, is_blank, trimmed, utf8_len};

verus! {

/// The bytes of a poison record besides the evidence that it carries.
pub const POISON_ENVELOPE_OVERHEAD_BYTES: usize = 16_384;

/// `Duration / u32`: the span divided by a number, with the rest of a nanosecond
/// dropped.
#[verifier::external_body]
fn divided(d: Duration, n: u32) -> (r: Duration)
    requires
        n > 0,
    ensures
        nanos(r) == nanos(d) / (n as nat),
{
    d / n
}

/// What is wrong with a text that must hold something.
pub open spec fn blank_problem(name: Seq<char>, value: Seq<char>) -> Option<Problem> {
    if is_blank(value) {
        Some((name, "must not be empty or whitespace-only"@))
    } else {
        None
    }
}

/// A text without the white space at its ends, which must not be empty.
pub fn trimmed_non_empty(name: &str, value: &str) -> (r: Result<String, ConfigError>)
    ensures
        reports(r, blank_problem(name@, value@)),
        r matches Ok(text) ==> text@ == trimmed(value@),
{
    let text = trim(value);
    if str_is_empty(&text) {
        return Err(ConfigError::invalid(name, "must not be empty or whitespace-only"));
    }
    Ok(text)
}

/// Checks that a text holds something.
pub fn validate_non_empty(name: &str, value: &str) -> (r: Result<(), ConfigError>)
    ensures
        reports(r, blank_problem(name@, value@)),
{
    if blank(value) {
        return Err(ConfigError::invalid(name, "must not be empty or whitespace-only"));
    }
    Ok(())
}

/// Whether a character may stand in the name of a topic.
pub open spec fn is_topic_char(c: char) -> bool {
    ('a' <= c && c <= 'z') || ('A' <= c && c <= 'Z') || ('0' <= c && c <= '9') || c == '.' || c
        == '_' || c == '-'
}

/// What is wrong with the name of a topic.
pub open spec fn topic_problem(name: Seq<char>, topic: Seq<char>) -> Option<Problem> {
    if blank_problem(name, topic) is Some {
        blank_problem(name, topic)
    } else if utf8_len(topic) > 249 {
        Some((name, "must be at most 249 bytes"@))
    } else if !(forall|i: int| 0 <= i < topic.len() ==> is_topic_char(#[trigger] topic[i])) {
        Some((name, "may contain only ASCII letters, digits, '.', '_', and '-'"@))
    } else {
        None
    }
}

/// Checks the name of a topic.
pub fn validate_topic(name: &str, topic: &str) -> (r: Result<(), ConfigError>)
    ensures
        reports(r, topic_problem(name@, topic@)),
{
    validate_non_empty(name, topic)?;
    if byte_len(topic) > 249 {
        return Err(ConfigError::invalid(name, "must be at most 249 bytes"));
    }
    let chars = chars_of(topic);
    let mut i: usize = 0;
    while i < chars.len()
        invariant
            i <= chars@.len(),
            chars@ == topic@,
            blank_problem(name@, topic@) is None,
            utf8_len(topic@) <= 249,
            forall|j: int| 0 <= j < i ==> is_topic_char(#[trigger] topic@[j]),
        decreases chars@.len() - i,
    {
        let c: char = chars[i];
        if !((c >= 'a' && c <= 'z') || (c >= 'A' && c <= 'Z') || (c >= '0' && c <= '9') || c == '.'
            || c == '_' || c == '-') {
            assert(!is_topic_char(topic@[i as int]));
            return Err(
                ConfigError::invalid(
                    name,
                    "may contain only ASCII letters, digits, '.', '_', and '-'",
                ),
            );
        }
        i += 1;
    }
    Ok(())
}

/// What is wrong with a number that must lie between 1 and a maximum.
pub open spec fn capacity_problem(name: Seq<char>, value: nat, maximum: nat) -> Option<Problem> {
    if value == 0 || value > maximum {
        Some((name, "must be between 1 and "@ + decimal(maximum)))
    } else {
        None
    }
}

/// Checks a number that must lie between 1 and a maximum.
pub fn validate_capacity(name: &str, value: usize, maximum: usize) -> (r: Result<(), ConfigError>)
    ensures
        reports(r, capacity_problem(name@, value as nat, maximum as nat)),
{
    if value == 0 || value > maximum {
        return Err(
            ConfigError::invalid(
                name,
                &concat2("must be between 1 and ", &decimal_usize(maximum)),
            ),
        );
    }
    Ok(())
}

/// What is wrong with a number that must lie in a range.
pub open spec fn range_problem(name: Seq<char>, value: int, minimum: int, maximum: int) -> Option<
    Problem,
> {
    if minimum <= value <= maximum {
        None
    } else {
        Some(
            (
                name,
                "must be between "@ + decimal_int(minimum) + " and "@ + decimal_int(maximum),
            ),
        )
    }
}

/// Checks a number that must lie in a range.
pub fn validate_inclusive_i32(name: &str, value: i32, minimum: i32, maximum: i32) -> (r: Result<
    (),
    ConfigError,
>)
    ensures
        reports(r, range_problem(name@, value as int, minimum as int, maximum as int)),
{
    if value < minimum || value > maximum {
        return Err(
            ConfigError::invalid(
                name,
                &concat4(
                    "must be between ",
                    &decimal_i64(minimum as i64),
                    " and ",
                    &decimal_i64(maximum as i64),
                ),
            ),
        );
    }
    Ok(())
}

/// What is wrong with a span that must not be empty nor longer than a maximum.
pub open spec fn span_problem(name: Seq<char>, value: Duration, maximum_ms: nat) -> Option<Problem> {
    if nanos(value) == 0 || nanos(value) > maximum_ms * 1_000_000 {
        Some(
            (name, "must be greater than zero and no more than "@ + decimal(maximum_ms) + " ms"@),
        )
    } else {
        None
    }
}

/// Checks a span that must not be empty nor longer than a maximum.
pub fn validate_duration_upper_bound(name: &str, value: Duration, maximum_ms: u64) -> (r: Result<
    (),
    ConfigError,
>)
    ensures
        reports(r, span_problem(name@, value, maximum_ms as nat)),
{
    if is_zero(value) || shorter(Duration::from_millis(maximum_ms), value) {
        return Err(
            ConfigError::invalid(
                name,
                &concat3(
                    "must be greater than zero and no more than ",
                    &decimal_u64(maximum_ms),
                    " ms",
                ),
            ),
        );
    }
    Ok(())
}

/// The bytes of a record that carries so many bytes of evidence: the evidence in
/// base64 as two padded fields, and the envelope.
pub open spec fn poison_bound(evidence: nat) -> nat {
    (evidence + 2) / 3 * 4 + 4 + POISON_ENVELOPE_OVERHEAD_BYTES as nat
}

/// The bytes of a record that carries so many bytes of evidence, where they can be
/// counted.
pub fn poison_record_size_bound(source_message_bytes: usize) -> (r: Option<usize>)
    ensures
        match r {
            Some(n) => n == poison_bound(source_message_bytes as nat),
            None => poison_bound(source_message_bytes as nat) > usize::MAX,
        },
{
    let padded: usize = match source_message_bytes.checked_add(2) {
        Some(n) => n,
        None => {
            return None;
        },
    };
    let quartets: usize = match (padded / 3).checked_mul(4) {
        Some(n) => n,
        None => {
            return None;
        },
    };
    match quartets.checked_add(4) {
        Some(n) => n.checked_add(POISON_ENVELOPE_OVERHEAD_BYTES),
        None => None,
    }
}

/// The nanoseconds of several spans together.
pub open spec fn sum_nanos(spans: Seq<Duration>) -> nat
    decreases spans.len(),
{
    if spans.len() == 0 {
        0
    } else {
        sum_nanos(spans.drop_last()) + nanos(spans.last())
    }
}

proof fn lemma_sum_prefix(spans: Seq<Duration>, k: int)
    requires
        0 <= k <= spans.len(),
    ensures
        sum_nanos(spans.take(k)) <= sum_nanos(spans),
    decreases spans.len(),
{
    if k == spans.len() {
        assert(spans.take(k) == spans);
    } else {
        assert(spans.drop_last().take(k) == spans.take(k));
        lemma_sum_prefix(spans.drop_last(), k);
    }
}

/// What is wrong with spans that must be added up.
pub open spec fn sum_problem(name: Seq<char>, spans: Seq<Duration>) -> Option<Problem> {
    if sum_nanos(spans) > max_nanos() {
        Some((name, "duration budget overflowed"@))
    } else {
        None
    }
}

/// Several spans together.
pub fn checked_duration_sum(name: &str, values: &Vec<Duration>) -> (r: Result<
    Duration,
    ConfigError,
>)
    ensures
        reports(r, sum_problem(name@, values@)),
        r matches Ok(d) ==> nanos(d) == sum_nanos(values@),
{
    let mut sum = Duration::from_millis(0);
    let mut i: usize = 0;
    while i < values.len()
        invariant
            i <= values@.len(),
            nanos(sum) == sum_nanos(values@.take(i as int)),
            i > 0 ==> nanos(sum) <= max_nanos(),
        decreases values@.len() - i,
    {
        proof {
            assert(values@.take(i + 1).drop_last() == values@.take(i as int));
            lemma_sum_prefix(values@, i + 1);
        }
        match sum.checked_add(values[i]) {
            Some(d) => {
                sum = d;
            },
            None => {
                return Err(ConfigError::invalid(name, "duration budget overflowed"));
            },
        }
        i += 1;
    }
    assert(values@.take(i as int) == values@);
    Ok(sum)
}

/// The factor of the delay before a retry: it doubles with each attempt, sixteen
/// times at most.
pub open spec fn backoff_factor(attempt: nat) -> nat
    decreases attempt,
{
    if attempt == 0 {
        1
    } else if attempt <= 16 {
        2 * backoff_factor((attempt - 1) as nat)
    } else {
        backoff_factor((attempt - 1) as nat)
    }
}

proof fn lemma_backoff_factor(attempt: nat)
    ensures
        1 <= backoff_factor(attempt) <= 65_536,
        attempt <= 16 ==> backoff_factor(attempt) == vstd::arithmetic::power2::pow2(attempt),
    decreases attempt,
{
    vstd::arithmetic::power2::lemma2_to64();
    if attempt > 0 {
        lemma_backoff_factor((attempt - 1) as nat);
        vstd::arithmetic::power2::lemma_pow2_unfold(attempt);
        if attempt < 16 {
            vstd::arithmetic::power2::lemma_pow2_strictly_increases(attempt, 16);
        }
    }
}

/// The smaller of two numbers.
pub open spec fn least(a: nat, b: nat) -> nat {
    if a <= b {
        a
    } else {
        b
    }
}

/// The longest delay before a retry, in nanoseconds: the doubled base delay, then a
/// fifth more, each cut at the maximum.
pub open spec fn backoff_bound(base: nat, maximum: nat, attempt: nat) -> nat {
    let exponential = least(least(base * backoff_factor(attempt), max_nanos()), maximum);
    least(least(exponential * 6, max_nanos()) / 5, maximum)
}

/// The longest delays before the first retries together, in nanoseconds.
pub open spec fn backoff_sum(base: nat, maximum: nat, retries: nat) -> nat
    decreases retries,
{
    if retries == 0 {
        0
    } else {
        backoff_sum(base, maximum, (retries - 1) as nat) + backoff_bound(
            base,
            maximum,
            (retries - 1) as nat,
        )
    }
}

proof fn lemma_backoff_sum_grows(base: nat, maximum: nat, a: nat, b: nat)
    requires
        a <= b,
    ensures
        backoff_sum(base, maximum, a) <= backoff_sum(base, maximum, b),
    decreases b,
{
    if a < b {
        lemma_backoff_sum_grows(base, maximum, a, (b - 1) as nat);
    }
}

/// No delay is longer than the maximum, so all of them together are no longer than
/// the maximum times their number.
pub proof fn lemma_backoff_is_bounded(base: nat, maximum: nat, retries: nat)
    ensures
        backoff_sum(base, maximum, retries) <= maximum * retries,
    decreases retries,
{
    if retries > 0 {
        lemma_backoff_is_bounded(base, maximum, (retries - 1) as nat);
        assert(maximum * (retries - 1) + maximum == maximum * retries) by (nonlinear_arith);
    }
}

/// What is wrong with delays that must be added up.
pub open spec fn backoff_problem(base: Duration, maximum: Duration, retries: nat) -> Option<Problem> {
    if backoff_sum(nanos(base), nanos(maximum), retries) > max_nanos() {
        Some(
            (
                "PULSE_KAFKA_MAX_POLL_INTERVAL_MS"@,
                "bounded retry backoff sum overflowed Duration"@,
            ),
        )
    } else {
        None
    }
}

/// The longest delays before all retries together.
pub fn retry_backoff_upper_bound(base: Duration, maximum: Duration, retry_count: u32) -> (r: Result<
    Duration,
    ConfigError,
>)
    ensures
        reports(r, backoff_problem(base, maximum, retry_count as nat)),
        r matches Ok(d) ==> nanos(d) == backoff_sum(
            nanos(base),
            nanos(maximum),
            retry_count as nat,
        ),
{
    let mut total = Duration::from_millis(0);
    let mut factor: u32 = 1;
    let mut attempt: u32 = 0;
    while attempt < retry_count
        invariant
            attempt <= retry_count,
            factor == backoff_factor(attempt as nat),
            nanos(total) == backoff_sum(nanos(base), nanos(maximum), attempt as nat),
            attempt > 0 ==> nanos(total) <= max_nanos(),
        decreases retry_count - attempt,
    {
        let exponential = shortest(base.saturating_mul(factor), maximum);
        let upper = shortest(divided(exponential.saturating_mul(6), 5), maximum);
        proof {
            lemma_backoff_factor((attempt + 1) as nat);
            lemma_backoff_sum_grows(
                nanos(base),
                nanos(maximum),
                (attempt + 1) as nat,
                retry_count as nat,
            );
        }
        match total.checked_add(upper) {
            Some(d) => {
                total = d;
            },
            None => {
                return Err(
                    ConfigError::invalid(
                        "PULSE_KAFKA_MAX_POLL_INTERVAL_MS",
                        "bounded retry backoff sum overflowed Duration",
                    ),
                );
            },
        }
        if attempt < 16 {
            factor = factor * 2;
        }
        attempt += 1;
    }
    Ok(total)
}

} // verus!
