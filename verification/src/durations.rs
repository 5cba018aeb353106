//! Spans of time, measured in nanoseconds.
use std::time::Duration;
use vstd::prelude::*;

verus! {

/// The whole number of nanoseconds of a span, as `Duration::as_nanos` returns it.
pub uninterp spec fn nanos(d: Duration) -> nat;

/// The nanoseconds of the longest span, `Duration::MAX`: `u64::MAX` seconds and
/// one nanosecond less than a second.
pub open spec fn max_nanos() -> nat {
    (u64::MAX as nat) * 1_000_000_000 + 999_999_999
}

/// The whole milliseconds of a span.
pub open spec fn millis(d: Duration) -> nat {
    nanos(d) / 1_000_000
}

/// `Duration::as_nanos`: the total number of nanoseconds, which is at most that
/// of `Duration::MAX`.
pub assume_specification[ Duration::as_nanos ](d: &Duration) -> (n: u128)
    ensures
        n == nanos(*d),
        n <= max_nanos(),
;

/// `Duration::as_millis`: the total number of whole milliseconds.
pub assume_specification[ Duration::as_millis ](d: &Duration) -> (n: u128)
    ensures
        n == millis(*d),
;

/// `Duration::from_millis`: the span of that many milliseconds.
pub assume_specification[ Duration::from_millis ](ms: u64) -> (d: Duration)
    ensures
        nanos(d) == ms * 1_000_000,
;

/// `Duration::from_secs`: the span of that many seconds.
pub assume_specification[ Duration::from_secs ](secs: u64) -> (d: Duration)
    ensures
        nanos(d) == secs * 1_000_000_000,
;

/// `Duration::checked_add`: the sum, or `None` where it is longer than
/// `Duration::MAX`.
pub assume_specification[ Duration::checked_add ](a: Duration, b: Duration) -> (r: Option<Duration>)
    ensures
        match r {
            Some(d) => nanos(d) == nanos(a) + nanos(b) && nanos(d) <= max_nanos(),
            None => nanos(a) + nanos(b) > max_nanos(),
        },
;

/// `Duration::checked_mul`: the product, or `None` where it is longer than
/// `Duration::MAX`.
pub assume_specification[ Duration::checked_mul ](a: Duration, k: u32) -> (r: Option<Duration>)
    ensures
        match r {
            Some(d) => nanos(d) == nanos(a) * (k as nat) && nanos(d) <= max_nanos(),
            None => nanos(a) * (k as nat) > max_nanos(),
        },
;

/// `Duration::saturating_add`: the sum, or `Duration::MAX` where it is longer.
pub assume_specification[ Duration::saturating_add ](a: Duration, b: Duration) -> (d: Duration)
    ensures
        nanos(d) == (if nanos(a) + nanos(b) > max_nanos() {
            max_nanos()
        } else {
            nanos(a) + nanos(b)
        }),
;

/// `Duration::saturating_sub`: the difference, or the empty span where it is
/// negative.
pub assume_specification[ Duration::saturating_sub ](a: Duration, b: Duration) -> (d: Duration)
    ensures
        nanos(d) == (if nanos(a) < nanos(b) {
            0
        } else {
            (nanos(a) - nanos(b)) as nat
        }),
;

/// `Duration::saturating_mul`: the product, or `Duration::MAX` where it is longer.
pub assume_specification[ Duration::saturating_mul ](a: Duration, k: u32) -> (d: Duration)
    ensures
        nanos(d) == (if nanos(a) * (k as nat) > max_nanos() {
            max_nanos()
        } else {
            nanos(a) * (k as nat)
        }),
;

/// Whether a span is empty.
pub fn is_zero(d: Duration) -> (r: bool)
    ensures
        r == (nanos(d) == 0),
{
    d.as_nanos() == 0
}

/// Whether `a` is shorter than `b`.
pub fn shorter(a: Duration, b: Duration) -> (r: bool)
    ensures
        r == (nanos(a) < nanos(b)),
{
    a.as_nanos() < b.as_nanos()
}

/// The shorter of two spans.
pub fn shortest(a: Duration, b: Duration) -> (d: Duration)
    ensures
        nanos(d) == (if nanos(a) <= nanos(b) {
            nanos(a)
        } else {
            nanos(b)
        }),
{
    if shorter(b, a) {
        b
    } else {
        a
    }
}

/// The longer of two spans.
pub fn longest(a: Duration, b: Duration) -> (d: Duration)
    ensures
        nanos(d) == (if nanos(a) <= nanos(b) {
            nanos(b)
        } else {
            nanos(a)
        }),
{
    if shorter(a, b) {
        b
    } else {
        a
    }
}

} // verus!
