//! Identities are deterministic, and what differs has different ones: what is published
//! again after a crash can be told from what is new.
use vstd::prelude::*;
#[allow(unused_imports)]
use crate::contracts::ScenarioRunSummaryStatus;
#[allow(unused_imports)]
use crate::execution::attempt_key;
#[allow(unused_imports)]
use crate::kafka::dead_letter::terminal_event_id;
#[allow(unused_imports)]
use crate::kafka::evidence::poison_event_id;
#[allow(unused_imports)]
use crate::snapshot::{status_label, summary_event_id};
#[allow(unused_imports)]
use crate::text::{
    decimal, decimal_int, is_digit, lemma_decimal_digits, lemma_decimal_injective,
};

verus! {

/// Whether a text holds no colon.
pub open spec fn colon_free(s: Seq<char>) -> bool {
    forall|i: int| 0 <= i < s.len() ==> #[trigger] s[i] != ':'
}

/// What follows the last colon of a text, and what leads to it, are determined.
proof fn lemma_split_at_last_colon(a: Seq<char>, x: Seq<char>, b: Seq<char>, y: Seq<char>)
    requires
        a + ":"@ + x == b + ":"@ + y,
        colon_free(x),
        colon_free(y),
    ensures
        a == b,
        x == y,
{
    reveal_strlit(":");
    let whole = a + ":"@ + x;
    assert(whole.len() == a.len() + 1 + x.len());
    assert(whole.len() == b.len() + 1 + y.len());
    assert(whole[a.len() as int] == ':');
    assert(whole[b.len() as int] == ':');
    if a.len() < b.len() {
        assert(whole[b.len() as int] == x[b.len() - a.len() - 1]);
    } else if b.len() < a.len() {
        assert(whole[a.len() as int] == y[a.len() - b.len() - 1]);
    }
    assert(a =~= whole.take(a.len() as int));
    assert(b =~= whole.take(b.len() as int));
    assert(x =~= whole.skip(a.len() as int + 1));
    assert(y =~= whole.skip(b.len() as int + 1));
}

proof fn lemma_decimal_colon_free(n: int)
    ensures
        colon_free(decimal_int(n)),
{
    let s = decimal_int(n);
    if n < 0 {
        lemma_decimal_digits((-n) as nat);
        assert forall|i: int| 0 <= i < s.len() implies #[trigger] s[i] != ':' by {
            if i > 0 {
                assert(is_digit(decimal((-n) as nat)[i - 1]));
            }
        }
    } else {
        lemma_decimal_digits(n as nat);
        assert forall|i: int| 0 <= i < s.len() implies #[trigger] s[i] != ':' by {
            assert(is_digit(decimal(n as nat)[i]));
        }
    }
}

proof fn lemma_signed_injective(a: int, b: int)
    requires
        decimal_int(a) == decimal_int(b),
    ensures
        a == b,
{
    lemma_decimal_digits(if a < 0 {
        (-a) as nat
    } else {
        a as nat
    });
    lemma_decimal_digits(if b < 0 {
        (-b) as nat
    } else {
        b as nat
    });
    if a >= 0 {
        assert(is_digit(decimal(a as nat)[0]));
    }
    if b >= 0 {
        assert(is_digit(decimal(b as nat)[0]));
    }
    if a < 0 && b < 0 {
        assert(decimal_int(a).skip(1) =~= decimal((-a) as nat));
        assert(decimal_int(b).skip(1) =~= decimal((-b) as nat));
        lemma_decimal_injective((-a) as nat, (-b) as nat);
    } else if a >= 0 && b >= 0 {
        lemma_decimal_injective(a as nat, b as nat);
    }
}

/// A prefix before a number, between it and the last colon, does not matter.
proof fn lemma_marked_numbers(mark: Seq<char>, a: nat, b: nat)
    requires
        mark + decimal(a) == mark + decimal(b),
    ensures
        a == b,
{
    assert((mark + decimal(a)).skip(mark.len() as int) =~= decimal(a));
    assert((mark + decimal(b)).skip(mark.len() as int) =~= decimal(b));
    lemma_decimal_injective(a, b);
}

proof fn lemma_marked_colon_free(mark: Seq<char>, n: nat)
    requires
        colon_free(mark),
    ensures
        colon_free(mark + decimal(n)),
{
    lemma_decimal_colon_free(n as int);
}

/// Under one prefix, no two attempts share a key: a lease is never that of another
/// attempt.
pub proof fn lemma_attempts_have_own_keys(
    prefix: Seq<char>,
    key: Seq<char>,
    attempt: u32,
    other_key: Seq<char>,
    other_attempt: u32,
)
    requires
        attempt_key(prefix, key, attempt) == attempt_key(prefix, other_key, other_attempt),
    ensures
        key == other_key,
        attempt == other_attempt,
{
    reveal_strlit(":");
    reveal_strlit(":attempt-");
    reveal_strlit("attempt-");
    assert(":attempt-"@ =~= ":"@ + "attempt-"@);
    let (a, b) = (prefix + ":"@ + key, prefix + ":"@ + other_key);
    let (x, y) = ("attempt-"@ + decimal(attempt as nat), "attempt-"@ + decimal(other_attempt as nat));
    assert(attempt_key(prefix, key, attempt) =~= a + ":"@ + x);
    assert(attempt_key(prefix, other_key, other_attempt) =~= b + ":"@ + y);
    lemma_marked_colon_free("attempt-"@, attempt as nat);
    lemma_marked_colon_free("attempt-"@, other_attempt as nat);
    lemma_split_at_last_colon(a, x, b, y);
    lemma_marked_numbers("attempt-"@, attempt as nat, other_attempt as nat);
    assert(a.skip(prefix.len() as int + 1) =~= key);
    assert(b.skip(prefix.len() as int + 1) =~= other_key);
}

/// The events that end attempts differ where the executions, the attempts or the kinds
/// of the events differ. The name of a kind holds no colon.
pub proof fn lemma_terminal_events_differ(
    key: Seq<char>,
    attempt: u32,
    kind: Seq<char>,
    other_key: Seq<char>,
    other_attempt: u32,
    other_kind: Seq<char>,
)
    requires
        terminal_event_id(key, attempt, kind) == terminal_event_id(
            other_key,
            other_attempt,
            other_kind,
        ),
        colon_free(kind),
        colon_free(other_kind),
    ensures
        key == other_key,
        attempt == other_attempt,
        kind == other_kind,
{
    reveal_strlit(":");
    reveal_strlit(":attempt-");
    reveal_strlit("attempt-");
    assert(":attempt-"@ =~= ":"@ + "attempt-"@);
    let (x, y) = ("attempt-"@ + decimal(attempt as nat), "attempt-"@ + decimal(other_attempt as nat));
    let (a, b) = (key + ":"@ + x, other_key + ":"@ + y);
    assert(terminal_event_id(key, attempt, kind) =~= a + ":"@ + kind);
    assert(terminal_event_id(other_key, other_attempt, other_kind) =~= b + ":"@ + other_kind);
    lemma_split_at_last_colon(a, kind, b, other_kind);
    lemma_marked_colon_free("attempt-"@, attempt as nat);
    lemma_marked_colon_free("attempt-"@, other_attempt as nat);
    lemma_split_at_last_colon(key, x, other_key, y);
    lemma_marked_numbers("attempt-"@, attempt as nat, other_attempt as nat);
}

/// The events that publish summaries differ where the runs, the revisions or the
/// statuses differ.
pub proof fn lemma_summary_events_differ(
    run_id: Seq<char>,
    revision: nat,
    status: ScenarioRunSummaryStatus,
    other_run_id: Seq<char>,
    other_revision: nat,
    other_status: ScenarioRunSummaryStatus,
)
    requires
        summary_event_id(run_id, revision, status) == summary_event_id(
            other_run_id,
            other_revision,
            other_status,
        ),
    ensures
        run_id == other_run_id,
        revision == other_revision,
        status == other_status,
{
    reveal_strlit("partial");
    reveal_strlit("complete");
    reveal_strlit("timed-out");
    reveal_strlit("cancelled");
    reveal_strlit(":");
    reveal_strlit("r");
    reveal_strlit(":summary");
    reveal_strlit(":summary:r");
    assert(":summary:r"@ =~= ":summary"@ + ":"@ + "r"@);
    let (x, y) = ("r"@ + decimal(revision), "r"@ + decimal(other_revision));
    let (a, b) = (run_id + ":summary"@, other_run_id + ":summary"@);
    let (c, d) = (a + ":"@ + x, b + ":"@ + y);
    assert(summary_event_id(run_id, revision, status) =~= c + ":"@ + status_label(status));
    assert(summary_event_id(other_run_id, other_revision, other_status) =~= d + ":"@ + status_label(
        other_status,
    ));
    lemma_split_at_last_colon(c, status_label(status), d, status_label(other_status));
    assert("partial"@[0] == 'p' && "complete"@[1] == 'o' && "timed-out"@[0] == 't'
        && "cancelled"@[1] == 'a');
    lemma_marked_colon_free("r"@, revision);
    lemma_marked_colon_free("r"@, other_revision);
    lemma_split_at_last_colon(a, x, b, y);
    lemma_marked_numbers("r"@, revision, other_revision);
    assert(run_id =~= a.take(a.len() - ":summary"@.len()));
    assert(other_run_id =~= b.take(b.len() - ":summary"@.len()));
}

/// Records from different places have different poison identities.
pub proof fn lemma_poison_events_differ(
    topic: Seq<char>,
    partition: i32,
    offset: i64,
    other_topic: Seq<char>,
    other_partition: i32,
    other_offset: i64,
)
    requires
        poison_event_id(topic, partition, offset) == poison_event_id(
            other_topic,
            other_partition,
            other_offset,
        ),
    ensures
        topic == other_topic,
        partition == other_partition,
        offset == other_offset,
{
    reveal_strlit(":");
    reveal_strlit("poison:");
    let (p, q) = (decimal_int(partition as int), decimal_int(other_partition as int));
    let (x, y) = (decimal_int(offset as int), decimal_int(other_offset as int));
    let (a, b) = ("poison:"@ + topic, "poison:"@ + other_topic);
    let (c, d) = (a + ":"@ + p, b + ":"@ + q);
    assert(poison_event_id(topic, partition, offset) =~= c + ":"@ + x);
    assert(poison_event_id(other_topic, other_partition, other_offset) =~= d + ":"@ + y);
    lemma_decimal_colon_free(partition as int);
    lemma_decimal_colon_free(other_partition as int);
    lemma_decimal_colon_free(offset as int);
    lemma_decimal_colon_free(other_offset as int);
    lemma_split_at_last_colon(c, x, d, y);
    lemma_split_at_last_colon(a, p, b, q);
    lemma_signed_injective(partition as int, other_partition as int);
    lemma_signed_injective(offset as int, other_offset as int);
    assert(a.skip("poison:"@.len() as int) =~= topic);
    assert(b.skip("poison:"@.len() as int) =~= other_topic);
}

} // verus!
