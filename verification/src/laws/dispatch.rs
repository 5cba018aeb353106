//! Opening dispatch windows, acknowledging their slices and making runs known.
use std::time::Duration;
use vstd::prelude::*;
use super::execution::{ms_fit, whole_ms};
use super::script::{arg, hands_over, key, lemma_texts};
use crate::calls::ScriptCall;
use crate::coordination::{
    CoordinationError, DispatchOutcome, DispatchProgress, DispatchSpec, DispatchWindow, Exchange,
    LeaderLease, RepeatPolicy,
};
use crate::coordination_scripts::{ACK_SLICE_SCRIPT, PREPARE_WINDOW_SCRIPT, REGISTER_RUN_SCRIPT};
use super::snapshot::{lemma_parsed, reads};
use super::text::{
    apart, glued, in_digits, lemma_decimal_form, lemma_glued_split, lemma_split_glued,
    lemma_split_some,
};
use crate::dispatch::{
    lemma_missing_slices_in_window, missing_of, parse_missing_slices, slices_of, RedisDueStateStore,
};
use crate::durations::nanos;
use crate::text::{decimal, is_blank, lemma_decimal_parses_back, split_on};

verus! {

/// Whether a policy can be handed to Redis.
pub open spec fn repeats(policy: RepeatPolicy) -> bool {
    policy matches RepeatPolicy::Every(interval) ==> ms_fit(whole_ms(interval))
}

/// Opening a window sends the lock of the leader and the state of the scenario as keys,
/// and as arguments the owner and the fence of the leader, the scenario, its version, its
/// slices, `every` with the milliseconds of the interval or `once` with 0, and the plan.
/// It is refused where the scenario or the plan is blank, the version is 0, the slices
/// are none or more than 4096, or a number cannot be handed to Redis.
pub proof fn law_prepare_window_call(
    prefix: String,
    store: RedisDueStateStore,
    spec: DispatchSpec,
    leader: LeaderLease,
    r: Result<ScriptCall, CoordinationError>,
)
    requires
        call_ensures(RedisDueStateStore::new, (prefix,), store),
        call_ensures(RedisDueStateStore::prepare_window_call, (&store, &spec, &leader), r),
    ensures
        r is Ok <==> {
            &&& !is_blank(spec.scenario_id@)
            &&& spec.contract_version >= 1
            &&& 1 <= spec.total_slices <= 4096
            &&& !is_blank(spec.plan_fingerprint@)
            &&& repeats(spec.repeat)
            &&& leader.fencing_token <= 9_223_372_036_854_775_807
        },
        r matches Err(e) ==> (e matches CoordinationError::InvalidState { operation, message }
            && operation@ == "dispatch_prepare_window"@),
        r matches Ok(call) ==> {
            &&& call.script@ == PREPARE_WINDOW_SCRIPT@
            &&& hands_over(call, 2, 8)
            &&& key(call, 1) == leader.lock_key@
            &&& key(call, 2) == prefix@ + ":"@ + spec.scenario_id@
            &&& arg(call, 1) == leader.owner_token@
            &&& arg(call, 2) == decimal(leader.fencing_token as nat)
            &&& arg(call, 3) == spec.scenario_id@
            &&& arg(call, 4) == decimal(spec.contract_version as nat)
            &&& arg(call, 5) == decimal(spec.total_slices as nat)
            &&& spec.repeat is Once ==> arg(call, 6) == "once"@ && arg(call, 7) == decimal(0)
            &&& spec.repeat matches RepeatPolicy::Every(interval) ==> arg(call, 6) == "every"@
                && arg(call, 7) == decimal(whole_ms(interval)) && whole_ms(interval) >= 1
            &&& arg(call, 8) == spec.plan_fingerprint@
        },
{
    if r is Ok {
        lemma_texts(r->Ok_0);
    }
}

/// A scenario that comes round again is never sent under the label on which the program
/// records that it is done: the two policies have different labels.
pub proof fn law_policies_are_told_apart(
    store: RedisDueStateStore,
    spec: DispatchSpec,
    other: DispatchSpec,
    leader: LeaderLease,
    r: Result<ScriptCall, CoordinationError>,
    s: Result<ScriptCall, CoordinationError>,
)
    requires
        call_ensures(RedisDueStateStore::prepare_window_call, (&store, &spec, &leader), r),
        call_ensures(RedisDueStateStore::prepare_window_call, (&store, &other, &leader), s),
        r is Ok,
        s is Ok,
    ensures
        (arg(r->Ok_0, 6) == "once"@) <==> spec.repeat is Once,
        (arg(r->Ok_0, 6) == "every"@) <==> spec.repeat is Every,
        (arg(r->Ok_0, 6) == arg(s->Ok_0, 6)) <==> (spec.repeat is Once <==> other.repeat is Once),
{
    lemma_texts(r->Ok_0);
    lemma_texts(s->Ok_0);
    reveal_strlit("once");
    reveal_strlit("every");
    assert("once"@.len() == 4 && "every"@.len() == 5);
}

/// Acknowledging a slice sends the lock of the leader and the state of the scenario as
/// keys, and as arguments the owner and the fence of the leader, the window, the slice,
/// the number of slices and the plan. A slice outside the window is refused.
pub proof fn law_ack_slice_call(
    prefix: String,
    store: RedisDueStateStore,
    window: DispatchWindow,
    slice: u32,
    leader: LeaderLease,
    r: Result<ScriptCall, CoordinationError>,
)
    requires
        call_ensures(RedisDueStateStore::new, (prefix,), store),
        call_ensures(RedisDueStateStore::ack_slice_call, (&store, &window, slice, &leader), r),
    ensures
        r is Ok <==> slice < window.total_slices <= 4096 && leader.fencing_token
            <= 9_223_372_036_854_775_807,
        r matches Err(e) ==> (e matches CoordinationError::InvalidState { operation, message }
            && operation@ == "dispatch_ack_slice"@),
        r matches Ok(call) ==> {
            &&& call.script@ == ACK_SLICE_SCRIPT@
            &&& hands_over(call, 2, 6)
            &&& key(call, 1) == leader.lock_key@
            &&& key(call, 2) == prefix@ + ":"@ + window.scenario_id@
            &&& arg(call, 1) == leader.owner_token@
            &&& arg(call, 2) == decimal(leader.fencing_token as nat)
            &&& arg(call, 3) == window.window_id@
            &&& arg(call, 4) == decimal(slice as nat)
            &&& arg(call, 5) == decimal(window.total_slices as nat)
            &&& arg(call, 6) == window.plan_fingerprint@
        },
{
    if r is Ok {
        lemma_texts(r->Ok_0);
    }
}

/// A slice is acknowledged under the key, owner and fence under which its window was
/// opened, for the window, the slices and the plan that were told.
pub proof fn law_slices_are_acknowledged_where_windows_are_opened(
    store: RedisDueStateStore,
    spec: DispatchSpec,
    window: DispatchWindow,
    slice: u32,
    leader: LeaderLease,
    opened: Result<ScriptCall, CoordinationError>,
    acked: Result<ScriptCall, CoordinationError>,
)
    requires
        call_ensures(RedisDueStateStore::prepare_window_call, (&store, &spec, &leader), opened),
        call_ensures(RedisDueStateStore::ack_slice_call, (&store, &window, slice, &leader), acked),
        window.scenario_id@ == spec.scenario_id@,
        window.plan_fingerprint@ == spec.plan_fingerprint@,
        window.total_slices == spec.total_slices,
        opened is Ok,
        acked is Ok,
    ensures
        key(acked->Ok_0, 1) == key(opened->Ok_0, 1),
        key(acked->Ok_0, 2) == key(opened->Ok_0, 2),
        arg(acked->Ok_0, 1) == arg(opened->Ok_0, 1),
        arg(acked->Ok_0, 2) == arg(opened->Ok_0, 2),
        arg(acked->Ok_0, 5) == arg(opened->Ok_0, 5),
        arg(acked->Ok_0, 6) == arg(opened->Ok_0, 8),
{
    lemma_texts(opened->Ok_0);
    lemma_texts(acked->Ok_0);
}

/// Making a run known sends the fields of the run, the deadlines and the known runs as
/// keys, and as arguments the run, the scenario, the version, the slices, the deadline
/// (when the load has been offered and the timeout has passed), the retention and the
/// bound on the known runs. Without a registration nothing is sent.
pub proof fn law_register_run_call(
    schedule: String,
    prefix: String,
    partial: Duration,
    retention: Duration,
    max_active: usize,
    bare: RedisDueStateStore,
    store: RedisDueStateStore,
    window: DispatchWindow,
    load: Duration,
    none: Result<Option<ScriptCall>, CoordinationError>,
    r: Result<Option<ScriptCall>, CoordinationError>,
)
    requires
        call_ensures(RedisDueStateStore::new, (schedule,), bare),
        call_ensures(
            RedisDueStateStore::with_aggregation_registration,
            (bare, prefix, partial, retention, max_active),
            store,
        ),
        call_ensures(RedisDueStateStore::register_run_call, (&bare, &window, load), none),
        call_ensures(RedisDueStateStore::register_run_call, (&store, &window, load), r),
    ensures
        none == Ok::<Option<ScriptCall>, CoordinationError>(None),
        r is Ok <==> {
            &&& whole_ms(load) <= 18_446_744_073_709_551_615
            &&& whole_ms(partial) <= 18_446_744_073_709_551_615
            &&& window.scheduled_at_unix_ms + whole_ms(load) + whole_ms(partial)
                <= 9_007_199_254_740_991
            &&& ms_fit(whole_ms(retention))
            &&& 1 <= max_active <= 9_223_372_036_854_775_807
        },
        r matches Err(e) ==> (e matches CoordinationError::InvalidState { operation, message }
            && operation@ == "aggregation_register_run"@),
        r matches Ok(sent) ==> (sent matches Some(call) && {
            &&& call.script@ == REGISTER_RUN_SCRIPT@
            &&& hands_over(call, 3, 7)
            &&& key(call, 1) == prefix@ + ":{runs}:run:"@ + window.run_id@
            &&& key(call, 2) == prefix@ + ":{runs}:deadlines"@
            &&& key(call, 3) == prefix@ + ":{runs}:active"@
            &&& arg(call, 1) == window.run_id@
            &&& arg(call, 2) == window.scenario_id@
            &&& arg(call, 3) == decimal(window.contract_version as nat)
            &&& arg(call, 4) == decimal(window.total_slices as nat)
            &&& arg(call, 5) == decimal(
                (window.scheduled_at_unix_ms + whole_ms(load) + whole_ms(partial)) as nat,
            )
            &&& arg(call, 6) == decimal(whole_ms(retention))
            &&& arg(call, 7) == decimal(max_active as nat)
        }),
{
    if r is Ok && r->Ok_0 is Some {
        lemma_texts(r->Ok_0->0);
    }
}

/// A registration and another bound on one exchange leave the rest as it is.
pub proof fn law_due_state_settings(
    prefix: String,
    store: RedisDueStateStore,
    timeout: Duration,
    other: RedisDueStateStore,
    default: Duration,
    bound: Duration,
    scenario: &str,
    state: String,
)
    requires
        call_ensures(RedisDueStateStore::new, (prefix,), store),
        call_ensures(RedisDueStateStore::operation_timeout, (&store,), default),
        call_ensures(RedisDueStateStore::with_operation_timeout, (store, timeout), other),
        call_ensures(RedisDueStateStore::operation_timeout, (&other,), bound),
        call_ensures(RedisDueStateStore::key_for, (&other, scenario), state),
    ensures
        nanos(default) == 2_000_000_000,
        bound == timeout,
        state@ == prefix@ + ":"@ + scenario@,
        other.registration() == store.registration(),
{
}

/// Whether a text is the list of some slices of a window: the numbers in digits,
/// ascending, with commas between them.
pub open spec fn lists(raw: Seq<char>, listed: Seq<u32>, total: u32) -> bool {
    &&& raw.len() >= 1
    &&& listed.len() >= 1
    &&& forall|i: int| 0 <= i < listed.len() ==> #[trigger] listed[i] < total
    &&& forall|i: int, j: int|
        0 <= i < j < listed.len() ==> #[trigger] listed[i] < #[trigger] listed[j]
    &&& exists|parts: Seq<Seq<char>>| #[trigger]
        glued(parts, ',') == raw && apart(parts, ',') && denote(parts, listed)
}

/// Whether texts denote numbers, each the one at its place.
pub open spec fn denote(parts: Seq<Seq<char>>, listed: Seq<u32>) -> bool {
    &&& parts.len() == listed.len()
    &&& forall|i: int| 0 <= i < parts.len() ==> reads(#[trigger] parts[i], listed[i] as int)
}

proof fn lemma_slices_listed(parts: Seq<Seq<char>>, listed: Seq<u32>, total: u32)
    requires
        denote(parts, listed),
        forall|i: int| 0 <= i < listed.len() ==> #[trigger] listed[i] < total,
        forall|i: int, j: int|
            0 <= i < j < listed.len() ==> #[trigger] listed[i] < #[trigger] listed[j],
    ensures
        slices_of(parts, total) == Ok::<_, Seq<char>>(listed),
    decreases listed.len(),
{
    if listed.len() > 0 {
        let front = listed.drop_last();
        let last = parts.len() - 1;
        lemma_slices_listed(parts.drop_last(), front, total);
        lemma_parsed(parts[last], u32::MAX as nat);
        assert(reads(parts[last], listed[last] as int));
        assert(front.push(listed.last()) =~= listed);
        if front.len() > 0 {
            assert(listed[front.len() - 1] < listed[listed.len() - 1]);
        }
    } else {
        assert(listed =~= Seq::<u32>::empty());
    }
}

proof fn lemma_listed(raw: Seq<char>, listed: Seq<u32>, total: u32)
    requires
        lists(raw, listed, total),
    ensures
        missing_of(raw, total) == Ok::<_, Seq<char>>(listed),
{
    let parts = choose|parts: Seq<Seq<char>>| #[trigger]
        glued(parts, ',') == raw && apart(parts, ',') && denote(parts, listed);
    lemma_split_glued(parts, ',');
    lemma_slices_listed(parts, listed, total);
}

proof fn lemma_some_slices(parts: Seq<Seq<char>>, total: u32)
    ensures
        slices_of(parts, total) matches Ok(slices) ==> denote(parts, slices),
    decreases parts.len(),
{
    if parts.len() > 0 {
        lemma_some_slices(parts.drop_last(), total);
        lemma_parsed(parts.last(), u32::MAX as nat);
        if let Ok(slices) = slices_of(parts, total) {
            let front = slices_of(parts.drop_last(), total)->Ok_0;
            assert forall|i: int| 0 <= i < parts.len() implies reads(
                #[trigger] parts[i],
                slices[i] as int,
            ) by {
                if i < parts.len() - 1 {
                    assert(parts.drop_last()[i] == parts[i]);
                    assert(front[i] == slices[i]);
                }
            }
        }
    }
}

/// The list of a program in decimal form names the slices that it was written of.
pub proof fn law_written_lists(raw: Seq<char>, listed: Seq<u32>, total: u32)
    requires
        listed.len() >= 1,
        forall|i: int| 0 <= i < listed.len() ==> #[trigger] listed[i] < total,
        forall|i: int, j: int|
            0 <= i < j < listed.len() ==> #[trigger] listed[i] < #[trigger] listed[j],
        raw == glued(listed.map_values(|n: u32| decimal(n as nat)), ','),
    ensures
        lists(raw, listed, total),
{
    let texts = listed.map_values(|n: u32| decimal(n as nat));
    assert forall|i: int| 0 <= i < texts.len() implies reads(#[trigger] texts[i], listed[i] as int)
        && !texts[i].contains(',') by {
        lemma_decimal_form(listed[i] as nat);
        lemma_decimal_parses_back(listed[i] as nat, u32::MAX as nat);
        lemma_parsed(texts[i], u32::MAX as nat);
        assert(in_digits(texts[i]));
    }
    assert(denote(texts, listed) && apart(texts, ','));
    lemma_split_glued(texts, ',');
    if raw.len() == 0 {
        assert(split_on(raw, ',') =~= seq![Seq::<char>::empty()]);
        assert(reads(texts[0], listed[0] as int));
        assert(texts[0].len() == 0);
    }
}

proof fn lemma_in_window(raw: Seq<char>, total: u32)
    ensures
        missing_of(raw, total) matches Ok(slices) ==> {
            &&& raw.len() > 0 ==> lists(raw, slices, total)
            &&& raw.len() == 0 ==> slices.len() == 0
        },
{
    if missing_of(raw, total) is Ok {
        let slices = missing_of(raw, total)->Ok_0;
        lemma_some_slices(split_on(raw, ','), total);
        lemma_split_some(raw, ',');
        assert forall|i: int| 0 <= i < slices.len() implies #[trigger] slices[i] < total by {
            lemma_missing_slices_in_window(raw, total, i, i);
        }
        assert forall|i: int, j: int| 0 <= i < j < slices.len() implies #[trigger] slices[i]
            < #[trigger] slices[j] by {
            lemma_missing_slices_in_window(raw, total, i, j);
        }
        lemma_glued_split(raw, ',');
        if raw.len() > 0 {
            let parts = split_on(raw, ',');
            assert(glued(parts, ',') == raw && apart(parts, ',') && denote(parts, slices));
        }
    }
}

/// The slices that a list of the program names: those that were read are below the number
/// of slices, in ascending order and each once, as the list denotes them; an empty list
/// names none; every such list is read.
pub proof fn law_missing_slices(
    operation: &'static str,
    raw: &str,
    total: u32,
    r: Result<Vec<u32>, CoordinationError>,
)
    requires
        call_ensures(parse_missing_slices, (operation, raw, total), r),
    ensures
        raw@.len() == 0 ==> (r matches Ok(slices) && slices@.len() == 0),
        r matches Ok(slices) ==> {
            &&& raw@.len() > 0 ==> lists(raw@, slices@, total)
            &&& forall|i: int| 0 <= i < slices@.len() ==> #[trigger] slices@[i] < total
            &&& forall|i: int, j: int|
                0 <= i < j < slices@.len() ==> #[trigger] slices@[i] < #[trigger] slices@[j]
        },
        forall|listed: Seq<u32>| #[trigger]
            lists(raw@, listed, total) ==> (r matches Ok(slices) && slices@ == listed),
        r matches Err(e) ==> (e matches CoordinationError::InvalidState { operation: o, message }
            && o@ == operation@),
{
    assert forall|listed: Seq<u32>| #[trigger] lists(raw@, listed, total) implies missing_of(
        raw@,
        total,
    ) == Ok::<_, Seq<char>>(listed) by {
        lemma_listed(raw@, listed, total);
    }
    lemma_in_window(raw@, total);
}

/// What the answer to opening a window means. 1 tells the window, its time and the slices
/// that are missing; 2 tells how long the scenario is not due; 3 that it is finished; 4
/// that another node leads; every other answer is an error, with the message of the
/// program where it is 5.
pub open spec fn preparation_answered(
    store: RedisDueStateStore,
    spec: DispatchSpec,
    code: i64,
    window_id: Seq<char>,
    scheduled_at: i64,
    missing: Seq<char>,
    retry_after: i64,
    message: Seq<char>,
    r: Result<DispatchOutcome, CoordinationError>,
) -> bool {
    &&& r matches Ok(DispatchOutcome::Ready(w)) ==> {
        &&& code == 1
        &&& scheduled_at >= 0
        &&& w.scenario_id@ == spec.scenario_id@
        &&& w.run_id@ == window_id
        &&& w.window_id@ == window_id
        &&& w.scheduled_at_unix_ms == scheduled_at
        &&& w.contract_version == spec.contract_version
        &&& w.total_slices == spec.total_slices
        &&& w.plan_fingerprint@ == spec.plan_fingerprint@
        &&& lists(missing, w.missing_slices@, spec.total_slices)
        &&& forall|i: int|
            0 <= i < w.missing_slices@.len() ==> #[trigger] w.missing_slices@[i] < spec.total_slices
        &&& forall|i: int, j: int|
            0 <= i < j < w.missing_slices@.len() ==> #[trigger] w.missing_slices@[i]
                < #[trigger] w.missing_slices@[j]
    }
    &&& code == 1 && scheduled_at >= 0 ==> forall|listed: Seq<u32>| #[trigger]
        lists(missing, listed, spec.total_slices) ==> (r matches Ok(DispatchOutcome::Ready(w))
            && w.missing_slices@ == listed)
    &&& (r matches Ok(DispatchOutcome::NotDue { retry_after: d })) <==> code == 2
    &&& r matches Ok(DispatchOutcome::NotDue { retry_after: d }) ==> nanos(d) == (
    if retry_after < 0 {
        0
    } else {
        retry_after * 1_000_000
    })
    &&& (r matches Ok(DispatchOutcome::Finished)) <==> code == 3
    &&& code == 4 <==> (r matches Err(CoordinationError::StaleOwner { operation }))
    &&& r is Err && code != 4 ==> r->Err_0 is InvalidState
    &&& code == 5 ==> (r matches Err(CoordinationError::InvalidState { operation, message: m })
        && operation@ == "dispatch_prepare_window"@ && m@ == message)
}

/// The answer of the program to `prepare_window` is read so.
pub proof fn law_preparation_reply(
    store: RedisDueStateStore,
    spec: DispatchSpec,
    code: i64,
    window_id: String,
    scheduled_at: i64,
    missing: &str,
    retry_after: i64,
    message: &str,
    r: Result<DispatchOutcome, CoordinationError>,
)
    requires
        call_ensures(
            RedisDueStateStore::prepare_window_reply,
            (&store, &spec, code, window_id, scheduled_at, missing, retry_after, message),
            r,
        ),
    ensures
        preparation_answered(
            store,
            spec,
            code,
            window_id@,
            scheduled_at,
            missing@,
            retry_after,
            message@,
            r,
        ),
{
    assert forall|listed: Seq<u32>| #[trigger]
        lists(missing@, listed, spec.total_slices) implies missing_of(missing@, spec.total_slices) == Ok::<
        _,
        Seq<char>,
    >(listed) by {
        lemma_listed(missing@, listed, spec.total_slices);
    }
    lemma_in_window(missing@, spec.total_slices);
}

/// An exchange that ended well means what was answered; one that failed is an error
/// with its text, and one that took too long another.
pub proof fn law_preparation(
    store: RedisDueStateStore,
    spec: DispatchSpec,
    exchange: Exchange<(i64, String, i64, String, i64, String)>,
    r: Result<DispatchOutcome, CoordinationError>,
)
    requires
        call_ensures(RedisDueStateStore::prepare_window, (&store, &spec, exchange), r),
    ensures
        exchange matches Exchange::Done(reply) ==> preparation_answered(
            store,
            spec,
            reply.0,
            reply.1@,
            reply.2,
            reply.3@,
            reply.4,
            reply.5@,
            r,
        ),
        exchange matches Exchange::Failed(text) ==> (r matches Err(
            CoordinationError::Unavailable { operation, message },
        ) && operation@ == "dispatch_prepare_window"@ && message@ == text@),
        exchange is TimedOut ==> (r matches Err(CoordinationError::Timeout { operation }) && operation@
            == "dispatch_prepare_window"@),
{
    let ghost_missing = exchange->Done_0.3@;
    assert forall|listed: Seq<u32>| #[trigger]
        lists(ghost_missing, listed, spec.total_slices) implies missing_of(ghost_missing, spec.total_slices) == Ok::<
        _,
        Seq<char>,
    >(listed) by {
        lemma_listed(ghost_missing, listed, spec.total_slices);
    }
    lemma_in_window(ghost_missing, spec.total_slices);
}

/// What the answer to acknowledging a slice means. 1 tells how many slices remain; 2 that
/// none does; 4 that another node leads; every other answer is an error, with the
/// message of the program where it is 5.
pub open spec fn acknowledgement_answered(
    store: RedisDueStateStore,
    code: i64,
    remaining: i64,
    message: Seq<char>,
    r: Result<DispatchProgress, CoordinationError>,
) -> bool {
    &&& (r matches Ok(DispatchProgress::Pending { remaining_slices })) <==> code == 1 && 0 <= remaining <= 4_294_967_295
    &&& r matches Ok(DispatchProgress::Pending { remaining_slices }) ==> remaining_slices == remaining
    &&& (r matches Ok(DispatchProgress::Complete)) <==> code == 2
    &&& code == 4 <==> (r matches Err(CoordinationError::StaleOwner { operation }))
    &&& r is Err && code != 4 ==> r->Err_0 is InvalidState
    &&& code == 5 ==> (r matches Err(CoordinationError::InvalidState { operation, message: m })
        && operation@ == "dispatch_ack_slice"@ && m@ == message)
}

/// The answer of the program to `ack_slice` is read so.
pub proof fn law_acknowledgement_reply(
    store: RedisDueStateStore,
    code: i64,
    remaining: i64,
    message: &str,
    r: Result<DispatchProgress, CoordinationError>,
)
    requires
        call_ensures(
            RedisDueStateStore::ack_slice_reply,
            (&store, code, remaining, message),
            r,
        ),
    ensures
        acknowledgement_answered(
            store,
            code,
            remaining,
            message@,
            r,
        ),
{
}

/// An exchange that ended well means what was answered; one that failed is an error
/// with its text, and one that took too long another.
pub proof fn law_acknowledgement(
    store: RedisDueStateStore,
    exchange: Exchange<(i64, i64, String)>,
    r: Result<DispatchProgress, CoordinationError>,
)
    requires
        call_ensures(RedisDueStateStore::ack_slice, (&store, exchange), r),
    ensures
        exchange matches Exchange::Done(reply) ==> acknowledgement_answered(
            store,
            reply.0,
            reply.1,
            reply.2@,
            r,
        ),
        exchange matches Exchange::Failed(text) ==> (r matches Err(
            CoordinationError::Unavailable { operation, message },
        ) && operation@ == "dispatch_ack_slice"@ && message@ == text@),
        exchange is TimedOut ==> (r matches Err(CoordinationError::Timeout { operation }) && operation@
            == "dispatch_ack_slice"@),
{
}

/// What the answer to making a run known means: 1 and 2 that it is known; every other
/// answer is an error, with the message of the program where it is 3 or 4.
pub open spec fn registration_answered(
    store: RedisDueStateStore,
    code: i64,
    message: Seq<char>,
    r: Result<(), CoordinationError>,
) -> bool {
    &&& r is Ok <==> code == 1 || code == 2
    &&& r matches Err(e) ==> e is InvalidState
    &&& code == 3 || code == 4 ==> (r matches Err(
        CoordinationError::InvalidState { operation, message: m },
    ) && operation@ == "aggregation_register_run"@ && m@ == message)
}

/// The answer of the program to `register_run` is read so.
pub proof fn law_registration_reply(
    store: RedisDueStateStore,
    code: i64,
    message: &str,
    r: Result<(), CoordinationError>,
)
    requires
        call_ensures(
            RedisDueStateStore::register_run_reply,
            (&store, code, message),
            r,
        ),
    ensures
        registration_answered(
            store,
            code,
            message@,
            r,
        ),
{
}

/// An exchange that ended well means what was answered; one that failed is an error
/// with its text, and one that took too long another.
pub proof fn law_registration(
    store: RedisDueStateStore,
    exchange: Exchange<(i64, String)>,
    r: Result<(), CoordinationError>,
)
    requires
        call_ensures(RedisDueStateStore::register_run, (&store, exchange), r),
    ensures
        exchange matches Exchange::Done(reply) ==> registration_answered(
            store,
            reply.0,
            reply.1@,
            r,
        ),
        exchange matches Exchange::Failed(text) ==> (r matches Err(
            CoordinationError::Unavailable { operation, message },
        ) && operation@ == "aggregation_register_run"@ && message@ == text@),
        exchange is TimedOut ==> (r matches Err(CoordinationError::Timeout { operation }) && operation@
            == "aggregation_register_run"@),
{
}

} // verus!
