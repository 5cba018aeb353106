//! Dispatch windows: which slices of a scenario are to be published next, and how
//! their publication is recorded.
use std::time::Duration;
use vstd::prelude::*;
use crate::aggregation::MAX_EXACT_LUA_INTEGER;
#[allow(unused_imports)]
use crate::aggregation::{active_key_of, deadline_key_of, run_key};
use crate::calls::{texts2, texts3, ScriptCall};
use crate::coordination::{
    as_u64, duration_from_nonnegative_ms, duration_ms, fence_as_i64, unknown_reply,
    CoordinationError, DispatchOutcome, DispatchProgress, DispatchSpec, DispatchWindow, LeaderLease,
    RepeatPolicy, DEFAULT_OPERATION_TIMEOUT_MS,
};
#[allow(unused_imports)]
use crate::coordination::{duration_error, negative_message, unknown_code};
use crate::coordination_scripts::{ACK_SLICE_SCRIPT, PREPARE_WINDOW_SCRIPT, REGISTER_RUN_SCRIPT};
#[allow(unused_imports)]
use crate::durations::{millis, nanos};
use crate::text::{
    blank, concat2, concat3, copy_str, decimal_i64, decimal_u128, decimal_u64, parse_u32, split,
    str_is_empty,
};
#[allow(unused_imports)]
use crate::text::{decimal, is_blank, parsed_unsigned, split_on, views};

verus! {

/// The most slices of one dispatch window.
pub const MAX_DISPATCH_SLICES: u32 = 4_096;

/// How the aggregation is told of a run before its first result.
#[derive(Debug)]
pub struct AggregationRegistrationConfig {
    pub key_prefix: String,
    pub partial_timeout: Duration,
    pub retention: Duration,
    pub max_active_runs: usize,
}

/// The dispatch state of the scenarios.
#[derive(Debug)]
pub struct RedisDueStateStore {
    schedule_prefix: String,
    operation_timeout: Duration,
    aggregation_registration: Option<AggregationRegistrationConfig>,
}

/// The slices that the texts name, or what is wrong with the first that cannot be
/// taken: they must be below `total` and strictly increasing.
pub open spec fn slices_of(parts: Seq<Seq<char>>, total: u32) -> Result<Seq<u32>, Seq<char>>
    decreases parts.len(),
{
    if parts.len() == 0 {
        Ok(Seq::empty())
    } else {
        match slices_of(parts.drop_last(), total) {
            Err(m) => Err(m),
            Ok(before) => match parsed_unsigned(parts.last(), u32::MAX as nat) {
                None => Err("invalid missing-slice index '"@ + parts.last() + "'"@),
                Some(index) => if index >= total || (before.len() > 0 && before.last() >= index) {
                    Err("missing-slice indexes are out of range or not strictly ordered"@)
                } else {
                    Ok(before.push(index as u32))
                },
            },
        }
    }
}

/// The slices that a text names, separated by commas.
pub open spec fn missing_of(raw: Seq<char>, total: u32) -> Result<Seq<u32>, Seq<char>> {
    if raw.len() == 0 {
        Ok(Seq::empty())
    } else {
        slices_of(split_on(raw, ','), total)
    }
}

proof fn lemma_slices_fail(parts: Seq<Seq<char>>, total: u32, k: int)
    requires
        0 <= k <= parts.len(),
        slices_of(parts.take(k), total) is Err,
    ensures
        slices_of(parts, total) == slices_of(parts.take(k), total),
    decreases parts.len(),
{
    if k == parts.len() {
        assert(parts.take(k) == parts);
    } else {
        assert(parts.drop_last().take(k) == parts.take(k));
        lemma_slices_fail(parts.drop_last(), total, k);
    }
}

proof fn lemma_slices_ordered(parts: Seq<Seq<char>>, total: u32)
    requires
        slices_of(parts, total) is Ok,
    ensures
        forall|i: int, j: int|
            #![auto]
            0 <= i < j < slices_of(parts, total)->Ok_0.len() ==> slices_of(parts, total)->Ok_0[i]
                < slices_of(parts, total)->Ok_0[j],
        forall|i: int|
            #![auto]
            0 <= i < slices_of(parts, total)->Ok_0.len() ==> slices_of(parts, total)->Ok_0[i]
                < total,
    decreases parts.len(),
{
    if parts.len() > 0 {
        lemma_slices_ordered(parts.drop_last(), total);
    }
}

/// The slices that are still to be published lie in the window, each once.
pub proof fn lemma_missing_slices_in_window(raw: Seq<char>, total: u32, i: int, j: int)
    requires
        missing_of(raw, total) is Ok,
        0 <= i <= j < missing_of(raw, total)->Ok_0.len(),
    ensures
        missing_of(raw, total)->Ok_0[j] < total,
        i < j ==> missing_of(raw, total)->Ok_0[i] < missing_of(raw, total)->Ok_0[j],
{
    lemma_slices_ordered(split_on(raw, ','), total);
}

/// Reads the slices that a text names, separated by commas.
pub fn parse_missing_slices(operation: &'static str, raw: &str, total_slices: u32) -> (r: Result<
    Vec<u32>,
    CoordinationError,
>)
    ensures
        match r {
            Ok(slices) => missing_of(raw@, total_slices) == Ok::<_, Seq<char>>(slices@),
            Err(e) => missing_of(raw@, total_slices) matches Err(m) && e.is_invalid_state(
                operation@,
                m,
            ),
        },
{
    let mut slices: Vec<u32> = Vec::new();
    if str_is_empty(raw) {
        return Ok(slices);
    }
    let parts = split(raw, ',');
    let ghost all = views(parts@);
    let mut i: usize = 0;
    assert(all.take(0) == Seq::<Seq<char>>::empty());
    while i < parts.len()
        invariant
            all == views(parts@),
            all == split_on(raw@, ','),
            raw@.len() != 0,
            i <= parts@.len(),
            slices_of(all.take(i as int), total_slices) == Ok::<_, Seq<char>>(slices@),
        decreases parts@.len() - i,
    {
        proof {
            assert(all.take(i + 1).drop_last() == all.take(i as int));
            assert(all.take(i + 1).last() == parts@[i as int]@);
            if slices_of(all.take(i + 1), total_slices) is Err {
                lemma_slices_fail(all, total_slices, i + 1);
            }
        }
        match parse_u32(&parts[i]) {
            None => {
                return Err(
                    CoordinationError::invalid_state(
                        operation,
                        &concat3("invalid missing-slice index '", &parts[i], "'"),
                    ),
                );
            },
            Some(index) => {
                if index >= total_slices || (slices.len() > 0 && slices[slices.len() - 1] >= index) {
                    return Err(
                        CoordinationError::invalid_state(
                            operation,
                            "missing-slice indexes are out of range or not strictly ordered",
                        ),
                    );
                }
                slices.push(index);
            },
        }
        i += 1;
    }
    assert(all.take(i as int) == all);
    Ok(slices)
}

/// The label of a repeat policy.
pub open spec fn repeat_kind(repeat: RepeatPolicy) -> Seq<char> {
    match repeat {
        RepeatPolicy::Once => "once"@,
        RepeatPolicy::Every(_) => "every"@,
    }
}

/// The milliseconds between two windows; 0 where there is one only.
pub open spec fn repeat_ms(repeat: RepeatPolicy) -> nat {
    match repeat {
        RepeatPolicy::Once => 0,
        RepeatPolicy::Every(interval) => millis(interval),
    }
}

/// Why a scenario cannot be dispatched.
pub open spec fn spec_error(spec: DispatchSpec, fencing_token: u64) -> Option<Seq<char>> {
    if is_blank(spec.scenario_id@) {
        Some("scenario id must not be empty"@)
    } else if spec.contract_version == 0 {
        Some("contract version must be positive"@)
    } else if spec.total_slices == 0 || spec.total_slices > MAX_DISPATCH_SLICES {
        Some("total slices must be between 1 and "@ + decimal(MAX_DISPATCH_SLICES as nat))
    } else if is_blank(spec.plan_fingerprint@) {
        Some("plan fingerprint must not be empty"@)
    } else if spec.repeat is Every && duration_error(spec.repeat->0) is Some {
        duration_error(spec.repeat->0)
    } else if fencing_token > i64::MAX {
        Some("fencing token exceeds Redis integer range"@)
    } else {
        None
    }
}

/// Whether `w` is the window of a spec under a name, at a time, with missing slices.
pub open spec fn is_window(
    w: DispatchWindow,
    spec: DispatchSpec,
    window_id: Seq<char>,
    scheduled_at: i64,
    missing: Seq<u32>,
) -> bool {
    &&& w.scenario_id@ == spec.scenario_id@
    &&& w.run_id@ == window_id
    &&& w.window_id@ == window_id
    &&& w.scheduled_at_unix_ms == scheduled_at
    &&& w.contract_version == spec.contract_version
    &&& w.total_slices == spec.total_slices
    &&& w.plan_fingerprint@ == spec.plan_fingerprint@
    &&& w.missing_slices@ == missing
}

/// Whether `r` is what the reply of the preparing program means.
pub open spec fn prepare_means(
    spec: DispatchSpec,
    code: i64,
    window_id: Seq<char>,
    scheduled_at: i64,
    missing_raw: Seq<char>,
    retry_after: i64,
    message: Seq<char>,
    r: Result<DispatchOutcome, CoordinationError>,
) -> bool {
    let operation = "dispatch_prepare_window"@;
    if code == 1 {
        match missing_of(missing_raw, spec.total_slices) {
            Err(m) => r matches Err(e) && e.is_invalid_state(operation, m),
            Ok(missing) => if missing.len() == 0 {
                r matches Err(e) && e.is_invalid_state(
                    operation,
                    "active window has no missing slices but is not complete"@,
                )
            } else if scheduled_at < 0 {
                r matches Err(e) && e.is_invalid_state(
                    operation,
                    negative_message("scheduled timestamp"@),
                )
            } else {
                r matches Ok(DispatchOutcome::Ready(w)) && is_window(
                    w,
                    spec,
                    window_id,
                    scheduled_at,
                    missing,
                )
            },
        }
    } else if code == 2 {
        r matches Ok(DispatchOutcome::NotDue { retry_after: d }) && nanos(d) == (if retry_after < 0 {
            0
        } else {
            retry_after * 1_000_000
        })
    } else if code == 3 {
        r matches Ok(DispatchOutcome::Finished)
    } else if code == 4 {
        r matches Err(e) && e.is_stale_owner(operation)
    } else if code == 5 {
        r matches Err(e) && e.is_invalid_state(operation, message)
    } else {
        r matches Err(e) && e.is_invalid_state(operation, unknown_code(code))
    }
}

/// Why the publication of a slice cannot be recorded.
pub open spec fn ack_error(window: DispatchWindow, slice_index: u32, fencing_token: u64) -> Option<
    Seq<char>,
> {
    if slice_index >= window.total_slices {
        Some("slice index is outside the dispatch window"@)
    } else if window.total_slices > MAX_DISPATCH_SLICES {
        Some("dispatch window has an invalid slice count"@)
    } else if fencing_token > i64::MAX {
        Some("fencing token exceeds Redis integer range"@)
    } else {
        None
    }
}

/// Whether `r` is what the reply of the acknowledging program means.
pub open spec fn ack_means(
    code: i64,
    remaining: i64,
    message: Seq<char>,
    r: Result<DispatchProgress, CoordinationError>,
) -> bool {
    let operation = "dispatch_ack_slice"@;
    if code == 1 {
        if 0 <= remaining <= u32::MAX {
            r matches Ok(DispatchProgress::Pending { remaining_slices }) && remaining_slices
                == remaining
        } else {
            r matches Err(e) && e.is_invalid_state(
                operation,
                "remaining slice count is out of range"@,
            )
        }
    } else if code == 2 {
        r matches Ok(DispatchProgress::Complete)
    } else if code == 4 {
        r matches Err(e) && e.is_stale_owner(operation)
    } else if code == 5 {
        r matches Err(e) && e.is_invalid_state(operation, message)
    } else {
        r matches Err(e) && e.is_invalid_state(operation, unknown_code(code))
    }
}

/// The time at which a run is given up: when its load has been offered and the
/// timeout for missing slices has passed.
pub open spec fn run_deadline(window: DispatchWindow, load: Duration, partial: Duration) -> nat {
    window.scheduled_at_unix_ms as nat + millis(load) + millis(partial)
}

/// Why a run cannot be made known to the aggregation.
pub open spec fn registration_error(
    window: DispatchWindow,
    load: Duration,
    config: AggregationRegistrationConfig,
) -> Option<Seq<char>> {
    let deadline = run_deadline(window, load, config.partial_timeout);
    if millis(load) > u64::MAX {
        Some("load duration exceeds u64 milliseconds"@)
    } else if millis(config.partial_timeout) > u64::MAX {
        Some("partial timeout exceeds u64 milliseconds"@)
    } else if deadline > u128::MAX {
        Some("run deadline overflowed"@)
    } else if deadline > MAX_EXACT_LUA_INTEGER {
        Some("run deadline exceeds Redis Lua's exact integer range"@)
    } else if duration_error(config.retention) is Some {
        duration_error(config.retention)
    } else if config.max_active_runs > i64::MAX {
        Some("active-run limit exceeds Redis range"@)
    } else if config.max_active_runs < 1 {
        Some("active-run limit must be positive"@)
    } else {
        None
    }
}

/// Whether `r` is what the reply of the registering program means.
pub open spec fn register_means(
    code: i64,
    message: Seq<char>,
    r: Result<(), CoordinationError>,
) -> bool {
    let operation = "aggregation_register_run"@;
    if code == 1 || code == 2 {
        r is Ok
    } else if code == 3 || code == 4 {
        r matches Err(e) && e.is_invalid_state(operation, message)
    } else {
        r matches Err(e) && e.is_invalid_state(operation, unknown_code(code))
    }
}

impl RedisDueStateStore {
    pub closed spec fn prefix(&self) -> Seq<char> {
        self.schedule_prefix@
    }

    pub closed spec fn exchange_timeout(&self) -> Duration {
        self.operation_timeout
    }

    pub closed spec fn registration(&self) -> Option<AggregationRegistrationConfig> {
        self.aggregation_registration
    }

    /// The dispatch state under a key prefix.
    pub fn new(schedule_prefix: String) -> (s: Self)
        ensures
            s.prefix() == schedule_prefix@,
            nanos(s.exchange_timeout()) == DEFAULT_OPERATION_TIMEOUT_MS * 1_000_000,
            s.registration() is None,
    {
        RedisDueStateStore {
            schedule_prefix,
            operation_timeout: Duration::from_millis(DEFAULT_OPERATION_TIMEOUT_MS),
            aggregation_registration: None,
        }
    }

    /// The same state with another bound on one exchange.
    pub fn with_operation_timeout(self, operation_timeout: Duration) -> (s: Self)
        ensures
            s.prefix() == self.prefix(),
            s.exchange_timeout() == operation_timeout,
            s.registration() == self.registration(),
    {
        let mut store = self;
        store.operation_timeout = operation_timeout;
        store
    }

    /// The same state, which makes runs known to the aggregation.
    pub fn with_aggregation_registration(
        self,
        key_prefix: String,
        partial_timeout: Duration,
        retention: Duration,
        max_active_runs: usize,
    ) -> (s: Self)
        ensures
            s.prefix() == self.prefix(),
            s.exchange_timeout() == self.exchange_timeout(),
            s.registration() == Some(
                AggregationRegistrationConfig {
                    key_prefix,
                    partial_timeout,
                    retention,
                    max_active_runs,
                },
            ),
    {
        let mut store = self;
        store.aggregation_registration = Some(
            AggregationRegistrationConfig {
                key_prefix,
                partial_timeout,
                retention,
                max_active_runs,
            },
        );
        store
    }

    /// How long one exchange may take.
    pub fn operation_timeout(&self) -> (d: Duration)
        ensures
            d == self.exchange_timeout(),
    {
        self.operation_timeout
    }

    /// The key of the dispatch state of a scenario.
    pub fn key_for(&self, scenario_id: &str) -> (key: String)
        ensures
            key@ == self.prefix() + ":"@ + scenario_id@,
    {
        concat3(&self.schedule_prefix, ":", scenario_id)
    }

    /// The call that opens the next window of a scenario, or finds the open one.
    pub fn prepare_window_call(&self, spec: &DispatchSpec, leader: &LeaderLease) -> (r: Result<
        ScriptCall,
        CoordinationError,
    >)
        ensures
            match r {
                Ok(call) => {
                    &&& spec_error(*spec, leader.fencing_token) is None
                    &&& call.is(
                        PREPARE_WINDOW_SCRIPT@,
                        seq![leader.lock_key@, self.prefix() + ":"@ + spec.scenario_id@],
                        seq![
                            leader.owner_token@,
                            decimal(leader.fencing_token as nat),
                            spec.scenario_id@,
                            decimal(spec.contract_version as nat),
                            decimal(spec.total_slices as nat),
                            repeat_kind(spec.repeat),
                            decimal(repeat_ms(spec.repeat)),
                            spec.plan_fingerprint@,
                        ],
                    )
                },
                Err(e) => spec_error(*spec, leader.fencing_token) matches Some(m)
                    && e.is_invalid_state("dispatch_prepare_window"@, m),
            },
    {
        let operation = "dispatch_prepare_window";
        if blank(&spec.scenario_id) {
            return Err(CoordinationError::invalid_state(operation, "scenario id must not be empty"));
        }
        if spec.contract_version == 0 {
            return Err(
                CoordinationError::invalid_state(operation, "contract version must be positive"),
            );
        }
        if spec.total_slices == 0 || spec.total_slices > MAX_DISPATCH_SLICES {
            return Err(
                CoordinationError::invalid_state(
                    operation,
                    &concat2(
                        "total slices must be between 1 and ",
                        &decimal_u64(MAX_DISPATCH_SLICES as u64),
                    ),
                ),
            );
        }
        if blank(&spec.plan_fingerprint) {
            return Err(
                CoordinationError::invalid_state(operation, "plan fingerprint must not be empty"),
            );
        }
        let kind;
        let interval_ms: i64;
        match spec.repeat {
            RepeatPolicy::Once => {
                kind = "once";
                interval_ms = 0;
            },
            RepeatPolicy::Every(interval) => {
                kind = "every";
                interval_ms = duration_ms(operation, interval)?;
            },
        }
        let fence: i64 = fence_as_i64(operation, leader.fencing_token)?;
        let keys = texts2(leader.lock_key.clone(), self.key_for(&spec.scenario_id));
        let args: Vec<String> = vec![
            leader.owner_token.clone(),
            decimal_i64(fence),
            spec.scenario_id.clone(),
            decimal_u64(spec.contract_version as u64),
            decimal_u64(spec.total_slices as u64),
            copy_str(kind),
            decimal_i64(interval_ms),
            spec.plan_fingerprint.clone(),
        ];
        assert(views(args@) =~= seq![
            leader.owner_token@,
            decimal(leader.fencing_token as nat),
            spec.scenario_id@,
            decimal(spec.contract_version as nat),
            decimal(spec.total_slices as nat),
            repeat_kind(spec.repeat),
            decimal(repeat_ms(spec.repeat)),
            spec.plan_fingerprint@,
        ]);
        Ok(ScriptCall { script: PREPARE_WINDOW_SCRIPT, keys, args })
    }

    /// What the reply of the preparing program means.
    pub fn prepare_window_reply(
        &self,
        spec: &DispatchSpec,
        code: i64,
        window_id: String,
        scheduled_at: i64,
        missing_raw: &str,
        retry_after: i64,
        message: &str,
    ) -> (r: Result<DispatchOutcome, CoordinationError>)
        ensures
            prepare_means(
                *spec,
                code,
                window_id@,
                scheduled_at,
                missing_raw@,
                retry_after,
                message@,
                r,
            ),
    {
        let operation = "dispatch_prepare_window";
        match code {
            1 => {
                let missing_slices = parse_missing_slices(
                    operation,
                    missing_raw,
                    spec.total_slices,
                )?;
                if missing_slices.len() == 0 {
                    return Err(
                        CoordinationError::invalid_state(
                            operation,
                            "active window has no missing slices but is not complete",
                        ),
                    );
                }
                let scheduled: u64 = as_u64(operation, "scheduled timestamp", scheduled_at)?;
                Ok(
                    DispatchOutcome::Ready(
                        DispatchWindow {
                            scenario_id: spec.scenario_id.clone(),
                            run_id: window_id.clone(),
                            window_id,
                            scheduled_at_unix_ms: scheduled as u128,
                            contract_version: spec.contract_version,
                            total_slices: spec.total_slices,
                            plan_fingerprint: spec.plan_fingerprint.clone(),
                            missing_slices,
                        },
                    ),
                )
            },
            2 => Ok(
                DispatchOutcome::NotDue { retry_after: duration_from_nonnegative_ms(retry_after) },
            ),
            3 => Ok(DispatchOutcome::Finished),
            4 => Err(CoordinationError::stale_owner(operation)),
            5 => Err(CoordinationError::invalid_state(operation, message)),
            other => Err(unknown_reply(operation, other)),
        }
    }

    /// The call that records that a slice of a window was published.
    pub fn ack_slice_call(&self, window: &DispatchWindow, slice_index: u32, leader: &LeaderLease) -> (r:
        Result<ScriptCall, CoordinationError>)
        ensures
            match r {
                Ok(call) => {
                    &&& ack_error(*window, slice_index, leader.fencing_token) is None
                    &&& call.is(
                        ACK_SLICE_SCRIPT@,
                        seq![leader.lock_key@, self.prefix() + ":"@ + window.scenario_id@],
                        seq![
                            leader.owner_token@,
                            decimal(leader.fencing_token as nat),
                            window.window_id@,
                            decimal(slice_index as nat),
                            decimal(window.total_slices as nat),
                            window.plan_fingerprint@,
                        ],
                    )
                },
                Err(e) => ack_error(*window, slice_index, leader.fencing_token) matches Some(m)
                    && e.is_invalid_state("dispatch_ack_slice"@, m),
            },
    {
        let operation = "dispatch_ack_slice";
        if slice_index >= window.total_slices {
            return Err(
                CoordinationError::invalid_state(
                    operation,
                    "slice index is outside the dispatch window",
                ),
            );
        }
        if window.total_slices > MAX_DISPATCH_SLICES {
            return Err(
                CoordinationError::invalid_state(
                    operation,
                    "dispatch window has an invalid slice count",
                ),
            );
        }
        let fence: i64 = fence_as_i64(operation, leader.fencing_token)?;
        let keys = texts2(leader.lock_key.clone(), self.key_for(&window.scenario_id));
        let args: Vec<String> = vec![
            leader.owner_token.clone(),
            decimal_i64(fence),
            window.window_id.clone(),
            decimal_u64(slice_index as u64),
            decimal_u64(window.total_slices as u64),
            window.plan_fingerprint.clone(),
        ];
        assert(views(args@) =~= seq![
            leader.owner_token@,
            decimal(leader.fencing_token as nat),
            window.window_id@,
            decimal(slice_index as nat),
            decimal(window.total_slices as nat),
            window.plan_fingerprint@,
        ]);
        Ok(ScriptCall { script: ACK_SLICE_SCRIPT, keys, args })
    }

    /// What the reply of the acknowledging program means.
    pub fn ack_slice_reply(&self, code: i64, remaining: i64, message: &str) -> (r: Result<
        DispatchProgress,
        CoordinationError,
    >)
        ensures
            ack_means(code, remaining, message@, r),
    {
        let operation = "dispatch_ack_slice";
        match code {
            1 => if remaining < 0 || remaining > u32::MAX as i64 {
                Err(
                    CoordinationError::invalid_state(
                        operation,
                        "remaining slice count is out of range",
                    ),
                )
            } else {
                Ok(DispatchProgress::Pending { remaining_slices: remaining as u32 })
            },
            2 => Ok(DispatchProgress::Complete),
            4 => Err(CoordinationError::stale_owner(operation)),
            5 => Err(CoordinationError::invalid_state(operation, message)),
            other => Err(unknown_reply(operation, other)),
        }
    }

    /// The call that makes a run known to the aggregation; none where runs are not
    /// made known.
    pub fn register_run_call(&self, window: &DispatchWindow, load_duration: Duration) -> (r: Result<
        Option<ScriptCall>,
        CoordinationError,
    >)
        ensures
            match (self.registration(), r) {
                (None, Ok(None)) => true,
                (Some(config), Ok(Some(call))) => {
                    &&& registration_error(*window, load_duration, config) is None
                    &&& call.is(
                        REGISTER_RUN_SCRIPT@,
                        seq![
                            run_key(config.key_prefix@, window.run_id@),
                            deadline_key_of(config.key_prefix@),
                            active_key_of(config.key_prefix@),
                        ],
                        seq![
                            window.run_id@,
                            window.scenario_id@,
                            decimal(window.contract_version as nat),
                            decimal(window.total_slices as nat),
                            decimal(run_deadline(*window, load_duration, config.partial_timeout)),
                            decimal(millis(config.retention)),
                            decimal(config.max_active_runs as nat),
                        ],
                    )
                },
                (Some(config), Err(e)) => registration_error(
                    *window,
                    load_duration,
                    config,
                ) matches Some(m) && e.is_invalid_state("aggregation_register_run"@, m),
                _ => false,
            },
    {
        let operation = "aggregation_register_run";
        let config = match &self.aggregation_registration {
            Some(config) => config,
            None => {
                return Ok(None);
            },
        };
        let load_ms: u128 = load_duration.as_millis();
        if load_ms > u64::MAX as u128 {
            return Err(
                CoordinationError::invalid_state(
                    operation,
                    "load duration exceeds u64 milliseconds",
                ),
            );
        }
        let partial_ms: u128 = config.partial_timeout.as_millis();
        if partial_ms > u64::MAX as u128 {
            return Err(
                CoordinationError::invalid_state(
                    operation,
                    "partial timeout exceeds u64 milliseconds",
                ),
            );
        }
        let waiting_ms: u128 = load_ms + partial_ms;
        if window.scheduled_at_unix_ms > u128::MAX - waiting_ms {
            return Err(CoordinationError::invalid_state(operation, "run deadline overflowed"));
        }
        let deadline: u128 = window.scheduled_at_unix_ms + waiting_ms;
        if deadline > MAX_EXACT_LUA_INTEGER as u128 {
            return Err(
                CoordinationError::invalid_state(
                    operation,
                    "run deadline exceeds Redis Lua's exact integer range",
                ),
            );
        }
        let retention_ms: i64 = duration_ms(operation, config.retention)?;
        if config.max_active_runs as u128 > i64::MAX as u128 {
            return Err(
                CoordinationError::invalid_state(operation, "active-run limit exceeds Redis range"),
            );
        }
        let max_active: i64 = config.max_active_runs as i64;
        if max_active < 1 {
            return Err(
                CoordinationError::invalid_state(operation, "active-run limit must be positive"),
            );
        }
        let keys = texts3(
            concat3(&config.key_prefix, ":{runs}:run:", &window.run_id),
            concat2(&config.key_prefix, ":{runs}:deadlines"),
            concat2(&config.key_prefix, ":{runs}:active"),
        );
        let args: Vec<String> = vec![
            window.run_id.clone(),
            window.scenario_id.clone(),
            decimal_u64(window.contract_version as u64),
            decimal_u64(window.total_slices as u64),
            decimal_u128(deadline),
            decimal_i64(retention_ms),
            decimal_i64(max_active),
        ];
        assert(views(args@) =~= seq![
            window.run_id@,
            window.scenario_id@,
            decimal(window.contract_version as nat),
            decimal(window.total_slices as nat),
            decimal(deadline as nat),
            decimal(retention_ms as nat),
            decimal(max_active as nat),
        ]);
        Ok(Some(ScriptCall { script: REGISTER_RUN_SCRIPT, keys, args }))
    }

    /// What the reply of the registering program means.
    pub fn register_run_reply(&self, code: i64, message: &str) -> (r: Result<(), CoordinationError>)
        ensures
            register_means(code, message@, r),
    {
        let operation = "aggregation_register_run";
        match code {
            1 | 2 => Ok(()),
            3 | 4 => Err(CoordinationError::invalid_state(operation, message)),
            other => Err(unknown_reply(operation, other)),
        }
    }
}

} // verus!
