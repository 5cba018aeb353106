//! The Lua programs that change leadership, dispatch and execution state inside
//! Redis, each in one atomic step.
use vstd::prelude::*;

verus! {

/// Takes the leadership where nobody holds it.
pub const ACQUIRE_SCRIPT: &'static str = r#"
local now_parts = redis.call('TIME')
local now_ms = tonumber(now_parts[1]) * 1000 + math.floor(tonumber(now_parts[2]) / 1000)

if redis.call('EXISTS', KEYS[1]) == 0 then
    local fence = redis.call('INCR', KEYS[2])
    redis.call('HSET', KEYS[1],
        'owner', ARGV[1],
        'node_id', ARGV[2],
        'fence', tostring(fence))
    redis.call('PEXPIRE', KEYS[1], ARGV[3])
    return {1, fence, now_ms + tonumber(ARGV[3]), 0, ''}
end

local remaining = redis.call('PTTL', KEYS[1])
if remaining < 0 then
    return {3, 0, 0, 0, 'leader record has no expiry'}
end
return {2, 0, 0, remaining, ''}
"#;

/// Prolongs the leadership of its holder.
pub const RENEW_LEADER_SCRIPT: &'static str = r#"
if redis.call('EXISTS', KEYS[1]) == 0 then
    return {2, 0, 'leader record is absent'}
end
if redis.call('HGET', KEYS[1], 'owner') ~= ARGV[1]
    or redis.call('HGET', KEYS[1], 'fence') ~= ARGV[2] then
    return {2, 0, 'leader owner or fence changed'}
end

local now_parts = redis.call('TIME')
local now_ms = tonumber(now_parts[1]) * 1000 + math.floor(tonumber(now_parts[2]) / 1000)
redis.call('PEXPIRE', KEYS[1], ARGV[3])
return {1, now_ms + tonumber(ARGV[3]), ''}
"#;

/// Gives the leadership of its holder up.
pub const RELINQUISH_SCRIPT: &'static str = r#"
if redis.call('EXISTS', KEYS[1]) == 0 then
    return 0
end
if redis.call('HGET', KEYS[1], 'owner') ~= ARGV[1]
    or redis.call('HGET', KEYS[1], 'fence') ~= ARGV[2] then
    return 2
end
redis.call('DEL', KEYS[1])
return 1
"#;

/// Opens the next dispatch window of a scenario, or finds the open one.
pub const PREPARE_WINDOW_SCRIPT: &'static str = r#"
local function leader_is_current()
    if redis.call('EXISTS', KEYS[1]) == 0 then
        return false
    end
    if redis.call('PTTL', KEYS[1]) <= 0 then
        return false
    end
    return redis.call('HGET', KEYS[1], 'owner') == ARGV[1]
        and redis.call('HGET', KEYS[1], 'fence') == ARGV[2]
end

if not leader_is_current() then
    return {4, '', 0, '', 0, 'leader lease is stale'}
end

local scenario_id = ARGV[3]
local contract_version = ARGV[4]
local total_slices = tonumber(ARGV[5])
local repeat_kind = ARGV[6]
local repeat_ms = tonumber(ARGV[7])
local active_window = redis.call('HGET', KEYS[2], 'active_window_id')

if active_window then
    if redis.call('HGET', KEYS[2], 'active_contract_version') ~= contract_version
        or tonumber(redis.call('HGET', KEYS[2], 'active_total_slices')) ~= total_slices
        or redis.call('HGET', KEYS[2], 'active_repeat_kind') ~= repeat_kind
        or tonumber(redis.call('HGET', KEYS[2], 'active_repeat_ms')) ~= repeat_ms
        or redis.call('HGET', KEYS[2], 'active_plan_fingerprint') ~= ARGV[8] then
        return {5, '', 0, '', 0, 'active window metadata does not match current dispatch spec'}
    end

    local scheduled_at = tonumber(redis.call('HGET', KEYS[2], 'active_scheduled_at'))
    local missing = {}
    local acked = 0
    for index = 0, total_slices - 1 do
        if redis.call('HGET', KEYS[2], 'ack:' .. tostring(index)) == '1' then
            acked = acked + 1
        else
            table.insert(missing, tostring(index))
        end
    end
    if tonumber(redis.call('HGET', KEYS[2], 'active_ack_count') or '-1') ~= acked then
        return {5, '', 0, '', 0, 'active acknowledgement count is inconsistent'}
    end
    return {1, active_window, scheduled_at, table.concat(missing, ','), 0, ''}
end

if repeat_kind == 'once' and redis.call('HGET', KEYS[2], 'once_done') == '1' then
    return {3, '', 0, '', 0, ''}
end

local now_parts = redis.call('TIME')
local now_ms = tonumber(now_parts[1]) * 1000 + math.floor(tonumber(now_parts[2]) / 1000)
local next_at = tonumber(redis.call('HGET', KEYS[2], 'next_at') or tostring(now_ms))
if next_at > now_ms then
    return {2, '', 0, '', next_at - now_ms, ''}
end

local scheduled_at = next_at
local window_id = 'v' .. contract_version
    .. ':s' .. tostring(string.len(scenario_id)) .. ':' .. scenario_id
    .. ':w' .. tostring(scheduled_at)
    .. ':n' .. tostring(total_slices)
redis.call('HSET', KEYS[2],
    'active_window_id', window_id,
    'active_scheduled_at', tostring(scheduled_at),
    'active_contract_version', contract_version,
    'active_total_slices', tostring(total_slices),
    'active_repeat_kind', repeat_kind,
    'active_repeat_ms', tostring(repeat_ms),
    'active_plan_fingerprint', ARGV[8],
    'active_ack_count', '0')

local missing = {}
for index = 0, total_slices - 1 do
    table.insert(missing, tostring(index))
end
return {1, window_id, scheduled_at, table.concat(missing, ','), 0, ''}
"#;

/// Records that a slice of a dispatch window was published.
pub const ACK_SLICE_SCRIPT: &'static str = r#"
local function leader_is_current()
    if redis.call('EXISTS', KEYS[1]) == 0 then
        return false
    end
    if redis.call('PTTL', KEYS[1]) <= 0 then
        return false
    end
    return redis.call('HGET', KEYS[1], 'owner') == ARGV[1]
        and redis.call('HGET', KEYS[1], 'fence') == ARGV[2]
end

if not leader_is_current() then
    return {4, 0, 'leader lease is stale'}
end

local active_window = redis.call('HGET', KEYS[2], 'active_window_id')
if not active_window then
    if redis.call('HGET', KEYS[2], 'last_completed_window') == ARGV[3] then
        return {2, 0, ''}
    end
    return {5, 0, 'dispatch window is not active'}
end
if active_window ~= ARGV[3] then
    return {5, 0, 'a different dispatch window is active'}
end

local total_slices = tonumber(redis.call('HGET', KEYS[2], 'active_total_slices'))
if total_slices ~= tonumber(ARGV[5]) then
    return {5, 0, 'dispatch slice count changed'}
end
if redis.call('HGET', KEYS[2], 'active_plan_fingerprint') ~= ARGV[6] then
    return {5, 0, 'dispatch plan fingerprint changed'}
end
local slice_index = tonumber(ARGV[4])
if slice_index < 0 or slice_index >= total_slices then
    return {5, 0, 'slice index is outside the active window'}
end

local repeat_kind = redis.call('HGET', KEYS[2], 'active_repeat_kind')
local repeat_ms = tonumber(redis.call('HGET', KEYS[2], 'active_repeat_ms') or '0')
local scheduled_at = tonumber(redis.call('HGET', KEYS[2], 'active_scheduled_at'))
if repeat_kind ~= 'once' and not (repeat_kind == 'every' and repeat_ms > 0) then
    return {5, 0, 'active repeat policy is invalid'}
end
if not scheduled_at then
    return {5, 0, 'active schedule timestamp is invalid'}
end

local previous_ack_count = tonumber(redis.call('HGET', KEYS[2], 'active_ack_count') or '-1')
if previous_ack_count < 0 or previous_ack_count > total_slices then
    return {5, 0, 'acknowledgement count is invalid'}
end

local ack_field = 'ack:' .. tostring(slice_index)
if redis.call('HSETNX', KEYS[2], ack_field, '1') == 1 then
    redis.call('HINCRBY', KEYS[2], 'active_ack_count', 1)
end
local ack_count = tonumber(redis.call('HGET', KEYS[2], 'active_ack_count') or '0')
local remaining = total_slices - ack_count
if remaining > 0 then
    return {1, remaining, ''}
end
if remaining < 0 then
    return {5, 0, 'acknowledgement count exceeds slice count'}
end

if repeat_kind == 'once' then
    redis.call('HSET', KEYS[2], 'once_done', '1')
    redis.call('HDEL', KEYS[2], 'next_at')
else
    redis.call('HSET', KEYS[2], 'next_at', tostring(scheduled_at + repeat_ms))
end

local now_parts = redis.call('TIME')
local now_ms = tonumber(now_parts[1]) * 1000 + math.floor(tonumber(now_parts[2]) / 1000)
redis.call('HSET', KEYS[2],
    'last_completed_window', active_window,
    'last_completed_at', tostring(now_ms))
for index = 0, total_slices - 1 do
    redis.call('HDEL', KEYS[2], 'ack:' .. tostring(index))
end
redis.call('HDEL', KEYS[2],
    'active_window_id',
    'active_scheduled_at',
    'active_contract_version',
    'active_total_slices',
    'active_repeat_kind',
    'active_repeat_ms',
    'active_plan_fingerprint',
    'active_ack_count')
return {2, 0, ''}
"#;

/// Makes a run known to the aggregation before its first result.
pub const REGISTER_RUN_SCRIPT: &'static str = r#"
local max_exact = 9007199254740991
local run_id = ARGV[1]
local scenario_id = ARGV[2]
local schema_version = ARGV[3]
local expected_slices = tonumber(ARGV[4])
local deadline_at = tonumber(ARGV[5])
local retention_ms = tonumber(ARGV[6])
local max_active = tonumber(ARGV[7])
if not expected_slices or expected_slices < 1
    or not deadline_at or deadline_at < 0 or deadline_at > max_exact
    or not retention_ms or retention_ms < 1
    or not max_active or max_active < 1 then
    return {3, 'invalid run registration arguments'}
end
local now_parts = redis.call('TIME')
local redis_now_ms = tonumber(now_parts[1]) * 1000 + math.floor(tonumber(now_parts[2]) / 1000)
redis.call('ZREMRANGEBYSCORE', KEYS[3], '-inf', redis_now_ms)
if redis.call('EXISTS', KEYS[1]) == 1 then
    if redis.call('HGET', KEYS[1], 'run_id') ~= run_id
        or redis.call('HGET', KEYS[1], 'scenario_id') ~= scenario_id
        or redis.call('HGET', KEYS[1], 'schema_version') ~= schema_version
        or tonumber(redis.call('HGET', KEYS[1], 'expected_slices') or '-1') ~= expected_slices then
        return {3, 'registered run metadata changed'}
    end
    local pending = tonumber(redis.call('HGET', KEYS[1], 'summary_pending_revision') or '0')
    local acknowledged = tonumber(redis.call('HGET', KEYS[1], 'summary_ack_revision') or '0')
    if pending > acknowledged then
        redis.call('PERSIST', KEYS[1])
        redis.call('ZADD', KEYS[3], max_exact, run_id)
    else
        redis.call('PEXPIRE', KEYS[1], retention_ms)
        redis.call('ZADD', KEYS[3], redis_now_ms + retention_ms, run_id)
    end
    return {2, ''}
end
if redis.call('ZCARD', KEYS[3]) >= max_active then
    return {4, 'bounded active-run capacity exceeded'}
end
redis.call('HSET', KEYS[1],
    'scenario_id', scenario_id,
    'run_id', run_id,
    'schema_version', schema_version,
    'expected_slices', tostring(expected_slices),
    'histogram_bounds', '',
    'status', 'open',
    'received_slices', '0',
    'total', '0',
    'success', '0',
    'failure', '0',
    'error_kind_count', '0',
    'first_result_at', '0',
    'last_result_at', '0',
    'deadline_at', tostring(deadline_at),
    'finalized_at', '0',
    'summary_revision', '0',
    'summary_pending_revision', '0',
    'summary_ack_revision', '0')
redis.call('ZADD', KEYS[2], deadline_at, run_id)
redis.call('PEXPIRE', KEYS[1], retention_ms)
redis.call('ZADD', KEYS[3], redis_now_ms + retention_ms, run_id)
return {1, ''}
"#;

/// Takes the lease of an execution.
pub const CLAIM_SCRIPT: &'static str = r#"
local now_parts = redis.call('TIME')
local now_ms = tonumber(now_parts[1]) * 1000 + math.floor(tonumber(now_parts[2]) / 1000)
local lease_until = now_ms + tonumber(ARGV[4])

if redis.call('EXISTS', KEYS[1]) == 0 then
    redis.call('HSET', KEYS[1],
        'state', 'running',
        'owner', ARGV[1],
        'execution_key', ARGV[2],
        'attempt', ARGV[3],
        'lease_until', tostring(lease_until),
        'recovery_count', '0')
    redis.call('PEXPIRE', KEYS[1], ARGV[5])
    return {1, lease_until, 0, '', 0, ''}
end

if redis.call('HGET', KEYS[1], 'execution_key') ~= ARGV[2]
    or redis.call('HGET', KEYS[1], 'attempt') ~= ARGV[3] then
    return {4, 0, 0, '', 0, 'execution identity does not match record'}
end

local state = redis.call('HGET', KEYS[1], 'state')
if state == 'completed' or state == 'retry_published' or state == 'dlq_published' then
    local completed_at = tonumber(redis.call('HGET', KEYS[1], 'completed_at') or '0')
    return {2, 0, 0, state, completed_at, ''}
end
if state ~= 'running' then
    return {4, 0, 0, '', 0, 'execution state is unknown'}
end

local current_until = tonumber(redis.call('HGET', KEYS[1], 'lease_until') or '0')
if current_until <= now_ms then
    redis.call('HSET', KEYS[1],
        'owner', ARGV[1],
        'lease_until', tostring(lease_until),
        'recovered_at', tostring(now_ms))
    redis.call('HINCRBY', KEYS[1], 'recovery_count', 1)
    redis.call('PEXPIRE', KEYS[1], ARGV[5])
    return {1, lease_until, 1, '', 0, ''}
end

return {3, current_until - now_ms, 0, '', 0, ''}
"#;

/// Prolongs the lease of an execution.
pub const RENEW_EXECUTION_SCRIPT: &'static str = r#"
if redis.call('EXISTS', KEYS[1]) == 0 then
    return {2, 0, 'execution record is absent'}
end
if redis.call('HGET', KEYS[1], 'execution_key') ~= ARGV[2]
    or redis.call('HGET', KEYS[1], 'attempt') ~= ARGV[3] then
    return {3, 0, 'execution identity does not match record'}
end
if redis.call('HGET', KEYS[1], 'state') ~= 'running' then
    return {3, 0, 'execution is no longer running'}
end
if redis.call('HGET', KEYS[1], 'owner') ~= ARGV[1] then
    return {2, 0, 'execution owner changed'}
end

local now_parts = redis.call('TIME')
local now_ms = tonumber(now_parts[1]) * 1000 + math.floor(tonumber(now_parts[2]) / 1000)
local current_until = tonumber(redis.call('HGET', KEYS[1], 'lease_until') or '0')
if current_until <= now_ms then
    return {2, 0, 'execution lease expired'}
end
local lease_until = now_ms + tonumber(ARGV[4])
redis.call('HSET', KEYS[1], 'lease_until', tostring(lease_until))
redis.call('PEXPIRE', KEYS[1], ARGV[5])
return {1, lease_until, ''}
"#;

/// Records the outcome of an execution.
pub const COMPLETE_SCRIPT: &'static str = r#"
if redis.call('EXISTS', KEYS[1]) == 0 then
    return {2, 0, 'execution record is absent'}
end
if redis.call('HGET', KEYS[1], 'execution_key') ~= ARGV[2]
    or redis.call('HGET', KEYS[1], 'attempt') ~= ARGV[3] then
    return {3, 0, 'execution identity does not match record'}
end
if redis.call('HGET', KEYS[1], 'owner') ~= ARGV[1] then
    return {2, 0, 'execution owner changed'}
end

local state = redis.call('HGET', KEYS[1], 'state')
if state == 'completed' or state == 'retry_published' or state == 'dlq_published' then
    if state ~= ARGV[4] then
        return {3, 0, 'execution already has a different terminal outcome'}
    end
    return {1, tonumber(redis.call('HGET', KEYS[1], 'completed_at') or '0'), ''}
end
if state ~= 'running' then
    return {3, 0, 'execution state is unknown'}
end

local now_parts = redis.call('TIME')
local now_ms = tonumber(now_parts[1]) * 1000 + math.floor(tonumber(now_parts[2]) / 1000)
local lease_until = tonumber(redis.call('HGET', KEYS[1], 'lease_until') or '0')
if lease_until <= now_ms then
    return {2, 0, 'execution lease expired'}
end

redis.call('HSET', KEYS[1],
    'state', ARGV[4],
    'completed_at', tostring(now_ms))
redis.call('HDEL', KEYS[1], 'lease_until')
redis.call('PEXPIRE', KEYS[1], ARGV[5])
return {1, now_ms, ''}
"#;

/// Gives the lease of an execution up.
pub const RELEASE_SCRIPT: &'static str = r#"
if redis.call('EXISTS', KEYS[1]) == 0 then
    return {0, ''}
end
if redis.call('HGET', KEYS[1], 'execution_key') ~= ARGV[2]
    or redis.call('HGET', KEYS[1], 'attempt') ~= ARGV[3] then
    return {3, 'execution identity does not match record'}
end
if redis.call('HGET', KEYS[1], 'state') ~= 'running' then
    return {3, 'execution is no longer running'}
end
if redis.call('HGET', KEYS[1], 'owner') ~= ARGV[1] then
    return {2, 'execution owner changed'}
end

local now_parts = redis.call('TIME')
local now_ms = tonumber(now_parts[1]) * 1000 + math.floor(tonumber(now_parts[2]) / 1000)
if tonumber(redis.call('HGET', KEYS[1], 'lease_until') or '0') <= now_ms then
    return {2, 'execution lease expired'}
end
redis.call('DEL', KEYS[1])
return {1, ''}
"#;

} // verus!
