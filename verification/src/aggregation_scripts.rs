//! The Lua programs that change the aggregation state inside Redis, each in one
//! atomic step.
use vstd::prelude::*;

verus! {

/// Merges the result of one slice into its run. A result that is refused leaves what
/// is stored of the run as it was.
pub const INGEST_SCRIPT: &'static str = r#"
local function response(code, message)
    return {code, message, redis.call('HGETALL', KEYS[1])}
end

local max_exact = 9007199254740991
local scenario_id = ARGV[1]
local run_id = ARGV[2]
local schema_version = ARGV[3]
local expected_slices = tonumber(ARGV[4])
local slice_index = tonumber(ARGV[5])
local execution_key = ARGV[6]
local histogram_bounds = ARGV[7]
local incoming_total = tonumber(ARGV[8])
local incoming_success = tonumber(ARGV[9])
local incoming_failure = tonumber(ARGV[10])
local retention_ms = tonumber(ARGV[11])
local max_error_kinds = tonumber(ARGV[12])
local max_active_runs = tonumber(ARGV[13])
local partial_timeout_ms = tonumber(ARGV[14])
local bucket_count = tonumber(ARGV[15])
local now_parts = redis.call('TIME')
local redis_now_ms = tonumber(now_parts[1]) * 1000 + math.floor(tonumber(now_parts[2]) / 1000)
local received_at = redis_now_ms

if not expected_slices or expected_slices < 1
    or not slice_index or slice_index < 0 or slice_index >= expected_slices
    or not incoming_total or incoming_total < 0 or incoming_total > max_exact
    or not incoming_success or incoming_success < 0 or incoming_success > max_exact
    or not incoming_failure or incoming_failure < 0 or incoming_failure > max_exact
    or incoming_success + incoming_failure ~= incoming_total
    or not retention_ms or retention_ms < 1
    or not max_error_kinds or max_error_kinds < 1
    or not max_active_runs or max_active_runs < 1
    or not partial_timeout_ms or partial_timeout_ms < 1
    or received_at > max_exact - partial_timeout_ms
    or not bucket_count or bucket_count < 0 then
    return {5, 'invalid aggregation script arguments', {}}
end

local bucket_start = 16
local error_count_index = bucket_start + bucket_count
local error_pair_count = tonumber(ARGV[error_count_index])
if not error_pair_count or error_pair_count < 0 then
    return {5, 'invalid aggregation error-count arguments', {}}
end

for index = 0, bucket_count - 1 do
    local count = tonumber(ARGV[bucket_start + index])
    if not count or count < 0 or count > max_exact then
        return {5, 'latency bucket count is outside the exact Redis Lua range', {}}
    end
end
for index = 0, error_pair_count - 1 do
    local count = tonumber(ARGV[error_count_index + 2 + index * 2])
    if not count or count < 0 or count > max_exact then
        return {5, 'error count is outside the exact Redis Lua range', {}}
    end
end

local exists = redis.call('EXISTS', KEYS[1]) == 1
local bounds_unset = false
local status = 'open'
local function refresh_retention()
    local pending = tonumber(redis.call('HGET', KEYS[1], 'summary_pending_revision') or '0')
    local acknowledged = tonumber(redis.call('HGET', KEYS[1], 'summary_ack_revision') or '0')
    if pending > acknowledged then
        -- A Kafka-acknowledged summary is the terminal durable outcome. Never
        -- expire its Redis outbox source before that acknowledgement exists.
        redis.call('PERSIST', KEYS[1])
        redis.call('ZADD', KEYS[4], max_exact, run_id)
    else
        redis.call('PEXPIRE', KEYS[1], retention_ms)
        redis.call('ZADD', KEYS[4], redis_now_ms + retention_ms, run_id)
    end
end
redis.call('ZREMRANGEBYSCORE', KEYS[4], '-inf', redis_now_ms)
if not exists and redis.call('ZCARD', KEYS[4]) >= max_active_runs then
    return {8, 'bounded active-run capacity exceeded', {}}
end
if exists then
    local stored_histogram_bounds = redis.call('HGET', KEYS[1], 'histogram_bounds')
    if redis.call('HGET', KEYS[1], 'scenario_id') ~= scenario_id
        or redis.call('HGET', KEYS[1], 'run_id') ~= run_id
        or redis.call('HGET', KEYS[1], 'schema_version') ~= schema_version
        or tonumber(redis.call('HGET', KEYS[1], 'expected_slices') or '-1') ~= expected_slices
        or (stored_histogram_bounds ~= '' and stored_histogram_bounds ~= histogram_bounds) then
        return response(5, 'scenario, schema, expected slices, or histogram bounds changed')
    end
    if stored_histogram_bounds == '' then
        if tonumber(redis.call('HGET', KEYS[1], 'received_slices') or '-1') ~= 0 then
            return response(5, 'registered run histogram is unset after accepting slices')
        end
        bounds_unset = true
    end
    status = redis.call('HGET', KEYS[1], 'status') or ''
    if status ~= 'open' and status ~= 'partial' and status ~= 'timed_out'
        and status ~= 'cancelled' and status ~= 'complete' then
        return response(5, 'stored aggregation status is invalid')
    end

    local existing_slice = redis.call('HGET', KEYS[1], 'slice:' .. tostring(slice_index))
    if existing_slice then
        if existing_slice == execution_key then
            refresh_retention()
            return response(2, '')
        end
        return response(5, 'slice index already belongs to a different execution identity')
    end
    local existing_execution = redis.call('HGET', KEYS[1], 'execution:' .. execution_key)
    if existing_execution then
        if tonumber(existing_execution) == slice_index then
            refresh_retention()
            return response(2, '')
        end
        return response(5, 'execution identity already belongs to a different slice')
    end
    if status == 'complete' or status == 'cancelled' then
        return response(5, 'terminal run cannot accept an unrecorded slice')
    end
end

local current_received = 0
local current_error_kinds = 0
if exists then
    current_received = tonumber(redis.call('HGET', KEYS[1], 'received_slices') or '-1')
    current_error_kinds = tonumber(redis.call('HGET', KEYS[1], 'error_kind_count') or '-1')
    if not current_received or current_received < 0 or current_received >= expected_slices
        or not current_error_kinds or current_error_kinds < 0 then
        return response(5, 'stored aggregation counters are invalid')
    end
end

local additional_error_kinds = 0
for index = 0, error_pair_count - 1 do
    local kind = ARGV[error_count_index + 1 + index * 2]
    if redis.call('HEXISTS', KEYS[1], 'error:' .. kind) == 0 then
        additional_error_kinds = additional_error_kinds + 1
    end
end
if current_error_kinds + additional_error_kinds > max_error_kinds then
    return response(6, 'bounded error-kind capacity exceeded')
end

local function sum_is_exact(field, incoming)
    local current = tonumber(redis.call('HGET', KEYS[1], field) or '0')
    return current and current >= 0 and current <= max_exact
        and incoming <= max_exact - current
end

if not sum_is_exact('total', incoming_total)
    or not sum_is_exact('success', incoming_success)
    or not sum_is_exact('failure', incoming_failure) then
    return response(9, 'aggregate result counter exceeds the exact Redis Lua range')
end
for index = 0, bucket_count - 1 do
    if not sum_is_exact('latency:' .. tostring(index), tonumber(ARGV[bucket_start + index])) then
        return response(9, 'aggregate latency counter exceeds the exact Redis Lua range')
    end
end
for index = 0, error_pair_count - 1 do
    local kind = ARGV[error_count_index + 1 + index * 2]
    local count = tonumber(ARGV[error_count_index + 2 + index * 2])
    if not sum_is_exact('error:' .. kind, count) then
        return response(9, 'aggregate error counter exceeds the exact Redis Lua range')
    end
end

if not exists then
    redis.call('HSET', KEYS[1],
        'scenario_id', scenario_id,
        'run_id', run_id,
        'schema_version', schema_version,
        'expected_slices', tostring(expected_slices),
        'histogram_bounds', histogram_bounds,
        'status', 'open',
        'received_slices', '0',
        'total', '0',
        'success', '0',
        'failure', '0',
        'error_kind_count', '0',
        'first_result_at', tostring(received_at),
        'last_result_at', tostring(received_at),
        'deadline_at', tostring(received_at + partial_timeout_ms),
        'finalized_at', '0',
        'summary_revision', '0',
        'summary_pending_revision', '0',
        'summary_ack_revision', '0')
    redis.call('ZADD', KEYS[2], received_at + partial_timeout_ms, run_id)
    status = 'open'
elseif bounds_unset then
    -- Nothing is stored before every check has passed, so that a refused result
    -- leaves the run as it was.
    redis.call('HSET', KEYS[1], 'histogram_bounds', histogram_bounds)
end

redis.call('HSET', KEYS[1],
    'slice:' .. tostring(slice_index), execution_key,
    'execution:' .. execution_key, tostring(slice_index))
local received_slices = redis.call('HINCRBY', KEYS[1], 'received_slices', 1)
redis.call('HINCRBY', KEYS[1], 'total', ARGV[8])
redis.call('HINCRBY', KEYS[1], 'success', ARGV[9])
redis.call('HINCRBY', KEYS[1], 'failure', ARGV[10])
for index = 0, bucket_count - 1 do
    redis.call('HINCRBY', KEYS[1], 'latency:' .. tostring(index), ARGV[bucket_start + index])
end
for index = 0, error_pair_count - 1 do
    local kind = ARGV[error_count_index + 1 + index * 2]
    local count = ARGV[error_count_index + 2 + index * 2]
    local field = 'error:' .. kind
    if redis.call('HEXISTS', KEYS[1], field) == 0 then
        redis.call('HINCRBY', KEYS[1], 'error_kind_count', 1)
    end
    redis.call('HINCRBY', KEYS[1], field, count)
end
local previous_last = tonumber(redis.call('HGET', KEYS[1], 'last_result_at') or '0')
local first_result = tonumber(redis.call('HGET', KEYS[1], 'first_result_at') or '0')
if first_result == 0 then
    redis.call('HSET', KEYS[1], 'first_result_at', tostring(received_at))
end
if received_at > previous_last then
    redis.call('HSET', KEYS[1], 'last_result_at', tostring(received_at))
end
refresh_retention()

if received_slices == expected_slices then
    local revision = redis.call('HINCRBY', KEYS[1], 'summary_revision', 1)
    redis.call('HSET', KEYS[1],
        'status', 'complete',
        'finalized_at', tostring(received_at),
        'summary_pending_revision', tostring(revision))
    redis.call('ZREM', KEYS[2], run_id)
    redis.call('ZADD', KEYS[3], received_at, run_id)
    refresh_retention()
    if status == 'partial' or status == 'timed_out' then
        return response(4, '')
    end
    return response(3, '')
end
if status == 'partial' or status == 'timed_out' then
    return response(7, '')
end
return response(1, '')
"#;

/// Ends a run whose deadline has passed.
pub const MARK_EXPIRED_SCRIPT: &'static str = r#"
local function response(code, message)
    return {code, message, redis.call('HGETALL', KEYS[1])}
end

local retention_ms = tonumber(ARGV[1])
local run_id = ARGV[2]
if redis.call('EXISTS', KEYS[1]) == 0 then
    redis.call('ZREM', KEYS[2], run_id)
    redis.call('ZREM', KEYS[3], run_id)
    redis.call('ZREM', KEYS[4], run_id)
    return {0, '', {}}
end
local max_exact = 9007199254740991
local now_parts = redis.call('TIME')
local now_ms = tonumber(now_parts[1]) * 1000 + math.floor(tonumber(now_parts[2]) / 1000)
if not retention_ms or retention_ms < 1 or now_ms > max_exact - retention_ms then
    return response(4, 'invalid expiration arguments')
end

local status = redis.call('HGET', KEYS[1], 'status') or ''
if status == 'partial' or status == 'timed_out'
    or status == 'cancelled' or status == 'complete' then
    redis.call('ZREM', KEYS[2], run_id)
    local pending = tonumber(redis.call('HGET', KEYS[1], 'summary_pending_revision') or '0')
    local acknowledged = tonumber(redis.call('HGET', KEYS[1], 'summary_ack_revision') or '0')
    if pending > acknowledged then
        redis.call('PERSIST', KEYS[1])
        redis.call('ZADD', KEYS[4], max_exact, run_id)
    end
    return response(3, '')
end
if status ~= 'open' then
    return response(4, 'stored aggregation status is invalid')
end
local deadline_at = tonumber(redis.call('HGET', KEYS[1], 'deadline_at') or '-1')
if not deadline_at or deadline_at < 0 then
    return response(4, 'stored aggregation deadline is invalid')
end
if now_ms < deadline_at then
    return response(1, tostring(deadline_at - now_ms))
end

local revision = redis.call('HINCRBY', KEYS[1], 'summary_revision', 1)
redis.call('HSET', KEYS[1],
    'status', 'timed_out',
    'finalized_at', tostring(now_ms),
    'summary_pending_revision', tostring(revision))
redis.call('ZREM', KEYS[2], run_id)
redis.call('ZADD', KEYS[3], now_ms, run_id)
redis.call('PERSIST', KEYS[1])
redis.call('ZADD', KEYS[4], max_exact, run_id)
return response(2, '')
"#;

/// Ends a run on request.
pub const FINALIZE_RUN_SCRIPT: &'static str = r#"
local function response(code, message)
    return {code, message, redis.call('HGETALL', KEYS[1])}
end
local requested_status = ARGV[1]
local retention_ms = tonumber(ARGV[2])
local run_id = ARGV[3]
local max_exact = 9007199254740991
local now_parts = redis.call('TIME')
local now_ms = tonumber(now_parts[1]) * 1000 + math.floor(tonumber(now_parts[2]) / 1000)
if requested_status ~= 'partial' and requested_status ~= 'cancelled' then
    return {3, 'only partial or cancelled explicit finalization is supported', {}}
end
if not retention_ms or retention_ms < 1 or now_ms > max_exact - retention_ms then
    return {3, 'invalid explicit finalization arguments', {}}
end
if redis.call('EXISTS', KEYS[1]) == 0 then
    redis.call('ZREM', KEYS[2], run_id)
    redis.call('ZREM', KEYS[3], run_id)
    redis.call('ZREM', KEYS[4], run_id)
    return {0, '', {}}
end
local status = redis.call('HGET', KEYS[1], 'status') or ''
if status ~= 'open' then
    if status == 'partial' or status == 'timed_out'
        or status == 'cancelled' or status == 'complete' then
        redis.call('ZREM', KEYS[2], run_id)
        local pending = tonumber(redis.call('HGET', KEYS[1], 'summary_pending_revision') or '0')
        local acknowledged = tonumber(redis.call('HGET', KEYS[1], 'summary_ack_revision') or '0')
        if pending > acknowledged then
            redis.call('PERSIST', KEYS[1])
            redis.call('ZADD', KEYS[4], max_exact, run_id)
        end
        return response(2, '')
    end
    return response(3, 'stored aggregation status is invalid')
end

local revision = redis.call('HINCRBY', KEYS[1], 'summary_revision', 1)
redis.call('HSET', KEYS[1],
    'status', requested_status,
    'finalized_at', tostring(now_ms),
    'summary_pending_revision', tostring(revision))
redis.call('ZREM', KEYS[2], run_id)
redis.call('ZADD', KEYS[3], now_ms, run_id)
redis.call('PERSIST', KEYS[1])
redis.call('ZADD', KEYS[4], max_exact, run_id)
return response(1, '')
"#;

/// Lists the runs whose deadline has passed.
pub const DUE_RUNS_SCRIPT: &'static str = r#"
local limit = tonumber(ARGV[1])
if not limit or limit < 1 then
    return redis.error_reply('aggregation scan limit must be positive')
end
local now_parts = redis.call('TIME')
local redis_now_ms = tonumber(now_parts[1]) * 1000 + math.floor(tonumber(now_parts[2]) / 1000)
return redis.call('ZRANGEBYSCORE', KEYS[1], '-inf', redis_now_ms, 'LIMIT', 0, limit)
"#;

/// Records that a revision of a summary was published.
pub const ACKNOWLEDGE_SUMMARY_SCRIPT: &'static str = r#"
if redis.call('EXISTS', KEYS[1]) == 0 then
    redis.call('ZREM', KEYS[2], ARGV[2])
    redis.call('ZREM', KEYS[3], ARGV[2])
    return {0, 0, ''}
end
local revision = tonumber(ARGV[1])
local run_id = ARGV[2]
local retention_ms = tonumber(ARGV[3])
local current = tonumber(redis.call('HGET', KEYS[1], 'summary_revision') or '0')
local acknowledged = tonumber(redis.call('HGET', KEYS[1], 'summary_ack_revision') or '0')
local pending = tonumber(redis.call('HGET', KEYS[1], 'summary_pending_revision') or '0')
if not revision or revision < 1 or not retention_ms or retention_ms < 1
    or not current or current < 1
    or not acknowledged or acknowledged < 0 or not pending or pending < 0 then
    return {4, current or 0, 'stored summary revision is invalid'}
end
if revision > current then
    return {4, current, 'cannot acknowledge a future summary revision'}
end
if revision < current then
    if revision > acknowledged then
        redis.call('HSET', KEYS[1], 'summary_ack_revision', tostring(revision))
    end
    return {3, current, ''}
end
if acknowledged >= revision then
    if pending <= acknowledged then
        redis.call('ZREM', KEYS[2], run_id)
        redis.call('PEXPIRE', KEYS[1], retention_ms)
        local now_parts = redis.call('TIME')
        local redis_now_ms = tonumber(now_parts[1]) * 1000 + math.floor(tonumber(now_parts[2]) / 1000)
        redis.call('ZADD', KEYS[3], redis_now_ms + retention_ms, run_id)
    end
    return {2, current, ''}
end
redis.call('HSET', KEYS[1], 'summary_ack_revision', tostring(revision))
if pending == revision then
    redis.call('ZREM', KEYS[2], run_id)
    redis.call('PEXPIRE', KEYS[1], retention_ms)
    local now_parts = redis.call('TIME')
    local redis_now_ms = tonumber(now_parts[1]) * 1000 + math.floor(tonumber(now_parts[2]) / 1000)
    redis.call('ZADD', KEYS[3], redis_now_ms + retention_ms, run_id)
end
return {1, current, ''}
"#;

/// Takes a run that needs no publication out of the outbox.
pub const CLEAN_OUTBOX_SCRIPT: &'static str = r#"
if redis.call('EXISTS', KEYS[1]) == 0 then
    redis.call('ZREM', KEYS[2], ARGV[1])
    return 1
end
local pending = tonumber(redis.call('HGET', KEYS[1], 'summary_pending_revision') or '0')
local acknowledged = tonumber(redis.call('HGET', KEYS[1], 'summary_ack_revision') or '0')
if pending <= acknowledged then
    redis.call('ZREM', KEYS[2], ARGV[1])
    return 1
end
return 0
"#;

} // verus!
