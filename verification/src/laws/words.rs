//! What refusals say: which record, topic, partition or scenario, and which numbers.
use std::time::Duration;
use vstd::prelude::*;
use crate::config::app::{target_problem, AppConfig};
use crate::contracts::ContractError;
use crate::coordination::RepeatPolicy;
use crate::durations::{millis, nanos};
use crate::grpc::decode::{decode_message, ensure_wire_type, holdable, ResponseValue};
use crate::grpc::encode::encode_message;
use crate::grpc::schema::{messages_wf, FieldSchema, MessageSchema};
use crate::grpc::value::{
    to_bool, to_bytes, to_f32, to_f64, to_i32, to_i64, to_string_value, to_u32, to_u64, JsonValue,
};
use crate::grpc::wire::PulseError;
use crate::kafka::commit::CommitGuard;
use crate::kafka::evidence::{enforce_consumed_record_size, opt_len};
use crate::kafka::topics::{
    check_probe_brokers, named, partition_problem, partitions_problem, readiness_problem,
    remaining_probe_time, topics_ensured, validate_required_topic_metadata,
    PartitionReadinessMetadata, TopicCreation, TopicReadinessMetadata,
};
use crate::ordered::TextMap;
use crate::runtime::scenarios::{
    first_problem, scenario_problem, steps_problem, validate_scenario_limits, ScenarioFacts,
    ScenarioLimits, StepFacts,
};
use crate::text::{decimal, decimal_int, is_blank, utf8_len, views};

verus! {

/// A record that is too large is refused with the limit and the sizes: of the whole, of the
/// key and of the payload.
pub proof fn law_sizes_are_told(
    key: Option<&[u8]>,
    payload: Option<&[u8]>,
    max: usize,
    e: ContractError,
)
    requires
        call_ensures(
            enforce_consumed_record_size,
            (key, payload, max),
            Err::<(), ContractError>(e),
        ),
        opt_len(key) + opt_len(payload) <= usize::MAX,
    ensures
        opt_len(key) + opt_len(payload) > max,
        e matches ContractError::Malformed(m) && m@ == "Kafka record exceeds configured "@ + decimal(
            max as nat,
        ) + "-byte consumer limit (total="@ + decimal(opt_len(key) + opt_len(payload)) + ", key="@
            + decimal(opt_len(key)) + ", payload="@ + decimal(opt_len(payload)) + ")"@,
{
    let k = decimal(opt_len(key));
    let p = decimal(opt_len(payload));
    let head = "Kafka record exceeds configured "@ + decimal(max as nat)
        + "-byte consumer limit (total="@ + decimal(opt_len(key) + opt_len(payload)) + ", key="@;
    assert(head + k + ", payload="@ + p + ")"@ =~= head + (k + ", payload="@ + p + ")"@));
}

/// A commit that is refused names the epochs, or the topic and the partition that were
/// taken away.
pub proof fn law_commits_are_told(
    guard: CommitGuard,
    current: u64,
    assigned: Result<bool, String>,
    a: Result<(), String>,
    b: Result<(), String>,
    c: Result<(), String>,
    d: Result<(), String>,
)
    requires
        call_ensures(CommitGuard::check_epoch_before, (&guard, current), a),
        call_ensures(CommitGuard::check_epoch_after, (&guard, current), b),
        call_ensures(CommitGuard::check_assignment_before, (&guard, &assigned), c),
        call_ensures(CommitGuard::check_assignment_after, (&guard, &assigned), d),
    ensures
        a matches Err(m) ==> m@ == "refusing Kafka offset commit after rebalance"@ + (
        ": consumed epoch "@ + decimal(guard.consumed_epoch as nat) + ", current epoch "@ + decimal(
            current as nat,
        )),
        b matches Err(m) ==> m@ == "Kafka rebalance raced with offset commit acknowledgement"@ + (
        ": consumed epoch "@ + decimal(guard.consumed_epoch as nat) + ", current epoch "@ + decimal(
            current as nat,
        )),
        assigned == Ok::<bool, String>(false) ==> (c matches Err(m) && m@
            == "refusing Kafka offset commit for revoked assignment "@ + (guard.topic@ + "["@
            + decimal_int(guard.partition as int) + "]"@)),
        assigned == Ok::<bool, String>(false) ==> (d matches Err(m) && m@ == "Kafka assignment "@ + (
        guard.topic@ + "["@ + decimal_int(guard.partition as int) + "]"@)
            + " was revoked during commit acknowledgement"@),
        assigned matches Err(text) ==> (c matches Err(m) && m@
            == "failed to inspect Kafka assignment before commit: "@ + text@),
        assigned matches Err(text) ==> (d matches Err(m) && m@
            == "failed to inspect Kafka assignment after commit: "@ + text@),
{
}

/// What is said of a partition that is not usable, of a topic.
pub open spec fn partition_told(
    topic: Seq<char>,
    partitions: Seq<PartitionReadinessMetadata>,
    i: int,
    m: Seq<char>,
) -> bool {
    let p = partitions[i];
    let head = "required Kafka topic '"@ + topic;
    let number = decimal_int(p.id as int);
    ||| p.id < 0 && m == head + "' has invalid partition id "@ + number
    ||| p.id >= 0 && (exists|j: int| 0 <= j < i && (#[trigger] partitions[j]).id == p.id) && m == head
        + "' has duplicate partition id "@ + number
    ||| p.error is Some && m == head + "' partition "@ + number + (" has metadata error "@
        + p.error->0@)
    ||| p.error is None && p.leader < 0 && m == head + "' partition "@ + number + " has no leader"@
}

proof fn lemma_partition_told(
    topic: Seq<char>,
    partitions: Seq<PartitionReadinessMetadata>,
    k: nat,
) -> (i: int)
    requires
        k <= partitions.len(),
        partitions_problem(topic, partitions, k) is Some,
    ensures
        0 <= i < k,
        partition_told(topic, partitions, i, partitions_problem(topic, partitions, k)->0),
    decreases k,
{
    if partitions_problem(topic, partitions, (k - 1) as nat) is Some {
        lemma_partition_told(topic, partitions, (k - 1) as nat)
    } else {
        assert(partition_problem(topic, partitions, k - 1) is Some);
        k - 1
    }
}

/// What is said of a topic that was required and is not usable.
pub open spec fn topic_told(topic: Seq<char>, observed: Seq<TopicReadinessMetadata>, m: Seq<char>) -> bool {
    let head = "required Kafka topic '"@ + topic;
    ||| m == head + "' is missing"@ && forall|i: int|
        0 <= i < observed.len() ==> (#[trigger] observed[i]).name@ != topic
    ||| m == "Kafka metadata contained duplicate entries for required topic '"@ + topic + "'"@
    ||| exists|i: int|
        #![trigger observed[i]]
        0 <= i < observed.len() && observed[i].name@ == topic && {
            ||| observed[i].error is Some && m == head + "' has metadata error "@
                + observed[i].error->0@
            ||| observed[i].partitions@.len() == 0 && m == head + "' has no partitions"@
            ||| exists|k: int|
                0 <= k < observed[i].partitions@.len() && #[trigger] partition_told(
                    topic,
                    observed[i].partitions@,
                    k,
                    m,
                )
        }
}

proof fn lemma_named(observed: Seq<TopicReadinessMetadata>, topic: Seq<char>, k: nat)
    requires
        k <= observed.len(),
    ensures
        named(observed, topic, k) == 0 ==> forall|i: int|
            0 <= i < k ==> (#[trigger] observed[i]).name@ != topic,
        named(observed, topic, k) > 0 ==> 0 <= crate::kafka::topics::last_named(observed, topic, k) < k
            && observed[crate::kafka::topics::last_named(observed, topic, k)].name@ == topic,
    decreases k,
{
    if k > 0 {
        lemma_named(observed, topic, (k - 1) as nat);
    }
}

proof fn lemma_topic_told(
    required: Seq<Seq<char>>,
    observed: Seq<TopicReadinessMetadata>,
    k: nat,
) -> (i: int)
    requires
        k <= required.len(),
        readiness_problem(required, observed, k) is Some,
    ensures
        0 <= i < k,
        topic_told(required[i], observed, readiness_problem(required, observed, k)->0)
            || readiness_problem(required, observed, k)->0 == "duplicate Kafka required topic '"@
            + required[i] + "'"@,
    decreases k,
{
    if readiness_problem(required, observed, (k - 1) as nat) is Some {
        lemma_topic_told(required, observed, (k - 1) as nat)
    } else {
        let topic = required[k - 1];
        lemma_named(observed, topic, observed.len());
        if named(observed, topic, observed.len()) == 1 {
            let o = crate::kafka::topics::last_named(observed, topic, observed.len());
            let found = observed[o];
            if found.error is None && found.partitions@.len() > 0 && partitions_problem(
                topic,
                found.partitions@,
                found.partitions@.len(),
            ) is Some {
                let p = lemma_partition_told(topic, found.partitions@, found.partitions@.len());
            }
        }
        k - 1
    }
}

/// Topics that are not ready are refused with the name of one that was required, and with
/// what is wrong with it or with one of its partitions.
pub proof fn law_topics_are_told(
    required: Vec<String>,
    observed: Vec<TopicReadinessMetadata>,
    m: String,
)
    requires
        call_ensures(
            validate_required_topic_metadata,
            (&required, &observed),
            Err::<(), String>(m),
        ),
    ensures
        exists|i: int|
            #![trigger required@[i]]
            0 <= i < required@.len() && (topic_told(required@[i]@, observed@, m@) || m@
                == "duplicate Kafka required topic '"@ + required@[i]@ + "'"@),
{
    let i = lemma_topic_told(views(required@), observed@, required@.len());
    assert(views(required@)[i] == required@[i]@);
}

/// A probe that took too long tells its deadline, one without brokers its topic, and a topic
/// that could not be created its name and the code.
pub proof fn law_probes_are_told(
    timeout: Duration,
    elapsed: Duration,
    a: Result<Duration, String>,
    topic: &str,
    brokers: usize,
    b: Result<(), String>,
    results: Vec<TopicCreation>,
    c: Result<(), String>,
)
    requires
        call_ensures(remaining_probe_time, (timeout, elapsed), a),
        call_ensures(check_probe_brokers, (topic, brokers), b),
        call_ensures(topics_ensured, (&results,), c),
    ensures
        a matches Err(m) ==> m@ == "Kafka required-topic probe exceeded its "@ + decimal(
            millis(timeout),
        ) + " ms deadline"@,
        b matches Err(m) ==> m@ == "Kafka metadata probe for topic '"@ + topic@
            + "' returned no brokers"@,
        c matches Err(m) ==> exists|i: int|
            #![trigger results@[i]]
            0 <= i < results@.len() && (results@[i] matches TopicCreation::Failed { topic: t, code }
                && m@ == "failed to ensure Kafka topic "@ + t@ + ": "@ + code@),
{
    if c is Err {
        let i = lemma_creation_told(results@);
    }
}

proof fn lemma_creation_told(results: Seq<TopicCreation>) -> (i: int)
    requires
        crate::kafka::topics::creation_problem(results) is Some,
    ensures
        0 <= i < results.len(),
        results[i] matches TopicCreation::Failed { topic: t, code }
            && crate::kafka::topics::creation_problem(results)->0
            == "failed to ensure Kafka topic "@ + t@ + ": "@ + code@,
    decreases results.len(),
{
    if results[0] is Failed {
        0
    } else {
        lemma_creation_told(results.skip(1)) + 1
    }
}

/// What is said of a scenario that breaks a limit: its name, and the numbers that the limit
/// is about.
pub open spec fn scenario_told(
    c: AppConfig,
    s: ScenarioFacts,
    l: ScenarioLimits,
    m: Seq<char>,
) -> bool {
    let head = "scenario '"@ + s.name@ + "'"@;
    ||| (is_blank(s.name@) || utf8_len(s.name@) > l.max_name_bytes) && m
        == "scenario name must be non-empty and at most "@ + decimal(l.max_name_bytes as nat)
        + " bytes"@
    ||| (s.steps@.len() == 0 || s.steps@.len() > l.max_steps) && m == head + (
    " must contain between 1 and "@ + decimal(l.max_steps as nat) + " steps"@)
    ||| s.identity_error is Some && m == head + (": "@ + s.identity_error->0@)
    ||| s.repeat matches RepeatPolicy::Every(interval) && nanos(interval) < nanos(s.duration) && m
        == head + (" repeat interval "@ + decimal(millis(interval)) + " ms is shorter than its "@
        + decimal(millis(s.duration))
        + " ms load window and would overlap global concurrency budgets"@)
    ||| nanos(s.duration) > nanos(c.max_duration) && m == head + (" duration "@ + decimal(
        millis(s.duration),
    ) + " ms exceeds PULSE_MAX_DURATION_MS="@ + decimal(millis(c.max_duration)))
    ||| c.startup_burst == 0 && s.below_one_arrival && m == head + (
    " window is shorter than one "@ + s.rate_text_fixed@
        + " SPS inter-arrival interval; increase duration or explicitly opt into PULSE_STARTUP_BURST"@)
    ||| (!s.rate.is_positive() || s.rate.greater(c.max_scenarios_per_sec)) && m == head + (" rate "@
        + s.rate_text@ + " is outside (0, PULSE_MAX_SCENARIOS_PER_SEC="@ + l.max_rate_text@ + "]"@)
    ||| (s.max_concurrency == 0 || s.max_concurrency > c.max_concurrency) && m == head + (
    " concurrency "@ + decimal(s.max_concurrency as nat) + " is outside [1, PULSE_MAX_CONCURRENCY="@
        + decimal(c.max_concurrency as nat) + "]"@)
    ||| c.startup_burst > s.max_concurrency && m == head + (" startup burst "@ + decimal(
        c.startup_burst as nat,
    ) + " exceeds its max concurrency "@ + decimal(s.max_concurrency as nat))
    ||| target_problem(c, s.endpoint@) matches Some(p) && m == head + (": "@ + (
    "invalid configuration for "@ + p.0 + ": "@ + p.1))
    ||| exists|i: int| 0 <= i < s.steps@.len() && #[trigger] step_told(c, s.name@, s.steps@[i], m)
}

/// What is said of a step that targets what it may not.
pub open spec fn step_told(c: AppConfig, name: Seq<char>, step: StepFacts, m: Seq<char>) -> bool {
    step.endpoint_override matches Some(endpoint) && (target_problem(c, endpoint@) matches Some(p)
        && m == "scenario '"@ + name + "'"@ + (" step '"@ + step.name@ + "': "@ + (
    "invalid configuration for "@ + p.0 + ": "@ + p.1)))
}

proof fn lemma_step_told(c: AppConfig, name: Seq<char>, steps: Seq<StepFacts>) -> (i: int)
    requires
        steps_problem(c, name, steps) is Some,
    ensures
        0 <= i < steps.len(),
        step_told(c, name, steps[i], steps_problem(c, name, steps)->0),
    decreases steps.len(),
{
    if steps[0].endpoint_override is Some && target_problem(
        c,
        steps[0].endpoint_override->0@,
    ) is Some {
        0
    } else {
        lemma_step_told(c, name, steps.skip(1)) + 1
    }
}

proof fn lemma_scenario_told(c: AppConfig, s: ScenarioFacts, l: ScenarioLimits)
    requires
        scenario_problem(c, s, l) is Some,
    ensures
        scenario_told(c, s, l, scenario_problem(c, s, l)->0),
{
    if steps_problem(c, s.name@, s.steps@) is Some {
        let i = lemma_step_told(c, s.name@, s.steps@);
    }
}

proof fn lemma_first_told(c: AppConfig, scenarios: Seq<ScenarioFacts>, l: ScenarioLimits) -> (i: int)
    requires
        first_problem(c, scenarios, l) is Some,
    ensures
        0 <= i < scenarios.len(),
        scenario_told(c, scenarios[i], l, first_problem(c, scenarios, l)->0),
    decreases scenarios.len(),
{
    if scenario_problem(c, scenarios[0], l) is Some {
        lemma_scenario_told(c, scenarios[0], l);
        0
    } else {
        lemma_first_told(c, scenarios.skip(1), l) + 1
    }
}

/// Scenarios that break a limit are refused with the name of one that does and with the
/// limit; a source with none or too many is refused with the number.
pub proof fn law_scenarios_are_told(
    c: AppConfig,
    scenarios: Vec<ScenarioFacts>,
    l: ScenarioLimits,
    m: String,
)
    requires
        call_ensures(validate_scenario_limits, (&c, &scenarios, &l), Err::<(), String>(m)),
    ensures
        scenarios@.len() == 0 ==> m@ == "scenario source contains zero scenarios"@,
        scenarios@.len() > l.max_scenarios && scenarios@.len() > 0 ==> m@
            == "scenario source contains "@ + decimal(scenarios@.len()) + " scenarios; maximum is "@
            + decimal(l.max_scenarios as nat),
        1 <= scenarios@.len() <= l.max_scenarios ==> exists|i: int|
            0 <= i < scenarios@.len() && #[trigger] scenario_told(c, scenarios@[i], l, m@),
{
    if 1 <= scenarios@.len() <= l.max_scenarios {
        let i = lemma_first_told(c, scenarios@, l);
    }
}

/// Whether an error tells that a value is not one of a kind: a text with its characters, and
/// every other value as JSON writes it.
pub open spec fn value_told(kind: Seq<char>, value: JsonValue, e: PulseError) -> bool {
    e matches PulseError::Client(m) && match value {
        JsonValue::Text { text, .. } => m@ == "expected "@ + kind + " string, got '"@ + text@ + "'"@,
        _ => m@ == "expected "@ + kind + " value, got "@ + in_json(value),
    }
}

/// A value as JSON writes it.
pub open spec fn in_json(value: JsonValue) -> Seq<char> {
    match value {
        JsonValue::Null => "null"@,
        JsonValue::Bool(b) => if b {
            "true"@
        } else {
            "false"@
        },
        JsonValue::Number { text, .. } => text@,
        JsonValue::Text { quoted, .. } => quoted@,
        JsonValue::Array { shown, .. } => shown@,
        JsonValue::Object { shown, .. } => shown@,
    }
}

/// A value that cannot be taken is told, with the kind that was asked for.
pub proof fn law_values_are_told(
    value: JsonValue,
    a: Result<i32, PulseError>,
    b: Result<i64, PulseError>,
    c: Result<u32, PulseError>,
    d: Result<u64, PulseError>,
    f: Result<u32, PulseError>,
    g: Result<u64, PulseError>,
)
    requires
        call_ensures(to_i32, (&value,), a),
        call_ensures(to_i64, (&value,), b),
        call_ensures(to_u32, (&value,), c),
        call_ensures(to_u64, (&value,), d),
        call_ensures(to_f32, (&value,), f),
        call_ensures(to_f64, (&value,), g),
    ensures
        a matches Err(e) ==> value_told("i32"@, value, e),
        b matches Err(e) ==> value_told("i64"@, value, e),
        c matches Err(e) ==> value_told("u32"@, value, e),
        d matches Err(e) ==> value_told("u64"@, value, e),
        f matches Err(e) ==> value_told("float"@, value, e),
        g matches Err(e) ==> value_told("double"@, value, e),
{
}

/// A value that is no flag, text or bytes is told too.
pub proof fn law_other_values_are_told(
    value: JsonValue,
    a: Result<bool, PulseError>,
    b: Result<String, PulseError>,
    c: Result<Vec<u8>, PulseError>,
)
    requires
        call_ensures(to_bool, (&value,), a),
        call_ensures(to_string_value, (&value,), b),
        call_ensures(to_bytes, (&value,), c),
    ensures
        a matches Err(e) ==> (e matches PulseError::Client(m) && m@
            == "expected boolean value, got "@ + in_json(value)),
        b matches Err(e) ==> (e matches PulseError::Client(m) && m@ == if value is Null {
            "null is not valid here"@
        } else {
            "object/array is not valid for scalar field"@
        }),
        !(value is Text) ==> (c matches Err(PulseError::Client(m)) && m@
            == "expected bytes field as string, got "@ + in_json(value)),
{
    reveal_strlit("expected ");
    reveal_strlit("boolean");
    reveal_strlit(" value, got ");
    reveal_strlit("expected boolean value, got ");
    assert("expected "@ + "boolean"@ + " value, got "@ =~= "expected boolean value, got "@);
}

/// A field that is written in a wrong way is told with both ways and its name.
pub proof fn law_ways_are_told(found: u8, expected: u8, field: FieldSchema, r: Result<(), PulseError>)
    requires
        call_ensures(ensure_wire_type, (found, expected, &field), r),
    ensures
        r is Ok <==> found == expected,
        r matches Err(e) ==> (e matches PulseError::Client(m) && m@ == "unexpected wire type "@
            + decimal(found as nat) + " for field '"@ + field.name@ + "' (expected "@ + decimal(
            expected as nat,
        ) + ")"@),
{
    let head = "unexpected wire type "@ + decimal(found as nat) + " for field '"@ + field.name@;
    let n = decimal(expected as nat);
    assert(head + "' (expected "@ + n + ")"@ =~= head + ("' (expected "@ + n + ")"@));
}

/// A message that is not known, or a value that is no message, is told with the name.
pub proof fn law_messages_are_told(
    name: &str,
    value: JsonValue,
    messages: TextMap<MessageSchema>,
    bytes: &[u8],
    r: Result<Vec<u8>, PulseError>,
    s: Result<ResponseValue, PulseError>,
)
    requires
        messages_wf(messages),
        holdable(bytes@),
        call_ensures(encode_message, (name, &value, &messages), r),
        call_ensures(decode_message, (name, bytes, &messages), s),
    ensures
        !messages@.dom().contains(name@) ==> (r matches Err(PulseError::Client(m)) && m@ == "message '"@
            + name@ + "' not found in descriptor set"@),
        !messages@.dom().contains(name@) ==> (s matches Err(PulseError::Client(m)) && m@ == "message '"@
            + name@ + "' not found in descriptor set"@),
        messages@.dom().contains(name@) && !(value is Object) ==> (r matches Err(
            PulseError::Client(m),
        ) && m@ == "request_fields for '"@ + name@ + "' must be a JSON object"@),
{
}

} // verus!
