//! Records that could not be processed: their evidence, their identities and the rules that
//! they keep when they are published.
use vstd::prelude::*;
use crate::byte_text::base64_bytes;
use crate::contracts::{ContractError, JobSlice};
use crate::kafka::dead_letter::{
    build_terminal_event_id, check_failed_job_key, check_job_for_publish, check_result_for_publish,
    validate_dlq_slice, validate_dlq_text, validated_failed_job, validated_poison,
    FailedScenarioJob,
};
use crate::kafka::evidence::{
    accept_decoded, bounded_dlq_reason, bounded_reason, build_poison_event_id,
    check_decoded_evidence, consumed_job_payload, consumed_record_size, consumed_result_payload,
    decode_job, decode_result, enforce_consumed_record_size, fitting, poison_record,
    poison_record_from_evidence, validate_poison_evidence_for_publish, BoundedPoisonEvidence,
    Decoded, PoisonMessageRecord,
};
use crate::text::{decimal, decimal_int, is_blank, opt_view, utf8_len};

verus! {

// ---------------------------------------------------------------------------
// Reasons
// ---------------------------------------------------------------------------

/// Whether a text is a reason as it is published: the reason itself where it has 1024 bytes
/// at most; else its beginning and a mark, together in 1024 bytes, where one character more
/// would be too much.
pub open spec fn cut_to_fit(reason: Seq<char>, text: Seq<char>) -> bool {
    if utf8_len(reason) <= 1024 {
        text == reason
    } else {
        exists|k: int|
            0 <= k < reason.len() && #[trigger] utf8_len(reason.take(k)) + 14 <= 1024 && utf8_len(
                reason.take(k + 1),
            ) + 14 > 1024 && text == reason.take(k) + "...[truncated]"@
    }
}

proof fn lemma_fitting_is_most(s: Seq<char>, limit: nat)
    requires
        utf8_len(s) > limit,
    ensures
        fitting(s, limit) < s.len(),
        utf8_len(s.take(fitting(s, limit) as int)) <= limit,
        utf8_len(s.take(fitting(s, limit) as int + 1)) > limit,
    decreases s.len(),
{
    assert(vstd::utf8::encode_utf8(Seq::<char>::empty()) =~= Seq::<u8>::empty());
    if s.len() == 0 {
        assert(s =~= Seq::<char>::empty());
    } else {
        let front = s.drop_last();
        assert(s.take(s.len() as int) =~= s);
        if front.len() == 0 {
            assert(front =~= Seq::<char>::empty());
            assert(fitting(s, limit) == fitting(front, limit));
            assert(s.take(0) =~= Seq::<char>::empty());
        } else if utf8_len(front) <= limit {
            assert(fitting(front, limit) == front.len());
            assert(fitting(s, limit) == front.len());
            assert(s.take(front.len() as int) =~= front);
        } else {
            lemma_fitting_is_most(front, limit);
            let k = fitting(front, limit) as int;
            assert(fitting(s, limit) == k);
            assert(s.take(k) =~= front.take(k));
            assert(s.take(k + 1) =~= front.take(k + 1));
        }
    }
}

proof fn lemma_cut_to_fit(reason: Seq<char>)
    ensures
        cut_to_fit(reason, bounded_reason(reason)),
{
    if utf8_len(reason) > 1024 {
        lemma_fitting_is_most(reason, 1010);
        let k = fitting(reason, 1010) as int;
        assert(utf8_len(reason.take(k)) + 14 <= 1024);
    }
}

/// A reason is cut only where it is too long, and then no more than needed.
pub proof fn law_bounded_reason(reason: String, r: String)
    requires
        call_ensures(bounded_dlq_reason, (reason,), r),
    ensures
        cut_to_fit(reason@, r@),
        utf8_len(r@) <= 1024,
{
    lemma_cut_to_fit(reason@);
    crate::kafka::evidence::lemma_bounded_reason_fits(reason@);
}

// ---------------------------------------------------------------------------
// Evidence
// ---------------------------------------------------------------------------

/// The evidence of a key or payload is its first 262144 bytes and its whole length.
pub proof fn law_capture(value: Option<&[u8]>, e: BoundedPoisonEvidence)
    requires
        call_ensures(BoundedPoisonEvidence::capture, (value,), e),
    ensures
        value is None ==> e.prefix is None && e.original_bytes is None && !e.truncated,
        value matches Some(bytes) ==> {
            &&& e.original_bytes == Some(bytes@.len() as u64)
            &&& e.truncated <==> bytes@.len() > 262_144
            &&& (e.prefix matches Some(p) && p@.is_prefix_of(bytes@) && p@.len() == (
            if bytes@.len() <= 262_144 {
                bytes@.len() as int
            } else {
                262_144
            }))
        },
{
}

/// How many bytes a key or payload has; none where it is missing.
pub open spec fn size_of(value: Option<&[u8]>) -> int {
    match value {
        Some(bytes) => bytes@.len() as int,
        None => 0,
    }
}

/// The size of a record is that of its key and its payload together, and one that is larger
/// than the limit is malformed.
pub proof fn law_record_size(
    key: Option<&[u8]>,
    payload: Option<&[u8]>,
    limit: usize,
    size: Result<usize, ContractError>,
    r: Result<(), ContractError>,
)
    requires
        call_ensures(consumed_record_size, (key, payload), size),
        call_ensures(enforce_consumed_record_size, (key, payload, limit), r),
    ensures
        size is Ok <==> size_of(key) + size_of(payload) <= usize::MAX,
        size matches Ok(n) ==> n == size_of(key) + size_of(payload),
        size matches Err(e) ==> e is Malformed,
        r is Ok <==> size_of(key) + size_of(payload) <= limit,
        r matches Err(e) ==> e is Malformed,
{
}

/// A record that is small enough is decoded from its payload; without one it is malformed.
pub proof fn law_payload(
    key: Option<&[u8]>,
    payload: Option<&[u8]>,
    limit: usize,
    job: Result<&[u8], ContractError>,
    result: Result<&[u8], ContractError>,
)
    requires
        call_ensures(consumed_job_payload, (key, payload, limit), job),
        call_ensures(consumed_result_payload, (key, payload, limit), result),
    ensures
        job is Ok <==> payload is Some && size_of(key) + size_of(payload) <= limit,
        job matches Ok(bytes) ==> payload == Some(bytes),
        job matches Err(e) ==> e is Malformed,
        result is Ok <==> payload is Some && size_of(key) + size_of(payload) <= limit,
        result matches Ok(bytes) ==> payload == Some(bytes),
        result matches Err(e) ==> e is Malformed,
{
}

/// What was decoded is accepted as it is where its contract is kept; else the error of the
/// contract comes out.
pub proof fn law_decoded<T>(
    kind: &str,
    decoded: Decoded<T>,
    r: Result<T, ContractError>,
    job: Result<T, ContractError>,
    result: Result<T, ContractError>,
)
    requires
        call_ensures(accept_decoded::<T>, (kind, decoded), r),
        call_ensures(decode_job::<T>, (decoded,), job),
        call_ensures(decode_result::<T>, (decoded,), result),
    ensures
        decoded matches Decoded::Value(value, Ok(_)) ==> r == Ok::<T, ContractError>(value) && job
            == r && result == r,
        decoded matches Decoded::Value(value, Err(c)) ==> r == Err::<T, ContractError>(c) && job
            == r && result == r,
        decoded matches Decoded::NotJson(m) ==> {
            &&& (r matches Err(ContractError::Malformed(text)) && text@ == "invalid "@ + kind@
                + " JSON: "@ + m@)
            &&& (job matches Err(ContractError::Malformed(text)) && text@
                == "invalid "@ + "scenario job"@ + " JSON: "@ + m@)
            &&& (result matches Err(ContractError::Malformed(text)) && text@
                == "invalid "@ + "scenario result"@ + " JSON: "@ + m@)
        },
{
}

// ---------------------------------------------------------------------------
// Identities
// ---------------------------------------------------------------------------

/// The identity of a poison record names the topic, the partition and the offset; that of
/// the end of an attempt names the execution, the attempt and the kind of the end.
pub proof fn law_event_ids(
    topic: &str,
    partition: i32,
    offset: i64,
    poison: String,
    execution: &str,
    attempt: u32,
    kind: &str,
    terminal: String,
)
    requires
        call_ensures(build_poison_event_id, (topic, partition, offset), poison),
        call_ensures(build_terminal_event_id, (execution, attempt, kind), terminal),
    ensures
        poison@ == "poison:"@ + topic@ + ":"@ + decimal_int(partition as int) + ":"@ + decimal_int(
            offset as int,
        ),
        terminal@ == execution@ + ":attempt-"@ + decimal(attempt as nat) + ":"@ + kind@,
{
    assert(poison@ =~= "poison:"@ + topic@ + ":"@ + decimal_int(partition as int) + ":"@
        + decimal_int(offset as int));
}

// ---------------------------------------------------------------------------
// Rules
// ---------------------------------------------------------------------------

/// Whether a text of a record is one that can be published: not blank, and of 1024 bytes at
/// most.
pub open spec fn text_fits(text: Seq<char>) -> bool {
    !is_blank(text) && utf8_len(text) <= 1024
}

/// A text or a slice of a record is checked.
pub proof fn law_record_parts(
    field: &str,
    text: &str,
    checked: Result<(), String>,
    slice: JobSlice,
    counted: Result<(), String>,
)
    requires
        call_ensures(validate_dlq_text, (field, text), checked),
        call_ensures(validate_dlq_slice, (&slice,), counted),
    ensures
        checked is Ok <==> text_fits(text@),
        checked matches Err(m) ==> m@ == "refusing to publish DLQ record with invalid "@ + field@,
        counted is Ok <==> slice.index < slice.total && slice.total <= 4096,
{
}

/// Whether a failed job can be published.
pub open spec fn job_sound(job: FailedScenarioJob, reason: Seq<char>) -> bool {
    &&& text_fits(job.scenario_id@)
    &&& text_fits(job.run_id@)
    &&& text_fits(job.execution_key@)
    &&& text_fits(reason)
    &&& job.slice.index < job.slice.total
    &&& job.slice.total <= 4096
    &&& job.attempt <= job.max_retries
    &&& job.max_retries <= 32
    &&& job.schema_version >= 2 ==> text_fits(job.event_id@) && job.event_id@
        == job.execution_key@ + ":attempt-"@ + decimal(job.attempt as nat) + ":"@ + "dlq"@
}

/// A failed job is published as it is but for the length of its reason, exactly where its
/// version is known and it keeps the rules.
pub proof fn law_failed_job(
    job: FailedScenarioJob,
    version: Result<(), String>,
    r: Result<FailedScenarioJob, String>,
)
    requires
        call_ensures(validated_failed_job, (job, version), r),
    ensures
        exists|reason: Seq<char>| #[trigger]
            cut_to_fit(job.reason@, reason) && (r is Ok <==> version is Ok && job_sound(job, reason)),
        r matches Ok(out) ==> {
            &&& out.schema_version == job.schema_version
            &&& out.event_id == job.event_id
            &&& out.scenario_id == job.scenario_id
            &&& out.run_id == job.run_id
            &&& out.execution_key == job.execution_key
            &&& out.slice == job.slice
            &&& out.failed_at_unix_ms == job.failed_at_unix_ms
            &&& out.attempt == job.attempt
            &&& out.max_retries == job.max_retries
            &&& cut_to_fit(job.reason@, out.reason@)
        },
{
    lemma_cut_to_fit(job.reason@);
    assert(cut_to_fit(job.reason@, bounded_reason(job.reason@)) && (r is Ok <==> version is Ok
        && job_sound(job, bounded_reason(job.reason@))));
}

/// Jobs and results are published where their contract is kept, and a failed job only under
/// its own key.
pub proof fn law_published_records(
    contract: Result<(), String>,
    job: Result<(), String>,
    result: Result<(), String>,
    key: &str,
    failed: FailedScenarioJob,
    keyed: Result<(), String>,
)
    requires
        call_ensures(check_job_for_publish, (contract,), job),
        call_ensures(check_result_for_publish, (contract,), result),
        call_ensures(check_failed_job_key, (key, &failed), keyed),
    ensures
        job is Ok <==> contract is Ok,
        result is Ok <==> contract is Ok,
        contract matches Err(m) ==> (job matches Err(t) && t@
            == "refusing to publish invalid "@ + "scenario job"@ + (": "@ + m@)),
        contract matches Err(m) ==> (result matches Err(t) && t@
            == "refusing to publish invalid "@ + "scenario result"@ + (": "@ + m@)),
        keyed is Ok <==> key@ == failed.execution_key@,
{
}

/// Whether three fields are evidence that can be published: nothing at all; or bytes, at most
/// 262144 of them, with their number, which is that of the bytes exactly where nothing was
/// cut off. Before the second version the number could be left out.
pub open spec fn evidence_sound(
    version: u16,
    decoded: Result<Seq<u8>, Seq<char>>,
    original: Option<u64>,
    truncated: bool,
) -> bool {
    decoded matches Ok(bytes) && bytes.len() <= 262_144 && match original {
        Some(n) => if truncated {
            n > bytes.len()
        } else {
            n == bytes.len()
        },
        None => version < 2 && !truncated,
    }
}

/// The same of a base64 text that may be missing.
pub open spec fn encoded_sound(
    version: u16,
    encoded: Option<Seq<char>>,
    original: Option<u64>,
    truncated: bool,
) -> bool {
    match encoded {
        None => original is None && !truncated,
        Some(text) => utf8_len(text) <= 349_528 && evidence_sound(
            version,
            base64_bytes(text),
            original,
            truncated,
        ),
    }
}

/// What was decoded from evidence is checked against its length.
pub proof fn law_decoded_evidence(
    version: u16,
    field: &str,
    decoded: Result<Vec<u8>, String>,
    original: Option<u64>,
    truncated: bool,
    r: Result<(), String>,
)
    requires
        call_ensures(check_decoded_evidence, (version, field, decoded, original, truncated), r),
    ensures
        decoded matches Ok(bytes) ==> (r is Ok <==> evidence_sound(
            version,
            Ok(bytes@),
            original,
            truncated,
        )),
        decoded is Err ==> r is Err,
{
}

/// Evidence is checked with the text that it is written in.
pub proof fn law_evidence(
    version: u16,
    field: &str,
    encoded: Option<&String>,
    original: Option<u64>,
    truncated: bool,
    r: Result<(), String>,
)
    requires
        call_ensures(
            validate_poison_evidence_for_publish,
            (version, field, encoded, original, truncated),
            r,
        ),
    ensures
        encoded is None ==> (r is Ok <==> original is None && !truncated),
        encoded matches Some(text) ==> (r is Ok <==> encoded_sound(
            version,
            Some(text@),
            original,
            truncated,
        )),
{
}

/// A poison record is published as it is but for the length of its reason, exactly where its
/// version is known, it says where it came from, and its evidence is sound.
pub proof fn law_poison(
    record: PoisonMessageRecord,
    version: Result<(), String>,
    r: Result<PoisonMessageRecord, String>,
)
    requires
        call_ensures(validated_poison, (record, version), r),
    ensures
        exists|reason: Seq<char>| #[trigger]
            cut_to_fit(record.reason@, reason) && (r is Ok <==> {
                &&& version is Ok
                &&& text_fits(record.event_id@)
                &&& text_fits(record.source_topic@)
                &&& text_fits(reason)
                &&& record.source_partition >= 0
                &&& record.source_offset >= 0
                &&& record.event_id@ == "poison:"@ + record.source_topic@ + ":"@ + decimal(
                    record.source_partition as nat,
                ) + ":"@ + decimal(record.source_offset as nat)
                &&& encoded_sound(
                    record.schema_version,
                    opt_view(record.source_key_base64),
                    record.source_key_original_bytes,
                    record.source_key_truncated,
                )
                &&& encoded_sound(
                    record.schema_version,
                    opt_view(record.payload_base64),
                    record.payload_original_bytes,
                    record.payload_truncated,
                )
            }),
        r matches Ok(out) ==> {
            &&& out.schema_version == record.schema_version
            &&& out.event_id == record.event_id
            &&& out.failed_at_unix_ms == record.failed_at_unix_ms
            &&& out.source_topic == record.source_topic
            &&& out.source_partition == record.source_partition
            &&& out.source_offset == record.source_offset
            &&& out.source_key_base64 == record.source_key_base64
            &&& out.source_key_original_bytes == record.source_key_original_bytes
            &&& out.source_key_truncated == record.source_key_truncated
            &&& out.payload_base64 == record.payload_base64
            &&& out.payload_original_bytes == record.payload_original_bytes
            &&& out.payload_truncated == record.payload_truncated
            &&& cut_to_fit(record.reason@, out.reason@)
        },
{
    lemma_cut_to_fit(record.reason@);
    let reason = bounded_reason(record.reason@);
    assert(cut_to_fit(record.reason@, reason));
    assert("poison:"@ + record.source_topic@ + ":"@ + decimal_int(record.source_partition as int)
        + (":"@ + decimal_int(record.source_offset as int)) =~= "poison:"@ + record.source_topic@
        + ":"@ + decimal_int(record.source_partition as int) + ":"@ + decimal_int(
        record.source_offset as int,
    ));
}

/// Whether fields show a value: from the base64 text come its first 262144 bytes, beside it
/// stand its length and whether bytes were left out.
pub open spec fn shown(
    text: Option<String>,
    original: Option<u64>,
    truncated: bool,
    value: Option<&[u8]>,
) -> bool {
    match value {
        None => text is None && original is None && !truncated,
        Some(bytes) => {
            &&& original == Some(bytes@.len() as u64)
            &&& truncated <==> bytes@.len() > 262_144
            &&& text is Some
            &&& base64_bytes(text->0@) is Ok
            &&& base64_bytes(text->0@)->Ok_0 == bytes@.take(
                if bytes@.len() <= 262_144 {
                    bytes@.len() as int
                } else {
                    262_144
                },
            )
        },
    }
}

/// The record of a message that could not be processed shows its key and its payload and says
/// where it came from.
pub proof fn law_poison_record(
    topic: &str,
    partition: i32,
    offset: i64,
    key: Option<&[u8]>,
    payload: Option<&[u8]>,
    reason: String,
    now: u128,
    r: PoisonMessageRecord,
)
    requires
        call_ensures(poison_record, (topic, partition, offset, key, payload, reason, now), r),
    ensures
        r.schema_version == 2,
        r.event_id@ == "poison:"@ + topic@ + ":"@ + decimal_int(partition as int) + ":"@
            + decimal_int(offset as int),
        r.failed_at_unix_ms == now,
        r.source_topic@ == topic@,
        r.source_partition == partition,
        r.source_offset == offset,
        cut_to_fit(reason@, r.reason@),
        shown(r.source_key_base64, r.source_key_original_bytes, r.source_key_truncated, key),
        shown(r.payload_base64, r.payload_original_bytes, r.payload_truncated, payload),
{
    lemma_cut_to_fit(reason@);
    assert(r.event_id@ =~= "poison:"@ + topic@ + ":"@ + decimal_int(partition as int) + ":"@
        + decimal_int(offset as int));
}

/// The same of evidence that was captured before.
pub proof fn law_poison_record_from_evidence(
    topic: &str,
    partition: i32,
    offset: i64,
    key: BoundedPoisonEvidence,
    payload: BoundedPoisonEvidence,
    reason: String,
    now: u128,
    r: PoisonMessageRecord,
)
    requires
        call_ensures(
            poison_record_from_evidence,
            (topic, partition, offset, &key, &payload, reason, now),
            r,
        ),
    ensures
        r.schema_version == 2,
        r.event_id@ == "poison:"@ + topic@ + ":"@ + decimal_int(partition as int) + ":"@
            + decimal_int(offset as int),
        r.failed_at_unix_ms == now,
        r.source_topic@ == topic@,
        r.source_partition == partition,
        r.source_offset == offset,
        cut_to_fit(reason@, r.reason@),
        r.source_key_base64 is Some <==> key.prefix is Some,
        key.prefix matches Some(bytes) ==> base64_bytes(r.source_key_base64->0@) == Ok::<
            Seq<u8>,
            Seq<char>,
        >(bytes@),
        r.source_key_original_bytes == key.original_bytes,
        r.source_key_truncated == key.truncated,
        r.payload_base64 is Some <==> payload.prefix is Some,
        payload.prefix matches Some(bytes) ==> base64_bytes(r.payload_base64->0@) == Ok::<
            Seq<u8>,
            Seq<char>,
        >(bytes@),
        r.payload_original_bytes == payload.original_bytes,
        r.payload_truncated == payload.truncated,
{
    lemma_cut_to_fit(reason@);
    assert(r.event_id@ =~= "poison:"@ + topic@ + ":"@ + decimal_int(partition as int) + ":"@
        + decimal_int(offset as int));
}

} // verus!
