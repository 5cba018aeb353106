//! Records that are published, and the rules that they keep.
use vstd::prelude::*;
use super::evidence::{
    bounded_dlq_reason, build_poison_event_id, validate_poison_evidence_for_publish,
    PoisonMessageRecord,
};
#[allow(unused_imports)]
use super::evidence::{bounded_reason, key_problem, payload_problem, poison_event_id};
use super::settings::reports;
#[allow(unused_imports)]
use super::settings::first;
use crate::contracts::{JobSlice, MAX_CONTRACT_ATTEMPT, MAX_CONTRACT_ID_BYTES, MAX_CONTRACT_SLICES};
use crate::text::{blank, byte_len, concat2, concat5, copy_str, decimal_u64, str_eq};
#[allow(unused_imports)]
use crate::text::{decimal, is_blank, utf8_len};

verus! {

/// A job that failed for good, as it is published.
#[derive(Debug)]
pub struct FailedScenarioJob {
    pub schema_version: u16,
    pub event_id: String,
    pub scenario_id: String,
    pub run_id: String,
    pub execution_key: String,
    pub slice: JobSlice,
    pub failed_at_unix_ms: u128,
    pub attempt: u32,
    pub max_retries: u32,
    pub reason: String,
}

/// The identity of the event that ends an attempt.
pub open spec fn terminal_event_id(execution_key: Seq<char>, attempt: u32, kind: Seq<char>) -> Seq<
    char,
> {
    execution_key + ":attempt-"@ + decimal(attempt as nat) + ":"@ + kind
}

/// The identity of the event that ends an attempt.
pub fn build_terminal_event_id(execution_key: &str, attempt: u32, kind: &str) -> (id: String)
    ensures
        id@ == terminal_event_id(execution_key@, attempt, kind@),
{
    concat5(execution_key, ":attempt-", &decimal_u64(attempt as u64), ":", kind)
}

/// What is wrong with a text of a dead letter.
pub open spec fn text_problem(field: Seq<char>, value: Seq<char>) -> Option<Seq<char>> {
    if is_blank(value) || utf8_len(value) > MAX_CONTRACT_ID_BYTES {
        Some("refusing to publish DLQ record with invalid "@ + field)
    } else {
        None
    }
}

/// Checks a text of a dead letter.
pub fn validate_dlq_text(field: &str, value: &str) -> (r: Result<(), String>)
    ensures
        reports(r, text_problem(field@, value@)),
{
    if blank(value) || byte_len(value) > MAX_CONTRACT_ID_BYTES {
        return Err(concat2("refusing to publish DLQ record with invalid ", field));
    }
    Ok(())
}

/// What is wrong with the slice of a failed job.
pub open spec fn slice_problem(slice: JobSlice) -> Option<Seq<char>> {
    if slice.total == 0 || slice.total > MAX_CONTRACT_SLICES || slice.index >= slice.total {
        Some("refusing to publish failed job with invalid slice metadata"@)
    } else {
        None
    }
}

/// Checks the slice of a failed job.
pub fn validate_dlq_slice(slice: &JobSlice) -> (r: Result<(), String>)
    ensures
        reports(r, slice_problem(*slice)),
{
    if slice.total == 0 || slice.total > MAX_CONTRACT_SLICES || slice.index >= slice.total {
        return Err(copy_str("refusing to publish failed job with invalid slice metadata"));
    }
    Ok(())
}

/// What a refused contract means for what is published, with the error in words.
pub open spec fn contract_problem(what: Seq<char>, contract: Result<(), String>) -> Option<Seq<char>> {
    match contract {
        Ok(_) => None,
        Err(m) => Some("refusing to publish invalid "@ + what + (": "@ + m@)),
    }
}

fn check_contract(what: &str, contract: Result<(), String>) -> (r: Result<(), String>)
    ensures
        reports(r, contract_problem(what@, contract)),
{
    match contract {
        Ok(_) => Ok(()),
        Err(m) => {
            let head = concat2("refusing to publish invalid ", what);
            let tail = concat2(": ", &m);
            Err(concat2(&head, &tail))
        },
    }
}

/// Checks a job that is to be published, given what its contract says of it.
pub fn check_job_for_publish(contract: Result<(), String>) -> (r: Result<(), String>)
    ensures
        reports(r, contract_problem("scenario job"@, contract)),
{
    check_contract("scenario job", contract)
}

/// Checks a result that is to be published, given what its contract says of it.
pub fn check_result_for_publish(contract: Result<(), String>) -> (r: Result<(), String>)
    ensures
        reports(r, contract_problem("scenario result"@, contract)),
{
    check_contract("scenario result", contract)
}

/// What is wrong with the identity of a failed job's event; contracts before the
/// second had none.
pub open spec fn failed_identity_problem(job: FailedScenarioJob) -> Option<Seq<char>> {
    if job.schema_version >= 2 {
        first(
            text_problem("event_id"@, job.event_id@),
            if job.event_id@ != terminal_event_id(job.execution_key@, job.attempt, "dlq"@) {
                Some("refusing to publish failed job with a non-deterministic event_id"@)
            } else {
                None
            },
        )
    } else {
        None
    }
}

/// The first rule that a failed job breaks, given what is said of its contract
/// version.
pub open spec fn failed_job_problem(job: FailedScenarioJob, version: Result<(), String>) -> Option<
    Seq<char>,
> {
    first(
        contract_problem("failed job"@, version),
        first(
            text_problem("scenario_id"@, job.scenario_id@),
            first(
                text_problem("run_id"@, job.run_id@),
                first(
                    text_problem("execution_key"@, job.execution_key@),
                    first(
                        text_problem("reason"@, bounded_reason(job.reason@)),
                        first(
                            slice_problem(job.slice),
                            if job.attempt > job.max_retries || job.max_retries
                                > MAX_CONTRACT_ATTEMPT {
                                Some(
                                    "refusing to publish failed job with invalid attempt metadata"@,
                                )
                            } else {
                                failed_identity_problem(job)
                            },
                        ),
                    ),
                ),
            ),
        ),
    )
}

/// Whether two failed jobs differ in the reason only.
pub open spec fn same_but_for_the_reason(a: FailedScenarioJob, b: FailedScenarioJob) -> bool {
    &&& a.schema_version == b.schema_version
    &&& a.event_id == b.event_id
    &&& a.scenario_id == b.scenario_id
    &&& a.run_id == b.run_id
    &&& a.execution_key == b.execution_key
    &&& a.slice == b.slice
    &&& a.failed_at_unix_ms == b.failed_at_unix_ms
    &&& a.attempt == b.attempt
    &&& a.max_retries == b.max_retries
}

/// A failed job as it is published: with a bounded reason, where it keeps the
/// rules. `version` says whether its contract version is known.
pub fn validated_failed_job(job: FailedScenarioJob, version: Result<(), String>) -> (r: Result<
    FailedScenarioJob,
    String,
>)
    ensures
        reports(r, failed_job_problem(job, version)),
        r matches Ok(out) ==> same_but_for_the_reason(out, job) && out.reason@ == bounded_reason(
            job.reason@,
        ),
{
    let mut job = job;
    job.reason = bounded_dlq_reason(job.reason);
    check_contract("failed job", version)?;
    validate_dlq_text("scenario_id", &job.scenario_id)?;
    validate_dlq_text("run_id", &job.run_id)?;
    validate_dlq_text("execution_key", &job.execution_key)?;
    validate_dlq_text("reason", &job.reason)?;
    validate_dlq_slice(&job.slice)?;
    if job.attempt > job.max_retries || job.max_retries > MAX_CONTRACT_ATTEMPT {
        return Err(
            copy_str("refusing to publish failed job with invalid attempt metadata"),
        );
    }
    if job.schema_version >= 2 {
        validate_dlq_text("event_id", &job.event_id)?;
        let expected = build_terminal_event_id(&job.execution_key, job.attempt, "dlq");
        if !str_eq(&job.event_id, &expected) {
            return Err(
                copy_str("refusing to publish failed job with a non-deterministic event_id"),
            );
        }
    }
    Ok(job)
}

/// Checks that a failed job is published under its own key.
pub fn check_failed_job_key(key: &str, job: &FailedScenarioJob) -> (r: Result<(), String>)
    ensures
        reports(
            r,
            if key@ != job.execution_key@ {
                Some("refusing to publish failed job under a non-execution key"@)
            } else {
                None
            },
        ),
{
    if !str_eq(key, &job.execution_key) {
        return Err(copy_str("refusing to publish failed job under a non-execution key"));
    }
    Ok(())
}

/// The first rule that a poison record breaks, given what is said of its contract
/// version.
pub open spec fn poison_problem(record: PoisonMessageRecord, version: Result<(), String>) -> Option<
    Seq<char>,
> {
    first(
        contract_problem("poison record"@, version),
        first(
            text_problem("event_id"@, record.event_id@),
            first(
                text_problem("source_topic"@, record.source_topic@),
                first(
                    text_problem("reason"@, bounded_reason(record.reason@)),
                    if record.source_partition < 0 || record.source_offset < 0 {
                        Some("refusing to publish poison record with invalid source coordinates"@)
                    } else if record.event_id@ != poison_event_id(
                        record.source_topic@,
                        record.source_partition,
                        record.source_offset,
                    ) {
                        Some(
                            "refusing to publish poison record with a non-deterministic event_id"@,
                        )
                    } else {
                        first(key_problem(record), payload_problem(record))
                    },
                ),
            ),
        ),
    )
}

/// Whether two poison records differ in the reason only.
pub open spec fn same_poison_but_for_the_reason(
    a: PoisonMessageRecord,
    b: PoisonMessageRecord,
) -> bool {
    &&& a.schema_version == b.schema_version
    &&& a.event_id == b.event_id
    &&& a.failed_at_unix_ms == b.failed_at_unix_ms
    &&& a.source_topic == b.source_topic
    &&& a.source_partition == b.source_partition
    &&& a.source_offset == b.source_offset
    &&& a.source_key_base64 == b.source_key_base64
    &&& a.source_key_original_bytes == b.source_key_original_bytes
    &&& a.source_key_truncated == b.source_key_truncated
    &&& a.payload_base64 == b.payload_base64
    &&& a.payload_original_bytes == b.payload_original_bytes
    &&& a.payload_truncated == b.payload_truncated
}

/// A poison record as it is published: with a bounded reason, where it keeps the
/// rules. `version` says whether its contract version is known.
pub fn validated_poison(record: PoisonMessageRecord, version: Result<(), String>) -> (r: Result<
    PoisonMessageRecord,
    String,
>)
    ensures
        reports(r, poison_problem(record, version)),
        r matches Ok(out) ==> same_poison_but_for_the_reason(out, record) && out.reason@
            == bounded_reason(record.reason@),
{
    let mut record = record;
    record.reason = bounded_dlq_reason(record.reason);
    check_contract("poison record", version)?;
    validate_dlq_text("event_id", &record.event_id)?;
    validate_dlq_text("source_topic", &record.source_topic)?;
    validate_dlq_text("reason", &record.reason)?;
    if record.source_partition < 0 || record.source_offset < 0 {
        return Err(
            copy_str("refusing to publish poison record with invalid source coordinates"),
        );
    }
    let expected = build_poison_event_id(
        &record.source_topic,
        record.source_partition,
        record.source_offset,
    );
    if !str_eq(&record.event_id, &expected) {
        return Err(
            copy_str("refusing to publish poison record with a non-deterministic event_id"),
        );
    }
    validate_poison_evidence_for_publish(
        record.schema_version,
        "source_key",
        record.source_key_base64.as_ref(),
        record.source_key_original_bytes,
        record.source_key_truncated,
    )?;
    validate_poison_evidence_for_publish(
        record.schema_version,
        "payload",
        record.payload_base64.as_ref(),
        record.payload_original_bytes,
        record.payload_truncated,
    )?;
    Ok(record)
}

/// Publishing a poison record that was published before changes nothing: the
/// record that is published keeps the rules itself, and its reason stays as it is.
pub proof fn lemma_published_poison_stays(
    record: PoisonMessageRecord,
    out: PoisonMessageRecord,
    version: Result<(), String>,
)
    requires
        poison_problem(record, version) is None,
        same_poison_but_for_the_reason(out, record),
        out.reason@ == bounded_reason(record.reason@),
    ensures
        poison_problem(out, version) is None,
        bounded_reason(out.reason@) == out.reason@,
        utf8_len(out.reason@) <= MAX_CONTRACT_ID_BYTES,
{
    super::evidence::lemma_bounded_reason_fits(record.reason@);
}

} // verus!
