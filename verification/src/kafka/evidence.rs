//! Evidence of records that cannot be processed.
use vstd::prelude::*;
use super::settings::reports;
use crate::byte_text::{decode_base64, encode_base64};
#[allow(unused_imports)]
use crate::byte_text::{base64_bytes, base64_len, base64_text};
use crate::contracts::{
    ContractError, CURRENT_CONTRACT_VERSION, MAX_CONTRACT_ID_BYTES, MAX_POISON_EVIDENCE_FIELD_BYTES,
};
use crate::text::{
    byte_len, chars_of, concat2, concat3, concat4, concat5, copy_str, decimal_i64, decimal_usize,
    string_of,
};
#[allow(unused_imports)]
use crate::text::{decimal, decimal_int, lemma_utf8_concat, opt_view, utf8_len};

verus! {

/// What a reason that was cut ends with.
pub const POISON_REASON_TRUNCATION_MARKER: &'static str = "...[truncated]";

// ---------------------------------------------------------------------------
// Reasons
// ---------------------------------------------------------------------------

/// How many characters of a text fit into so many bytes.
pub open spec fn fitting(s: Seq<char>, limit: nat) -> nat
    decreases s.len(),
{
    if s.len() == 0 {
        0
    } else if utf8_len(s) <= limit {
        s.len()
    } else {
        fitting(s.drop_last(), limit)
    }
}

/// A reason that fits a record: the whole of a short one, and of a long one as many
/// characters as fit before the mark.
pub open spec fn bounded_reason(reason: Seq<char>) -> Seq<char> {
    if utf8_len(reason) <= MAX_CONTRACT_ID_BYTES {
        reason
    } else {
        reason.take(
            fitting(reason, (MAX_CONTRACT_ID_BYTES - 14) as nat) as int,
        ) + POISON_REASON_TRUNCATION_MARKER@
    }
}

/// The bytes of the UTF-8 form of a character.
pub open spec fn char_width(c: char) -> nat {
    vstd::utf8::encode_scalar(c as u32).len()
}

fn width_of(c: char) -> (n: usize)
    ensures
        n == char_width(c),
        1 <= n <= 4,
{
    let u: u32 = c as u32;
    if u <= 0x7f {
        1
    } else if u <= 0x7ff {
        2
    } else if u <= 0xffff {
        3
    } else {
        4
    }
}

proof fn lemma_utf8_push(s: Seq<char>, k: int)
    requires
        0 <= k < s.len(),
    ensures
        utf8_len(s.take(k + 1)) == utf8_len(s.take(k)) + char_width(s[k]),
{
    let one = seq![s[k]];
    assert(s.take(k + 1) =~= s.take(k) + one);
    lemma_utf8_concat(s.take(k), one);
    assert(one.drop_first() =~= Seq::<char>::empty());
    assert(vstd::utf8::encode_utf8(Seq::<char>::empty()) =~= Seq::<u8>::empty());
    assert(vstd::utf8::encode_utf8(one) =~= vstd::utf8::encode_scalar(s[k] as u32));
}

proof fn lemma_utf8_prefix(s: Seq<char>, k: int)
    requires
        0 <= k <= s.len(),
    ensures
        utf8_len(s.take(k)) <= utf8_len(s),
{
    assert(s =~= s.take(k) + s.skip(k));
    lemma_utf8_concat(s.take(k), s.skip(k));
}

proof fn lemma_fitting(s: Seq<char>, limit: nat, k: int)
    requires
        0 <= k <= s.len(),
        utf8_len(s.take(k)) <= limit,
        k < s.len() ==> utf8_len(s.take(k + 1)) > limit,
    ensures
        fitting(s, limit) == k,
    decreases s.len(),
{
    if k == s.len() {
        assert(s.take(k) =~= s);
    } else {
        lemma_utf8_prefix(s, k + 1);
        let shorter = s.drop_last();
        assert(shorter.take(k) =~= s.take(k));
        if k < shorter.len() {
            assert(shorter.take(k + 1) =~= s.take(k + 1));
        }
        lemma_fitting(shorter, limit, k);
    }
}

proof fn lemma_fitting_bounds(s: Seq<char>, limit: nat)
    ensures
        fitting(s, limit) <= s.len(),
        utf8_len(s.take(fitting(s, limit) as int)) <= limit,
    decreases s.len(),
{
    if s.len() == 0 {
        assert(s.take(0) =~= Seq::<char>::empty());
        assert(vstd::utf8::encode_utf8(Seq::<char>::empty()) =~= Seq::<u8>::empty());
    } else if utf8_len(s) <= limit {
        assert(s.take(s.len() as int) =~= s);
    } else {
        lemma_fitting_bounds(s.drop_last(), limit);
        assert(s.drop_last().take(fitting(s, limit) as int) =~= s.take(fitting(s, limit) as int));
    }
}

proof fn lemma_marker_len()
    ensures
        utf8_len(POISON_REASON_TRUNCATION_MARKER@) == 14,
{
    reveal_strlit("...[truncated]");
    let marker = POISON_REASON_TRUNCATION_MARKER@;
    assert(marker.len() == 14);
    assert(vstd::utf8::is_ascii_chars(marker));
    vstd::utf8::is_ascii_chars_encode_utf8(marker);
}

/// A bounded reason fits a record, and bounding it again changes nothing.
pub proof fn lemma_bounded_reason_fits(reason: Seq<char>)
    ensures
        utf8_len(bounded_reason(reason)) <= MAX_CONTRACT_ID_BYTES,
        bounded_reason(bounded_reason(reason)) == bounded_reason(reason),
{
    if utf8_len(reason) > MAX_CONTRACT_ID_BYTES {
        let limit = (MAX_CONTRACT_ID_BYTES - 14) as nat;
        lemma_fitting_bounds(reason, limit);
        lemma_marker_len();
        lemma_utf8_concat(
            reason.take(fitting(reason, limit) as int),
            POISON_REASON_TRUNCATION_MARKER@,
        );
    }
}

/// A reason that fits a record. A long one is cut between two characters and
/// marked.
pub fn bounded_dlq_reason(reason: String) -> (r: String)
    ensures
        r@ == bounded_reason(reason@),
{
    if byte_len(&reason) <= MAX_CONTRACT_ID_BYTES {
        return reason;
    }
    let chars = chars_of(&reason);
    let limit: usize = MAX_CONTRACT_ID_BYTES - 14;
    let mut kept: usize = 0;
    let mut bytes: usize = 0;
    assert(reason@.take(0) =~= Seq::<char>::empty());
    assert(vstd::utf8::encode_utf8(Seq::<char>::empty()) =~= Seq::<u8>::empty());
    let mut full: bool = false;
    while kept < chars.len() && !full
        invariant
            kept <= chars@.len(),
            chars@ == reason@,
            limit == MAX_CONTRACT_ID_BYTES - 14,
            bytes == utf8_len(reason@.take(kept as int)),
            bytes <= limit,
            full ==> kept < chars@.len() && utf8_len(reason@.take(kept + 1)) > limit,
        decreases
            chars@.len() - kept + (if full {
                0int
            } else {
                1int
            }),
    {
        let width: usize = width_of(chars[kept]);
        proof {
            lemma_utf8_push(reason@, kept as int);
        }
        if bytes + width > limit {
            full = true;
        } else {
            bytes = bytes + width;
            kept = kept + 1;
        }
    }
    proof {
        lemma_fitting(reason@, limit as nat, kept as int);
    }
    let head = string_of(&chars, 0, kept);
    assert(reason@.subrange(0, kept as int) =~= reason@.take(kept as int));
    concat2(&head, POISON_REASON_TRUNCATION_MARKER)
}

// ---------------------------------------------------------------------------
// Evidence
// ---------------------------------------------------------------------------

/// The bytes of a key or payload, where there is one.
pub open spec fn opt_bytes(value: Option<&[u8]>) -> Option<Seq<u8>> {
    match value {
        Some(bytes) => Some(bytes@),
        None => None,
    }
}

/// How many bytes a key or payload has.
pub open spec fn opt_len(value: Option<&[u8]>) -> nat {
    match value {
        Some(bytes) => bytes@.len(),
        None => 0,
    }
}

/// The beginning of a key or payload, with its whole length.
#[derive(Debug)]
pub struct BoundedPoisonEvidence {
    pub prefix: Option<Vec<u8>>,
    pub original_bytes: Option<u64>,
    pub truncated: bool,
}

/// How many bytes of a value are kept.
pub open spec fn kept_bytes(n: nat) -> nat {
    if n <= MAX_POISON_EVIDENCE_FIELD_BYTES {
        n
    } else {
        MAX_POISON_EVIDENCE_FIELD_BYTES as nat
    }
}

impl BoundedPoisonEvidence {
    /// Whether this is the evidence of a value.
    pub open spec fn is_of(self, value: Option<Seq<u8>>) -> bool {
        match value {
            None => self.prefix is None && self.original_bytes is None && !self.truncated,
            Some(bytes) => {
                &&& self.prefix matches Some(prefix) && prefix@ == bytes.take(
                    kept_bytes(bytes.len()) as int,
                )
                &&& self.original_bytes == Some(bytes.len() as u64)
                &&& self.truncated == (bytes.len() > MAX_POISON_EVIDENCE_FIELD_BYTES)
            },
        }
    }

    /// Whether the prefix is short enough to be kept.
    pub open spec fn is_bounded(self) -> bool {
        self.prefix matches Some(prefix) ==> prefix@.len() <= MAX_POISON_EVIDENCE_FIELD_BYTES
    }

    /// Whether the length and the prefix fit together.
    pub open spec fn is_consistent(self) -> bool {
        match self.prefix {
            None => self.original_bytes is None && !self.truncated,
            Some(prefix) => {
                &&& prefix@.len() <= MAX_POISON_EVIDENCE_FIELD_BYTES
                &&& self.original_bytes matches Some(n) && if self.truncated {
                    n > prefix@.len()
                } else {
                    n == prefix@.len()
                }
            },
        }
    }

    /// The evidence of a value.
    pub fn capture(value: Option<&[u8]>) -> (e: Self)
        ensures
            e.is_of(opt_bytes(value)),
            e.is_bounded(),
            e.is_consistent(),
    {
        let bytes: &[u8] = match value {
            Some(bytes) => bytes,
            None => {
                return BoundedPoisonEvidence {
                    prefix: None,
                    original_bytes: None,
                    truncated: false,
                };
            },
        };
        let n: usize = bytes.len();
        let kept: usize = if n <= MAX_POISON_EVIDENCE_FIELD_BYTES {
            n
        } else {
            MAX_POISON_EVIDENCE_FIELD_BYTES
        };
        let mut prefix: Vec<u8> = Vec::new();
        let mut i: usize = 0;
        while i < kept
            invariant
                i <= kept <= bytes@.len(),
                prefix@ == bytes@.take(i as int),
            decreases kept - i,
        {
            prefix.push(bytes[i]);
            i += 1;
        }
        BoundedPoisonEvidence {
            prefix: Some(prefix),
            original_bytes: Some(n as u64),
            truncated: n > kept,
        }
    }
}

// ---------------------------------------------------------------------------
// Record sizes and decoding
// ---------------------------------------------------------------------------

impl ContractError {
    /// Whether this says that a record is malformed.
    pub open spec fn is_malformed(self, message: Seq<char>) -> bool {
        self matches ContractError::Malformed(m) && m@ == message
    }
}

/// Why the bytes of a record cannot be counted.
pub open spec fn size_overflow(key: nat, payload: nat) -> Seq<char> {
    "Kafka record byte length overflowed (key="@ + decimal(key) + ", payload="@ + decimal(payload)
        + ")"@
}

/// Why a record is too large.
pub open spec fn size_message(max: nat, key: nat, payload: nat) -> Seq<char> {
    ("Kafka record exceeds configured "@ + decimal(max) + "-byte consumer limit (total="@ + decimal(
        key + payload,
    ) + ", key="@) + (decimal(key) + ", payload="@ + decimal(payload) + ")"@)
}

/// What is wrong with the size of a record.
pub open spec fn size_problem(key: nat, payload: nat, max: nat) -> Option<Seq<char>> {
    if key + payload > usize::MAX {
        Some(size_overflow(key, payload))
    } else if key + payload > max {
        Some(size_message(max, key, payload))
    } else {
        None
    }
}

fn len_of(value: Option<&[u8]>) -> (n: usize)
    ensures
        n == opt_len(value),
{
    match value {
        Some(bytes) => bytes.len(),
        None => 0,
    }
}

/// The bytes of a record: those of its key and its payload.
pub fn consumed_record_size(source_key: Option<&[u8]>, payload: Option<&[u8]>) -> (r: Result<
    usize,
    ContractError,
>)
    ensures
        match r {
            Ok(n) => n == opt_len(source_key) + opt_len(payload),
            Err(e) => opt_len(source_key) + opt_len(payload) > usize::MAX && e.is_malformed(
                size_overflow(opt_len(source_key), opt_len(payload)),
            ),
        },
{
    let key_bytes: usize = len_of(source_key);
    let payload_bytes: usize = len_of(payload);
    match key_bytes.checked_add(payload_bytes) {
        Some(n) => Ok(n),
        None => Err(
            ContractError::Malformed(
                concat5(
                    "Kafka record byte length overflowed (key=",
                    &decimal_usize(key_bytes),
                    ", payload=",
                    &decimal_usize(payload_bytes),
                    ")",
                ),
            ),
        ),
    }
}

/// Refuses a record that is too large.
pub fn enforce_consumed_record_size(
    source_key: Option<&[u8]>,
    payload: Option<&[u8]>,
    record_max_bytes: usize,
) -> (r: Result<(), ContractError>)
    ensures
        match r {
            Ok(_) => size_problem(
                opt_len(source_key),
                opt_len(payload),
                record_max_bytes as nat,
            ) is None,
            Err(e) => size_problem(
                opt_len(source_key),
                opt_len(payload),
                record_max_bytes as nat,
            ) matches Some(m) && e.is_malformed(m),
        },
{
    let observed: usize = consumed_record_size(source_key, payload)?;
    if observed > record_max_bytes {
        let head = concat5(
            "Kafka record exceeds configured ",
            &decimal_usize(record_max_bytes),
            "-byte consumer limit (total=",
            &decimal_usize(observed),
            ", key=",
        );
        let tail = concat4(
            &decimal_usize(len_of(source_key)),
            ", payload=",
            &decimal_usize(len_of(payload)),
            ")",
        );
        return Err(ContractError::Malformed(concat2(&head, &tail)));
    }
    Ok(())
}

/// The payload of a record that is small enough to be decoded. `missing` says that
/// there is no payload.
fn payload_to_decode<'a>(
    source_key: Option<&[u8]>,
    payload: Option<&'a [u8]>,
    record_max_bytes: usize,
    missing: &str,
) -> (r: Result<&'a [u8], ContractError>)
    ensures
        match r {
            Ok(bytes) => {
                &&& size_problem(opt_len(source_key), opt_len(payload), record_max_bytes as nat)
                    is None
                &&& payload == Some(bytes)
            },
            Err(e) => match size_problem(
                opt_len(source_key),
                opt_len(payload),
                record_max_bytes as nat,
            ) {
                Some(m) => e.is_malformed(m),
                None => payload is None && e.is_malformed(missing@),
            },
        },
{
    enforce_consumed_record_size(source_key, payload, record_max_bytes)?;
    match payload {
        Some(bytes) => Ok(bytes),
        None => Err(ContractError::Malformed(copy_str(missing))),
    }
}

/// The payload of a job record that is to be decoded. The size is checked before
/// anything is decoded.
pub fn consumed_job_payload<'a>(
    source_key: Option<&[u8]>,
    payload: Option<&'a [u8]>,
    record_max_bytes: usize,
) -> (r: Result<&'a [u8], ContractError>)
    ensures
        match r {
            Ok(bytes) => {
                &&& size_problem(opt_len(source_key), opt_len(payload), record_max_bytes as nat)
                    is None
                &&& payload == Some(bytes)
            },
            Err(e) => match size_problem(
                opt_len(source_key),
                opt_len(payload),
                record_max_bytes as nat,
            ) {
                Some(m) => e.is_malformed(m),
                None => payload is None && e.is_malformed("Kafka message has no payload"@),
            },
        },
{
    payload_to_decode(source_key, payload, record_max_bytes, "Kafka message has no payload")
}

/// The payload of a result record that is to be decoded. The size is checked before
/// anything is decoded.
pub fn consumed_result_payload<'a>(
    source_key: Option<&[u8]>,
    payload: Option<&'a [u8]>,
    record_max_bytes: usize,
) -> (r: Result<&'a [u8], ContractError>)
    ensures
        match r {
            Ok(bytes) => {
                &&& size_problem(opt_len(source_key), opt_len(payload), record_max_bytes as nat)
                    is None
                &&& payload == Some(bytes)
            },
            Err(e) => match size_problem(
                opt_len(source_key),
                opt_len(payload),
                record_max_bytes as nat,
            ) {
                Some(m) => e.is_malformed(m),
                None => payload is None && e.is_malformed("Kafka result has no payload"@),
            },
        },
{
    payload_to_decode(source_key, payload, record_max_bytes, "Kafka result has no payload")
}

/// What came of decoding a payload: why it is no JSON of its kind, or the value with
/// what its contract says of it.
pub enum Decoded<T> {
    NotJson(String),
    Value(T, Result<(), ContractError>),
}

/// Accepts a decoded value that keeps its contract. `kind` names what was decoded.
pub fn accept_decoded<T>(kind: &str, decoded: Decoded<T>) -> (r: Result<T, ContractError>)
    ensures
        match decoded {
            Decoded::NotJson(m) => r matches Err(e) && e.is_malformed(
                "invalid "@ + kind@ + " JSON: "@ + m@,
            ),
            Decoded::Value(value, Ok(_)) => r == Ok::<T, ContractError>(value),
            Decoded::Value(value, Err(c)) => r == Err::<T, ContractError>(c),
        },
{
    match decoded {
        Decoded::NotJson(m) => Err(
            ContractError::Malformed(concat4("invalid ", kind, " JSON: ", &m)),
        ),
        Decoded::Value(value, Ok(_)) => Ok(value),
        Decoded::Value(_, Err(c)) => Err(c),
    }
}

/// Accepts a decoded job that keeps its contract.
pub fn decode_job<T>(decoded: Decoded<T>) -> (r: Result<T, ContractError>)
    ensures
        match decoded {
            Decoded::NotJson(m) => r matches Err(e) && e.is_malformed(
                "invalid "@ + "scenario job"@ + " JSON: "@ + m@,
            ),
            Decoded::Value(value, Ok(_)) => r == Ok::<T, ContractError>(value),
            Decoded::Value(value, Err(c)) => r == Err::<T, ContractError>(c),
        },
{
    accept_decoded("scenario job", decoded)
}

/// Accepts a decoded result that keeps its contract.
pub fn decode_result<T>(decoded: Decoded<T>) -> (r: Result<T, ContractError>)
    ensures
        match decoded {
            Decoded::NotJson(m) => r matches Err(e) && e.is_malformed(
                "invalid "@ + "scenario result"@ + " JSON: "@ + m@,
            ),
            Decoded::Value(value, Ok(_)) => r == Ok::<T, ContractError>(value),
            Decoded::Value(value, Err(c)) => r == Err::<T, ContractError>(c),
        },
{
    accept_decoded("scenario result", decoded)
}

// ---------------------------------------------------------------------------
// Poison records
// ---------------------------------------------------------------------------

/// A record that could not be processed, as it is published.
#[derive(Debug)]
pub struct PoisonMessageRecord {
    pub schema_version: u16,
    pub event_id: String,
    pub failed_at_unix_ms: u128,
    pub source_topic: String,
    pub source_partition: i32,
    pub source_offset: i64,
    pub source_key_base64: Option<String>,
    pub source_key_original_bytes: Option<u64>,
    pub source_key_truncated: bool,
    pub payload_base64: Option<String>,
    pub payload_original_bytes: Option<u64>,
    pub payload_truncated: bool,
    pub reason: String,
}

/// The identity of a poison record: where it came from.
pub open spec fn poison_event_id(topic: Seq<char>, partition: i32, offset: i64) -> Seq<char> {
    "poison:"@ + topic + ":"@ + decimal_int(partition as int) + (":"@ + decimal_int(offset as int))
}

/// The identity of a poison record: where it came from.
pub fn build_poison_event_id(topic: &str, partition: i32, offset: i64) -> (id: String)
    ensures
        id@ == poison_event_id(topic@, partition, offset),
{
    let head = concat4("poison:", topic, ":", &decimal_i64(partition as i64));
    let tail = concat2(":", &decimal_i64(offset));
    concat2(&head, &tail)
}

/// What is wrong with evidence that is to be published.
pub open spec fn evidence_problem(
    schema_version: u16,
    field: Seq<char>,
    encoded: Option<Seq<char>>,
    original_bytes: Option<u64>,
    truncated: bool,
) -> Option<Seq<char>> {
    match encoded {
        None => if original_bytes is Some || truncated {
            Some("invalid poison "@ + field + " evidence metadata"@)
        } else {
            None
        },
        Some(text) => if utf8_len(text) > base64_len(MAX_POISON_EVIDENCE_FIELD_BYTES as nat) {
            Some("poison "@ + field + " evidence exceeds its prefix bound"@)
        } else {
            decoded_problem(schema_version, field, base64_bytes(text), original_bytes, truncated)
        },
    }
}

/// What is wrong with evidence that is to be published, given what it decodes to.
pub open spec fn decoded_problem(
    schema_version: u16,
    field: Seq<char>,
    decoded: Result<Seq<u8>, Seq<char>>,
    original_bytes: Option<u64>,
    truncated: bool,
) -> Option<Seq<char>> {
    match decoded {
        Err(m) => Some("invalid poison "@ + field + " base64: "@ + m),
        Ok(bytes) => if bytes.len() > MAX_POISON_EVIDENCE_FIELD_BYTES {
            Some("poison "@ + field + " evidence exceeds its prefix bound"@)
        } else {
            match original_bytes {
                None => if schema_version < 2 && !truncated {
                    None
                } else {
                    Some("poison "@ + field + " evidence lacks its original byte count"@)
                },
                Some(n) => if (truncated && n <= bytes.len()) || (!truncated && n != bytes.len()) {
                    Some("poison "@ + field + " evidence length metadata is inconsistent"@)
                } else {
                    None
                },
            }
        },
    }
}

/// Checks evidence that is to be published, given what it decodes to.
pub fn check_decoded_evidence(
    schema_version: u16,
    field: &str,
    decoded: Result<Vec<u8>, String>,
    original_bytes: Option<u64>,
    truncated: bool,
) -> (r: Result<(), String>)
    ensures
        reports(
            r,
            decoded_problem(
                schema_version,
                field@,
                match decoded {
                    Ok(bytes) => Ok(bytes@),
                    Err(m) => Err(m@),
                },
                original_bytes,
                truncated,
            ),
        ),
{
    let kept: usize = match decoded {
        Err(m) => {
            return Err(concat4("invalid poison ", field, " base64: ", &m));
        },
        Ok(bytes) => bytes.len(),
    };
    if kept > MAX_POISON_EVIDENCE_FIELD_BYTES {
        return Err(concat3("poison ", field, " evidence exceeds its prefix bound"));
    }
    match original_bytes {
        None => if schema_version < 2 && !truncated {
            Ok(())
        } else {
            Err(concat3("poison ", field, " evidence lacks its original byte count"))
        },
        Some(n) => if (truncated && n <= kept as u64) || (!truncated && n != kept as u64) {
            Err(concat3("poison ", field, " evidence length metadata is inconsistent"))
        } else {
            Ok(())
        },
    }
}

/// Checks evidence that is to be published.
pub fn validate_poison_evidence_for_publish(
    schema_version: u16,
    field: &str,
    encoded: Option<&String>,
    original_bytes: Option<u64>,
    truncated: bool,
) -> (r: Result<(), String>)
    ensures
        reports(
            r,
            evidence_problem(
                schema_version,
                field@,
                match encoded {
                    Some(text) => Some(text@),
                    None => None,
                },
                original_bytes,
                truncated,
            ),
        ),
{
    let text = match encoded {
        Some(text) => text,
        None => {
            if original_bytes.is_some() || truncated {
                return Err(concat3("invalid poison ", field, " evidence metadata"));
            }
            return Ok(());
        },
    };
    if byte_len(text) > (MAX_POISON_EVIDENCE_FIELD_BYTES + 2) / 3 * 4 {
        return Err(concat3("poison ", field, " evidence exceeds its prefix bound"));
    }
    check_decoded_evidence(schema_version, field, decode_base64(text), original_bytes, truncated)
}

/// The base64 form of a prefix, where there is one.
pub open spec fn encoded_prefix(prefix: Option<Vec<u8>>) -> Option<Seq<char>> {
    match prefix {
        Some(bytes) => Some(base64_text(bytes@)),
        None => None,
    }
}

/// Whether a text decodes to a prefix, where there is one.
pub open spec fn decodes_to(text: Option<String>, prefix: Option<Vec<u8>>) -> bool {
    match prefix {
        Some(bytes) => text matches Some(t) && base64_bytes(t@) == Ok::<Seq<u8>, Seq<char>>(bytes@),
        None => text is None,
    }
}

fn encode_prefix(prefix: &Option<Vec<u8>>) -> (text: Option<String>)
    requires
        prefix matches Some(bytes) ==> bytes@.len() <= MAX_POISON_EVIDENCE_FIELD_BYTES,
    ensures
        opt_view(text) == encoded_prefix(*prefix),
        decodes_to(text, *prefix),
        text matches Some(t) ==> utf8_len(t@) <= base64_len(MAX_POISON_EVIDENCE_FIELD_BYTES as nat),
{
    match prefix {
        Some(bytes) => Some(encode_base64(bytes)),
        None => None,
    }
}

/// The record that is published for a message that could not be processed. Its
/// identity depends on where the message came from alone, its evidence gives the
/// kept bytes back, and evidence that was captured from a message can be
/// published.
pub fn poison_record_from_evidence(
    topic: &str,
    partition: i32,
    offset: i64,
    source_key: &BoundedPoisonEvidence,
    payload: &BoundedPoisonEvidence,
    reason: String,
    now_unix_ms: u128,
) -> (r: PoisonMessageRecord)
    requires
        source_key.is_bounded(),
        payload.is_bounded(),
    ensures
        r.schema_version == CURRENT_CONTRACT_VERSION,
        r.event_id@ == poison_event_id(topic@, partition, offset),
        r.failed_at_unix_ms == now_unix_ms,
        r.source_topic@ == topic@,
        r.source_partition == partition,
        r.source_offset == offset,
        opt_view(r.source_key_base64) == encoded_prefix(source_key.prefix),
        decodes_to(r.source_key_base64, source_key.prefix),
        r.source_key_original_bytes == source_key.original_bytes,
        r.source_key_truncated == source_key.truncated,
        opt_view(r.payload_base64) == encoded_prefix(payload.prefix),
        decodes_to(r.payload_base64, payload.prefix),
        r.payload_original_bytes == payload.original_bytes,
        r.payload_truncated == payload.truncated,
        r.reason@ == bounded_reason(reason@),
        source_key.is_consistent() ==> key_problem(r) is None,
        payload.is_consistent() ==> payload_problem(r) is None,
{
    PoisonMessageRecord {
        schema_version: CURRENT_CONTRACT_VERSION,
        event_id: build_poison_event_id(topic, partition, offset),
        failed_at_unix_ms: now_unix_ms,
        source_topic: copy_str(topic),
        source_partition: partition,
        source_offset: offset,
        source_key_base64: encode_prefix(&source_key.prefix),
        source_key_original_bytes: source_key.original_bytes,
        source_key_truncated: source_key.truncated,
        payload_base64: encode_prefix(&payload.prefix),
        payload_original_bytes: payload.original_bytes,
        payload_truncated: payload.truncated,
        reason: bounded_dlq_reason(reason),
    }
}

/// What is wrong with the evidence of the key in a record.
pub open spec fn key_problem(r: PoisonMessageRecord) -> Option<Seq<char>> {
    evidence_problem(
        r.schema_version,
        "source_key"@,
        opt_view(r.source_key_base64),
        r.source_key_original_bytes,
        r.source_key_truncated,
    )
}

/// What is wrong with the evidence of the payload in a record.
pub open spec fn payload_problem(r: PoisonMessageRecord) -> Option<Seq<char>> {
    evidence_problem(
        r.schema_version,
        "payload"@,
        opt_view(r.payload_base64),
        r.payload_original_bytes,
        r.payload_truncated,
    )
}

/// The record that is published for a message that could not be processed.
pub fn poison_record(
    topic: &str,
    partition: i32,
    offset: i64,
    source_key: Option<&[u8]>,
    payload: Option<&[u8]>,
    reason: String,
    now_unix_ms: u128,
) -> (r: PoisonMessageRecord)
    ensures
        r.schema_version == CURRENT_CONTRACT_VERSION,
        r.event_id@ == poison_event_id(topic@, partition, offset),
        r.failed_at_unix_ms == now_unix_ms,
        r.source_topic@ == topic@,
        r.source_partition == partition,
        r.source_offset == offset,
        r.reason@ == bounded_reason(reason@),
        shows(r.source_key_base64, r.source_key_original_bytes, r.source_key_truncated, opt_bytes(
            source_key,
        )),
        shows(r.payload_base64, r.payload_original_bytes, r.payload_truncated, opt_bytes(payload)),
        key_problem(r) is None,
        payload_problem(r) is None,
{
    let key_evidence = BoundedPoisonEvidence::capture(source_key);
    let payload_evidence = BoundedPoisonEvidence::capture(payload);
    poison_record_from_evidence(
        topic,
        partition,
        offset,
        &key_evidence,
        &payload_evidence,
        reason,
        now_unix_ms,
    )
}

/// Whether three fields of a record show a value: its beginning in base64, its
/// length and whether it was cut.
pub open spec fn shows(
    encoded: Option<String>,
    original_bytes: Option<u64>,
    truncated: bool,
    value: Option<Seq<u8>>,
) -> bool {
    match value {
        None => encoded is None && original_bytes is None && !truncated,
        Some(bytes) => {
            &&& encoded matches Some(text) && base64_bytes(text@) == Ok::<Seq<u8>, Seq<char>>(
                bytes.take(kept_bytes(bytes.len()) as int),
            )
            &&& original_bytes == Some(bytes.len() as u64)
            &&& truncated == (bytes.len() > MAX_POISON_EVIDENCE_FIELD_BYTES)
        },
    }
}

} // verus!
