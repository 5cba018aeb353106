//! Values of requests, as JSON gives them, and what fields take from them.
use vstd::prelude::*;
use super::wire::{client_error, PulseError};
use crate::byte_text::decode_base64;
#[allow(unused_imports)]
use crate::byte_text::base64_bytes;
use crate::text::{
    concat2, concat3, concat4, concat5, copy_str, eq_ignoring_ascii_case, parse_i32, parse_i64,
    parse_u32, parse_u64, strip_prefix,
};
#[allow(unused_imports)]
use crate::text::{ascii_lower, parsed_signed, parsed_unsigned, starts};

verus! {

/// A value of a request. Numbers, and texts that can be read as numbers, come with the
/// bits of the floating-point numbers that they stand for; all but plain values come
/// with how they are written in JSON.
pub enum JsonValue {
    Null,
    Bool(bool),
    Number { whole: Option<i128>, double: Option<u64>, single: Option<u32>, text: String },
    Text { text: String, double: Option<u64>, single: Option<u32>, quoted: String },
    Array { items: Vec<JsonValue>, shown: String },
    Object { fields: Vec<(String, JsonValue)>, shown: String },
}

/// A flag in words.
pub open spec fn bool_text(b: bool) -> Seq<char> {
    if b {
        "true"@
    } else {
        "false"@
    }
}

/// How a value is written in JSON.
pub open spec fn shown(value: JsonValue) -> Seq<char> {
    match value {
        JsonValue::Null => "null"@,
        JsonValue::Bool(b) => bool_text(b),
        JsonValue::Number { text, .. } => text@,
        JsonValue::Text { quoted, .. } => quoted@,
        JsonValue::Array { shown, .. } => shown@,
        JsonValue::Object { shown, .. } => shown@,
    }
}

/// How a value is written in JSON.
pub fn show(value: &JsonValue) -> (r: String)
    ensures
        r@ == shown(*value),
{
    match value {
        JsonValue::Null => copy_str("null"),
        JsonValue::Bool(b) => if *b {
            copy_str("true")
        } else {
            copy_str("false")
        },
        JsonValue::Number { text, .. } => copy_str(text),
        JsonValue::Text { quoted, .. } => copy_str(quoted),
        JsonValue::Array { shown, .. } => copy_str(shown),
        JsonValue::Object { shown, .. } => copy_str(shown),
    }
}

/// That a value is not of a kind.
pub open spec fn not_a_value(kind: Seq<char>, value: JsonValue) -> Seq<char> {
    "expected "@ + kind + " value, got "@ + shown(value)
}

/// That a text does not denote a value of a kind.
pub open spec fn not_a_text(kind: Seq<char>, text: Seq<char>) -> Seq<char> {
    "expected "@ + kind + " string, got '"@ + text + "'"@
}

fn wrong_value(kind: &str, value: &JsonValue) -> (e: PulseError)
    ensures
        e.is_client(not_a_value(kind@, *value)),
{
    PulseError::Client(concat4("expected ", kind, " value, got ", &show(value)))
}

fn wrong_text(kind: &str, text: &str) -> (e: PulseError)
    ensures
        e.is_client(not_a_text(kind@, text@)),
{
    PulseError::Client(concat5("expected ", kind, " string, got '", text, "'"))
}

/// The text that a value is: a text itself, or a number or a flag in words.
pub open spec fn text_of_value(value: JsonValue) -> Result<Seq<char>, Seq<char>> {
    match value {
        JsonValue::Text { text, .. } => Ok(text@),
        JsonValue::Number { text, .. } => Ok(text@),
        JsonValue::Bool(b) => Ok(bool_text(b)),
        JsonValue::Null => Err("null is not valid here"@),
        _ => Err("object/array is not valid for scalar field"@),
    }
}

/// The text that a value is.
pub fn to_string_value(value: &JsonValue) -> (r: Result<String, PulseError>)
    ensures
        match r {
            Ok(s) => text_of_value(*value) == Ok::<_, Seq<char>>(s@),
            Err(e) => text_of_value(*value) matches Err(m) && e.is_client(m),
        },
{
    match value {
        JsonValue::Text { text, .. } => Ok(copy_str(text)),
        JsonValue::Number { text, .. } => Ok(copy_str(text)),
        JsonValue::Bool(b) => Ok(
            if *b {
                copy_str("true")
            } else {
                copy_str("false")
            },
        ),
        JsonValue::Null => Err(client_error("null is not valid here")),
        _ => Err(client_error("object/array is not valid for scalar field")),
    }
}

/// The flag that a value is: a flag itself, or one in words, in any case.
pub open spec fn bool_of_value(value: JsonValue) -> Result<bool, Seq<char>> {
    match value {
        JsonValue::Bool(b) => Ok(b),
        JsonValue::Text { text, .. } => if ascii_lower(text@) == ascii_lower("true"@) {
            Ok(true)
        } else if ascii_lower(text@) == ascii_lower("false"@) {
            Ok(false)
        } else {
            Err(not_a_value("boolean"@, value))
        },
        _ => Err(not_a_value("boolean"@, value)),
    }
}

/// The flag that a value is.
pub fn to_bool(value: &JsonValue) -> (r: Result<bool, PulseError>)
    ensures
        match r {
            Ok(b) => bool_of_value(*value) == Ok::<_, Seq<char>>(b),
            Err(e) => bool_of_value(*value) matches Err(m) && e.is_client(m),
        },
{
    match value {
        JsonValue::Bool(b) => Ok(*b),
        JsonValue::Text { text, .. } => if eq_ignoring_ascii_case(text, "true") {
            Ok(true)
        } else if eq_ignoring_ascii_case(text, "false") {
            Ok(false)
        } else {
            Err(wrong_value("boolean", value))
        },
        _ => Err(wrong_value("boolean", value)),
    }
}

/// The whole number that a value is, from `min` to `max`, `denoted` what it denotes
/// where it is a text.
pub open spec fn whole_of_value(
    value: JsonValue,
    kind: Seq<char>,
    min: int,
    max: int,
    denoted: Option<int>,
) -> Result<int, Seq<char>> {
    match value {
        JsonValue::Number { whole, .. } => if whole is Some && min <= whole->0 <= max {
            Ok(whole->0 as int)
        } else {
            Err(not_a_value(kind, value))
        },
        JsonValue::Text { text, .. } => match denoted {
            Some(n) => Ok(n),
            None => Err(not_a_text(kind, text@)),
        },
        _ => Err(not_a_value(kind, value)),
    }
}

/// The text that a value is, empty for other values.
pub open spec fn own_text(value: JsonValue) -> Seq<char> {
    match value {
        JsonValue::Text { text, .. } => text@,
        _ => Seq::empty(),
    }
}

/// The signed number that a value is.
pub open spec fn signed_of_value(value: JsonValue, kind: Seq<char>, min: int, max: int) -> Result<
    int,
    Seq<char>,
> {
    whole_of_value(value, kind, min, max, parsed_signed(own_text(value), min, max))
}

/// The unsigned number that a value is.
pub open spec fn unsigned_of_value(value: JsonValue, kind: Seq<char>, max: nat) -> Result<
    int,
    Seq<char>,
> {
    whole_of_value(
        value,
        kind,
        0,
        max as int,
        match parsed_unsigned(own_text(value), max) {
            Some(n) => Some(n as int),
            None => None,
        },
    )
}

/// The number of 32 bits that a value is.
pub open spec fn i32_of_value(value: JsonValue) -> Result<int, Seq<char>> {
    signed_of_value(value, "i32"@, i32::MIN as int, i32::MAX as int)
}

/// The number of 64 bits that a value is.
pub open spec fn i64_of_value(value: JsonValue) -> Result<int, Seq<char>> {
    signed_of_value(value, "i64"@, i64::MIN as int, i64::MAX as int)
}

/// The unsigned number of 32 bits that a value is.
pub open spec fn u32_of_value(value: JsonValue) -> Result<int, Seq<char>> {
    unsigned_of_value(value, "u32"@, u32::MAX as nat)
}

/// The unsigned number of 64 bits that a value is.
pub open spec fn u64_of_value(value: JsonValue) -> Result<int, Seq<char>> {
    unsigned_of_value(value, "u64"@, u64::MAX as nat)
}

/// The number of 32 bits that a value is.
pub fn to_i32(value: &JsonValue) -> (r: Result<i32, PulseError>)
    ensures
        match r {
            Ok(n) => i32_of_value(*value) == Ok::<_, Seq<char>>(n as int),
            Err(e) => i32_of_value(*value) matches Err(m) && e.is_client(m),
        },
{
    match value {
        JsonValue::Number { whole: Some(n), .. } => if *n >= i32::MIN as i128 && *n
            <= i32::MAX as i128 {
            Ok(*n as i32)
        } else {
            Err(wrong_value("i32", value))
        },
        JsonValue::Text { text, .. } => match parse_i32(text) {
            Some(n) => Ok(n),
            None => Err(wrong_text("i32", text)),
        },
        _ => Err(wrong_value("i32", value)),
    }
}

/// The number of 64 bits that a value is.
pub fn to_i64(value: &JsonValue) -> (r: Result<i64, PulseError>)
    ensures
        match r {
            Ok(n) => i64_of_value(*value) == Ok::<_, Seq<char>>(n as int),
            Err(e) => i64_of_value(*value) matches Err(m) && e.is_client(m),
        },
{
    match value {
        JsonValue::Number { whole: Some(n), .. } => if *n >= i64::MIN as i128 && *n
            <= i64::MAX as i128 {
            Ok(*n as i64)
        } else {
            Err(wrong_value("i64", value))
        },
        JsonValue::Text { text, .. } => match parse_i64(text) {
            Some(n) => Ok(n),
            None => Err(wrong_text("i64", text)),
        },
        _ => Err(wrong_value("i64", value)),
    }
}

/// The unsigned number of 32 bits that a value is.
pub fn to_u32(value: &JsonValue) -> (r: Result<u32, PulseError>)
    ensures
        match r {
            Ok(n) => u32_of_value(*value) == Ok::<_, Seq<char>>(n as int),
            Err(e) => u32_of_value(*value) matches Err(m) && e.is_client(m),
        },
{
    match value {
        JsonValue::Number { whole: Some(n), .. } => if *n >= 0 && *n <= u32::MAX as i128 {
            Ok(*n as u32)
        } else {
            Err(wrong_value("u32", value))
        },
        JsonValue::Text { text, .. } => match parse_u32(text) {
            Some(n) => Ok(n),
            None => Err(wrong_text("u32", text)),
        },
        _ => Err(wrong_value("u32", value)),
    }
}

/// The unsigned number of 64 bits that a value is.
pub fn to_u64(value: &JsonValue) -> (r: Result<u64, PulseError>)
    ensures
        match r {
            Ok(n) => u64_of_value(*value) == Ok::<_, Seq<char>>(n as int),
            Err(e) => u64_of_value(*value) matches Err(m) && e.is_client(m),
        },
{
    match value {
        JsonValue::Number { whole: Some(n), .. } => if *n >= 0 && *n <= u64::MAX as i128 {
            Ok(*n as u64)
        } else {
            Err(wrong_value("u64", value))
        },
        JsonValue::Text { text, .. } => match parse_u64(text) {
            Some(n) => Ok(n),
            None => Err(wrong_text("u64", text)),
        },
        _ => Err(wrong_value("u64", value)),
    }
}

/// The bits of the single-precision number that a value is.
pub open spec fn single_of_value(value: JsonValue) -> Result<u32, Seq<char>> {
    match value {
        JsonValue::Number { single: Some(bits), .. } => Ok(bits),
        JsonValue::Text { single: Some(bits), .. } => Ok(bits),
        JsonValue::Text { text, .. } => Err(not_a_text("float"@, text@)),
        _ => Err(not_a_value("float"@, value)),
    }
}

/// The bits of the single-precision number that a value is.
pub fn to_f32(value: &JsonValue) -> (r: Result<u32, PulseError>)
    ensures
        match r {
            Ok(bits) => single_of_value(*value) == Ok::<_, Seq<char>>(bits),
            Err(e) => single_of_value(*value) matches Err(m) && e.is_client(m),
        },
{
    match value {
        JsonValue::Number { single: Some(bits), .. } => Ok(*bits),
        JsonValue::Text { single: Some(bits), .. } => Ok(*bits),
        JsonValue::Text { text, .. } => Err(wrong_text("float", text)),
        _ => Err(wrong_value("float", value)),
    }
}

/// The bits of the double-precision number that a value is.
pub open spec fn double_of_value(value: JsonValue) -> Result<u64, Seq<char>> {
    match value {
        JsonValue::Number { double: Some(bits), .. } => Ok(bits),
        JsonValue::Text { double: Some(bits), .. } => Ok(bits),
        JsonValue::Text { text, .. } => Err(not_a_text("double"@, text@)),
        _ => Err(not_a_value("double"@, value)),
    }
}

/// The bits of the double-precision number that a value is.
pub fn to_f64(value: &JsonValue) -> (r: Result<u64, PulseError>)
    ensures
        match r {
            Ok(bits) => double_of_value(*value) == Ok::<_, Seq<char>>(bits),
            Err(e) => double_of_value(*value) matches Err(m) && e.is_client(m),
        },
{
    match value {
        JsonValue::Number { double: Some(bits), .. } => Ok(*bits),
        JsonValue::Text { double: Some(bits), .. } => Ok(*bits),
        JsonValue::Text { text, .. } => Err(wrong_text("double", text)),
        _ => Err(wrong_value("double", value)),
    }
}

/// What a text must begin with to be taken for base64.
pub const BASE64_PREFIX: &'static str = "base64:";

/// The bytes that a value is: those that a text marked as base64 stands for, given
/// what it decodes to, else those of the text itself.
pub open spec fn bytes_of_value(value: JsonValue) -> Result<Seq<u8>, Seq<char>> {
    match value {
        JsonValue::Text { text, .. } => if starts(text@, BASE64_PREFIX@) {
            bytes_decoded(base64_bytes(text@.skip(BASE64_PREFIX@.len() as int)))
        } else {
            Ok(vstd::utf8::encode_utf8(text@))
        },
        _ => Err("expected bytes field as string, got "@ + shown(value)),
    }
}

/// What decoding base64 gives a field of bytes.
pub open spec fn bytes_decoded(decoded: Result<Seq<u8>, Seq<char>>) -> Result<Seq<u8>, Seq<char>> {
    match decoded {
        Ok(bytes) => Ok(bytes),
        Err(e) => Err("invalid base64 bytes value: "@ + e),
    }
}

/// What decoding base64 gives a field of bytes.
pub fn take_decoded(decoded: Result<Vec<u8>, String>) -> (r: Result<Vec<u8>, PulseError>)
    ensures
        ({
            let taken = bytes_decoded(
                match decoded {
                    Ok(bytes) => Ok(bytes@),
                    Err(e) => Err(e@),
                },
            );
            match r {
                Ok(bytes) => taken == Ok::<_, Seq<char>>(bytes@),
                Err(e) => taken matches Err(m) && e.is_client(m),
            }
        }),
{
    match decoded {
        Ok(bytes) => Ok(bytes),
        Err(e) => Err(PulseError::Client(concat2("invalid base64 bytes value: ", &e))),
    }
}

/// The bytes that a value is.
pub fn to_bytes(value: &JsonValue) -> (r: Result<Vec<u8>, PulseError>)
    ensures
        match r {
            Ok(bytes) => bytes_of_value(*value) == Ok::<_, Seq<char>>(bytes@),
            Err(e) => bytes_of_value(*value) matches Err(m) && e.is_client(m),
        },
{
    match value {
        JsonValue::Text { text, .. } => match strip_prefix(text, BASE64_PREFIX) {
            Some(encoded) => take_decoded(decode_base64(&encoded)),
            None => {
                let mut bytes: Vec<u8> = Vec::new();
                append_bytes(&mut bytes, text.as_str().as_bytes());
                assert(bytes@ =~= vstd::utf8::encode_utf8(text@));
                Ok(bytes)
            },
        },
        _ => Err(
            PulseError::Client(concat2("expected bytes field as string, got ", &show(value))),
        ),
    }
}

/// Appends bytes.
pub fn append_bytes(out: &mut Vec<u8>, bytes: &[u8])
    ensures
        final(out)@ == old(out)@ + bytes@,
{
    let ghost start = out@;
    let mut i: usize = 0;
    while i < bytes.len()
        invariant
            i <= bytes@.len(),
            start == old(out)@,
            out@ == start + bytes@.take(i as int),
        decreases bytes@.len() - i,
    {
        out.push(bytes[i]);
        i += 1;
        assert(bytes@.take(i as int) =~= bytes@.take(i - 1).push(bytes@[i - 1]));
        assert(out@ =~= start + bytes@.take(i as int));
    }
    assert(bytes@.take(i as int) =~= bytes@);
}

} // verus!
