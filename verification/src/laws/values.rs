//! What values are taken for, how numbers change their form, and maps keyed by text.
use vstd::prelude::*;
use super::messages::can_take;
use super::wire::{in_words, lemma_takes, takes};
use crate::grpc::encode::number_of_value;
use crate::grpc::schema::Scalar;
use crate::grpc::value::{
    append_bytes, show, take_decoded, to_bool, to_f32, to_f64, to_i32, to_i64, to_string_value,
    to_u32, to_u64, JsonValue,
};
use crate::grpc::wire::{
    client_error, low32, to_signed32, to_signed64, to_unsigned32, to_unsigned64, PulseError,
};
use crate::ordered::TextMap;
use crate::text::text_less;

verus! {

/// A value is taken for a number where it is one, or one in digits, within the range of its
/// size.
pub proof fn law_whole_numbers(
    value: JsonValue,
    a: Result<i32, PulseError>,
    b: Result<i64, PulseError>,
    c: Result<u32, PulseError>,
    d: Result<u64, PulseError>,
)
    requires
        call_ensures(to_i32, (&value,), a),
        call_ensures(to_i64, (&value,), b),
        call_ensures(to_u32, (&value,), c),
        call_ensures(to_u64, (&value,), d),
    ensures
        a is Ok <==> can_take(Scalar::Int32, value),
        a matches Ok(n) ==> takes(Scalar::Int32, value, n as int),
        b is Ok <==> can_take(Scalar::Int64, value),
        b matches Ok(n) ==> takes(Scalar::Int64, value, n as int),
        c is Ok <==> can_take(Scalar::UInt32, value),
        c matches Ok(n) ==> takes(Scalar::UInt32, value, n as int),
        d is Ok <==> can_take(Scalar::UInt64, value),
        d matches Ok(n) ==> takes(Scalar::UInt64, value, n as int),
{
    lemma_taken(Scalar::Int32, value);
    lemma_taken(Scalar::Int64, value);
    lemma_taken(Scalar::UInt32, value);
    lemma_taken(Scalar::UInt64, value);
}

proof fn lemma_taken(kind: Scalar, value: JsonValue)
    ensures
        number_of_value(kind, value) is Ok <==> can_take(kind, value),
        number_of_value(kind, value) matches Ok(n) ==> takes(kind, value, n),
{
    lemma_takes(kind, value);
    if number_of_value(kind, value) is Ok {
        assert(takes(kind, value, number_of_value(kind, value)->Ok_0));
    }
}

/// A value is taken for a floating-point number by its bits, and for a flag where it is one,
/// or one in words.
pub proof fn law_other_numbers(
    value: JsonValue,
    a: Result<u64, PulseError>,
    b: Result<u32, PulseError>,
    c: Result<bool, PulseError>,
)
    requires
        call_ensures(to_f64, (&value,), a),
        call_ensures(to_f32, (&value,), b),
        call_ensures(to_bool, (&value,), c),
    ensures
        a is Ok <==> can_take(Scalar::Double, value),
        a matches Ok(bits) ==> takes(Scalar::Double, value, bits as int),
        b is Ok <==> can_take(Scalar::Float, value),
        b matches Ok(bits) ==> takes(Scalar::Float, value, bits as int),
        c is Ok <==> can_take(Scalar::Bool, value),
        c matches Ok(flag) ==> takes(Scalar::Bool, value, if flag {
            1
        } else {
            0
        }),
{
    lemma_taken(Scalar::Double, value);
    lemma_taken(Scalar::Float, value);
    lemma_taken(Scalar::Bool, value);
}

/// A value is taken for a text where it is one, or a number or a flag in words.
pub proof fn law_texts(value: JsonValue, r: Result<String, PulseError>)
    requires
        call_ensures(to_string_value, (&value,), r),
    ensures
        r is Ok <==> value is Text || value is Number || value is Bool,
        r matches Ok(text) ==> in_words(value, text@),
{
}

/// A value is shown as JSON writes it.
pub proof fn law_shown(value: JsonValue, text: String)
    requires
        call_ensures(show, (&value,), text),
    ensures
        value is Null ==> text@ == "null"@,
        value matches JsonValue::Bool(b) ==> text@ == (if b {
            "true"@
        } else {
            "false"@
        }),
        value matches JsonValue::Number { text: t, .. } ==> text@ == t@,
        value matches JsonValue::Text { quoted, .. } ==> text@ == quoted@,
        value matches JsonValue::Array { shown, .. } ==> text@ == shown@,
        value matches JsonValue::Object { shown, .. } ==> text@ == shown@,
{
}

/// What was decoded is taken as it is; an error of decoding is told.
pub proof fn law_take_decoded(decoded: Result<Vec<u8>, String>, r: Result<Vec<u8>, PulseError>)
    requires
        call_ensures(take_decoded, (decoded,), r),
    ensures
        r is Ok <==> decoded is Ok,
        r matches Ok(bytes) ==> bytes@ == decoded->Ok_0@,
        decoded matches Err(e) ==> (r matches Err(PulseError::Client(m)) && m@
            == "invalid base64 bytes value: "@ + e@),
{
}

/// Bytes are appended behind those that are there, and an error holds its message.
pub proof fn law_append_bytes(
    out: &mut Vec<u8>,
    bytes: &[u8],
    r: (),
    message: &str,
    e: PulseError,
)
    requires
        call_ensures(append_bytes, (out, bytes), r),
        call_ensures(client_error, (message,), e),
    ensures
        final(out)@.len() == old(out)@.len() + bytes@.len(),
        forall|i: int| 0 <= i < old(out)@.len() ==> final(out)@[i] == old(out)@[i],
        forall|i: int|
            0 <= i < bytes@.len() ==> final(out)@[old(out)@.len() + i] == #[trigger] bytes@[i],
        e matches PulseError::Client(m) && m@ == message@,
{
}

/// A signed number and its unsigned form differ by nothing or by 2 to the power of its bits,
/// both ways; the low half of 64 bits is what is left of the number by 2^32.
pub proof fn law_signs(
    a: u32,
    b: i32,
    c: u64,
    d: i64,
    e: i32,
    f: u32,
    g: i64,
    h: u64,
    n: u64,
    low: u32,
)
    requires
        call_ensures(to_signed32, (a,), b),
        call_ensures(to_signed64, (c,), d),
        call_ensures(to_unsigned32, (e,), f),
        call_ensures(to_unsigned64, (g,), h),
        call_ensures(low32, (n,), low),
    ensures
        b == a || b == a - 4_294_967_296,
        d == c || d == c - 18_446_744_073_709_551_616,
        f == e || f == e + 4_294_967_296,
        h == g || h == g + 18_446_744_073_709_551_616,
        exists|k: int| n == #[trigger] (k * 4_294_967_296) + low,
{
    let k = n as int / 4_294_967_296;
    assert(n == k * 4_294_967_296 + low);
}

/// What is put under a key is found under it, what was there before under all others; a new
/// map holds nothing.
pub proof fn law_text_map<V>(
    none: TextMap<V>,
    map: &mut TextMap<V>,
    key: String,
    value: V,
    r: (),
    after: TextMap<V>,
    other: &str,
    found: Option<&V>,
    empty: Option<&V>,
)
    requires
        old(map).wf(),
        call_ensures(TextMap::<V>::new, (), none),
        call_ensures(TextMap::<V>::get, (&none, other), empty),
        call_ensures(TextMap::<V>::insert, (map, key, value), r),
        after == *final(map),
        call_ensures(TextMap::<V>::get, (&after, other), found),
    ensures
        empty is None,
        after.wf(),
        other@ == key@ ==> found == Some(&value),
        other@ != key@ ==> (found is Some <==> old(map)@.dom().contains(other@)),
        other@ != key@ ==> (found matches Some(v) ==> *v == old(map)@[other@]),
{
}

/// The entries of a map stand in the order of their keys, each once, with their values.
pub proof fn law_text_map_order<V>(
    map: TextMap<V>,
    n: usize,
    i: usize,
    j: usize,
    key: String,
    later: String,
    value: V,
    name: &str,
    found: Option<&V>,
)
    requires
        map.wf(),
        call_ensures(TextMap::<V>::len, (&map,), n),
        i < j < n,
        call_ensures(TextMap::<V>::key_at, (&map, i), &key),
        call_ensures(TextMap::<V>::key_at, (&map, j), &later),
        call_ensures(TextMap::<V>::value_at, (&map, i), &value),
        name@ == key@,
        call_ensures(TextMap::<V>::get, (&map, name), found),
    ensures
        text_less(key@, later@),
        n == map@.dom().len(),
        found == Some(&value),
{
    map.lemma_entry(i as int);
}

} // verus!
