//! Bytes of responses as values.
use vstd::prelude::*;
use vstd::slice::slice_subrange;
#[allow(unused_imports)]
use super::encode::wire_type_of;
use super::encode::scalar_wire_type;
use super::schema::{FieldKind, FieldSchema, MessageSchema, Scalar};
#[allow(unused_imports)]
use super::schema::{message_views, messages_wf, FieldView, KindView, MessageView};
use super::value::append_bytes;
use super::wire::{
    client_error, low32, read_delimited, read_fixed32, read_fixed64, read_length_delimited,
    read_varint, skip_wire_value, to_signed32, to_signed64, unzigzag_i32, unzigzag_i64, PulseError,
    WORD32,
};
#[allow(unused_imports)]
use super::wire::{
    data_at, delimited_at, end_after, fixed32_at, fixed64_at, signed32, signed64, skipped, unzigzag,
    varint_at, varint_len,
};
use crate::byte_text::{encode_base64, text_of};
#[allow(unused_imports)]
use crate::byte_text::{base64_len, base64_text, utf8_error};
use crate::ordered::TextMap;
use crate::text::{concat2, concat3, concat4, concat5, copy_str, decimal_u64, str_eq};
#[allow(unused_imports)]
use crate::text::decimal;

verus! {

/// A value of a response. Floating-point numbers are given by their bits; the fields
/// of an object stand in the order in which they first occurred.
#[derive(Debug, PartialEq, Eq)]
pub enum ResponseValue {
    Bool(bool),
    Int(i64),
    UInt(u64),
    Double(u64),
    Single(u32),
    Text(String),
    Array(Vec<ResponseValue>),
    Object(Vec<(String, ResponseValue)>),
}

/// What a value of a response is.
pub enum ResponseView {
    Bool(bool),
    Int(i64),
    UInt(u64),
    Double(u64),
    Single(u32),
    Text(Seq<char>),
    Array(Seq<ResponseView>),
    Object(Seq<(Seq<char>, ResponseView)>),
}

/// What a value of a response is.
pub open spec fn response_view(v: ResponseValue) -> ResponseView
    decreases v,
{
    match v {
        ResponseValue::Bool(b) => ResponseView::Bool(b),
        ResponseValue::Int(n) => ResponseView::Int(n),
        ResponseValue::UInt(n) => ResponseView::UInt(n),
        ResponseValue::Double(bits) => ResponseView::Double(bits),
        ResponseValue::Single(bits) => ResponseView::Single(bits),
        ResponseValue::Text(s) => ResponseView::Text(s@),
        ResponseValue::Array(items) => ResponseView::Array(item_views(items@)),
        ResponseValue::Object(fields) => ResponseView::Object(entry_views(fields@)),
    }
}

/// What values of a response are.
pub open spec fn item_views(items: Seq<ResponseValue>) -> Seq<ResponseView>
    decreases items,
{
    if items.len() == 0 {
        Seq::empty()
    } else {
        item_views(items.drop_last()).push(response_view(items.last()))
    }
}

/// What the fields of an object are.
pub open spec fn entry_views(fields: Seq<(String, ResponseValue)>) -> Seq<(Seq<char>, ResponseView)>
    decreases fields,
{
    if fields.len() == 0 {
        Seq::empty()
    } else {
        entry_views(fields.drop_last()).push((fields.last().0@, response_view(fields.last().1)))
    }
}

impl View for ResponseValue {
    type V = ResponseView;

    open spec fn view(&self) -> ResponseView {
        response_view(*self)
    }
}

pub(crate) proof fn lemma_items_pushed(items: Seq<ResponseValue>, v: ResponseValue)
    ensures
        item_views(items.push(v)) == item_views(items).push(response_view(v)),
{
    assert(items.push(v).drop_last() =~= items);
}

pub(crate) proof fn lemma_entries(fields: Seq<(String, ResponseValue)>)
    ensures
        entry_views(fields).len() == fields.len(),
        forall|i: int|
            0 <= i < fields.len() ==> #[trigger] entry_views(fields)[i] == (
                fields[i].0@,
                response_view(fields[i].1),
            ),
    decreases fields.len(),
{
    if fields.len() > 0 {
        lemma_entries(fields.drop_last());
    }
}

// ---------------------------------------------------------------------------
// Fields that were read
// ---------------------------------------------------------------------------

/// What a first value of a field puts into an object: one of a repeated field begins
/// an array.
pub open spec fn first_value(value: ResponseView, repeated: bool) -> ResponseView {
    if repeated {
        ResponseView::Array(seq![value])
    } else {
        value
    }
}

/// What a further value of a field makes of the earlier ones: one of a repeated field
/// joins them, another takes their place.
pub open spec fn next_value(earlier: ResponseView, value: ResponseView, repeated: bool) -> ResponseView {
    if repeated {
        match earlier {
            ResponseView::Array(items) => ResponseView::Array(items.push(value)),
            other => ResponseView::Array(seq![other, value]),
        }
    } else {
        value
    }
}

/// The fields of an object with one more value.
pub open spec fn with_value(
    fields: Seq<(Seq<char>, ResponseView)>,
    name: Seq<char>,
    value: ResponseView,
    repeated: bool,
) -> Seq<(Seq<char>, ResponseView)>
    decreases fields.len(),
{
    if fields.len() == 0 {
        seq![(name, first_value(value, repeated))]
    } else if fields[0].0 == name {
        seq![(name, next_value(fields[0].1, value, repeated))] + fields.skip(1)
    } else {
        seq![fields[0]] + with_value(fields.skip(1), name, value, repeated)
    }
}

pub(crate) proof fn lemma_with_value_at(
    fields: Seq<(Seq<char>, ResponseView)>,
    name: Seq<char>,
    value: ResponseView,
    repeated: bool,
    p: int,
)
    requires
        0 <= p <= fields.len(),
        forall|i: int| 0 <= i < p ==> (#[trigger] fields[i]).0 != name,
        p < fields.len() ==> fields[p].0 == name,
    ensures
        with_value(fields, name, value, repeated) == if p < fields.len() {
            fields.update(p, (name, next_value(fields[p].1, value, repeated)))
        } else {
            fields.push((name, first_value(value, repeated)))
        },
    decreases fields.len(),
{
    let r = with_value(fields, name, value, repeated);
    if fields.len() == 0 {
        assert(r =~= fields.push((name, first_value(value, repeated))));
    } else if p == 0 {
        assert(r =~= fields.update(0, (name, next_value(fields[0].1, value, repeated))));
    } else {
        assert(fields[0].0 != name);
        let rest = fields.skip(1);
        assert forall|i: int| 0 <= i < p - 1 implies (#[trigger] rest[i]).0 != name by {
            assert(rest[i] == fields[i + 1]);
        }
        lemma_with_value_at(rest, name, value, repeated, p - 1);
        if p < fields.len() {
            assert(r =~= fields.update(p, (name, next_value(fields[p].1, value, repeated))));
        } else {
            assert(r =~= fields.push((name, first_value(value, repeated))));
        }
    }
}

/// Every field stands once.
pub open spec fn names_unique(fields: Seq<(Seq<char>, ResponseView)>) -> bool {
    forall|i: int, j: int|
        0 <= i < j < fields.len() ==> (#[trigger] fields[i]).0 != (#[trigger] fields[j]).0
}

/// The first place of a name, or the number of fields.
pub open spec fn place_of(fields: Seq<(Seq<char>, ResponseView)>, name: Seq<char>) -> int
    decreases fields.len(),
{
    if fields.len() == 0 || fields[0].0 == name {
        0
    } else {
        1 + place_of(fields.skip(1), name)
    }
}

pub(crate) proof fn lemma_place_of(fields: Seq<(Seq<char>, ResponseView)>, name: Seq<char>)
    ensures
        0 <= place_of(fields, name) <= fields.len(),
        forall|i: int| 0 <= i < place_of(fields, name) ==> (#[trigger] fields[i]).0 != name,
        place_of(fields, name) < fields.len() ==> fields[place_of(fields, name)].0 == name,
    decreases fields.len(),
{
    if fields.len() > 0 && fields[0].0 != name {
        lemma_place_of(fields.skip(1), name);
        assert forall|i: int| 0 <= i < place_of(fields, name) implies (#[trigger] fields[i]).0
            != name by {
            if i > 0 {
                assert(fields.skip(1)[i - 1] == fields[i]);
            }
        }
    }
}

/// One more value keeps every field standing once.
pub proof fn lemma_names_stay_unique(
    fields: Seq<(Seq<char>, ResponseView)>,
    name: Seq<char>,
    value: ResponseView,
    repeated: bool,
)
    requires
        names_unique(fields),
    ensures
        names_unique(with_value(fields, name, value, repeated)),
{
    lemma_place_of(fields, name);
    lemma_with_value_at(fields, name, value, repeated, place_of(fields, name));
}

fn merged(earlier: ResponseValue, value: ResponseValue, repeated: bool) -> (r: ResponseValue)
    ensures
        response_view(r) == next_value(response_view(earlier), response_view(value), repeated),
{
    if !repeated {
        return value;
    }
    match earlier {
        ResponseValue::Array(earlier_items) => {
            let mut items: Vec<ResponseValue> = earlier_items;
            proof {
                lemma_items_pushed(items@, value);
            }
            items.push(value);
            ResponseValue::Array(items)
        },
        other => {
            let mut items: Vec<ResponseValue> = Vec::new();
            proof {
                lemma_items_pushed(items@, other);
                lemma_items_pushed(items@.push(other), value);
                assert(item_views(items@) =~= Seq::<ResponseView>::empty());
                assert(item_views(items@).push(response_view(other)).push(response_view(value))
                    =~= seq![response_view(other), response_view(value)]);
            }
            items.push(other);
            items.push(value);
            ResponseValue::Array(items)
        },
    }
}

/// Puts one more value of a field into an object.
pub fn append_decoded_field(
    target: &mut Vec<(String, ResponseValue)>,
    name: &str,
    value: ResponseValue,
    repeated: bool,
)
    ensures
        entry_views(final(target)@) == with_value(
            entry_views(old(target)@),
            name@,
            response_view(value),
            repeated,
        ),
{
    let ghost before = target@;
    let ghost views = entry_views(before);
    let mut p: usize = 0;
    proof {
        lemma_entries(before);
    }
    while p < target.len() && !str_eq(&target[p].0, name)
        invariant
            p <= target@.len(),
            target@ == before,
            forall|i: int| 0 <= i < p ==> (#[trigger] before[i]).0@ != name@,
        decreases target@.len() - p,
    {
        p += 1;
    }
    proof {
        assert forall|i: int| 0 <= i < p implies (#[trigger] views[i]).0 != name@ by {
            assert(before[i].0@ != name@);
        }
        lemma_with_value_at(views, name@, response_view(value), repeated, p as int);
    }
    let ghost view = response_view(value);
    if p < target.len() {
        let (known, earlier) = target.remove(p);
        let more = merged(earlier, value, repeated);
        target.insert(p, (known, more));
        proof {
            lemma_entries(target@);
            assert(target@ =~= before.update(p as int, (known, more)));
            assert(entry_views(target@) =~= views.update(
                p as int,
                (name@, next_value(views[p as int].1, view, repeated)),
            ));
        }
    } else {
        let first = if repeated {
            let mut items: Vec<ResponseValue> = Vec::new();
            proof {
                lemma_items_pushed(items@, value);
                assert(item_views(items@).push(view) =~= seq![view]);
            }
            items.push(value);
            ResponseValue::Array(items)
        } else {
            value
        };
        target.push((copy_str(name), first));
        proof {
            lemma_entries(target@);
            assert(entry_views(target@) =~= views.push((name@, first_value(view, repeated))));
        }
    }
}

// ---------------------------------------------------------------------------
// Scalars
// ---------------------------------------------------------------------------

/// Whether bits stand for a double-precision number that is neither infinite nor
/// undefined.
pub open spec fn finite_double(bits: u64) -> bool {
    (bits / 0x10_0000_0000_0000) % 2048 != 2047
}

/// Whether bits stand for a single-precision number that is neither infinite nor
/// undefined.
pub open spec fn finite_single(bits: u32) -> bool {
    (bits / 0x80_0000) % 256 != 255
}

/// The bits of a value of a kind at a place, and the place behind them.
pub open spec fn raw_at(kind: Scalar, bytes: Seq<u8>, i: int) -> Result<(u64, int), Seq<char>> {
    if wire_type_of(kind) == 1 {
        fixed64_at(bytes, i)
    } else if wire_type_of(kind) == 5 {
        match fixed32_at(bytes, i) {
            Ok((word, next)) => Ok((word as u64, next)),
            Err(e) => Err(e),
        }
    } else {
        varint_at(bytes, i)
    }
}

/// What the bits of a value of a kind stand for; 32 bits count where the kind has no
/// more.
pub open spec fn scalar_value(kind: Scalar, raw: u64) -> Result<ResponseView, Seq<char>> {
    let low = raw as nat % (WORD32 as nat);
    match kind {
        Scalar::Double => if finite_double(raw) {
            Ok(ResponseView::Double(raw))
        } else {
            Err("invalid double value"@)
        },
        Scalar::Float => if finite_single(low as u32) {
            Ok(ResponseView::Single(low as u32))
        } else {
            Err("invalid float value"@)
        },
        Scalar::Int64 | Scalar::SFixed64 => Ok(ResponseView::Int(signed64(raw as nat) as i64)),
        Scalar::UInt64 | Scalar::Fixed64 => Ok(ResponseView::UInt(raw)),
        Scalar::Int32 | Scalar::Enum | Scalar::SFixed32 => Ok(
            ResponseView::Int(signed32(low) as i64),
        ),
        Scalar::UInt32 | Scalar::Fixed32 => Ok(ResponseView::UInt(low as u64)),
        Scalar::Bool => Ok(ResponseView::Bool(raw != 0)),
        Scalar::SInt32 => Ok(ResponseView::Int(unzigzag(low) as i64)),
        Scalar::SInt64 => Ok(ResponseView::Int(unzigzag(raw as nat) as i64)),
    }
}

/// The value of a kind at a place, and the place behind it.
pub open spec fn scalar_at(kind: Scalar, bytes: Seq<u8>, i: int) -> Result<
    (ResponseView, int),
    Seq<char>,
> {
    match raw_at(kind, bytes, i) {
        Err(e) => Err(e),
        Ok((raw, next)) => match scalar_value(kind, raw) {
            Err(e) => Err(e),
            Ok(v) => Ok((v, next)),
        },
    }
}

fn read_raw(kind: Scalar, bytes: &[u8], idx: usize) -> (r: Result<(u64, usize), PulseError>)
    ensures
        match r {
            Ok((raw, next)) => raw_at(kind, bytes@, idx as int) == Ok::<_, Seq<char>>(
                (raw, next as int),
            ) && idx < next <= bytes@.len() && (wire_type_of(kind) == 5 ==> raw < WORD32),
            Err(e) => raw_at(kind, bytes@, idx as int) matches Err(m) && e.is_client(m),
        },
{
    let wire_type: u8 = scalar_wire_type(kind);
    if wire_type == 1 {
        read_fixed64(bytes, idx)
    } else if wire_type == 5 {
        let (word, next) = read_fixed32(bytes, idx)?;
        Ok((word as u64, next))
    } else {
        read_varint(bytes, idx)
    }
}

fn value_of(kind: Scalar, raw: u64) -> (r: Result<ResponseValue, PulseError>)
    ensures
        match r {
            Ok(v) => scalar_value(kind, raw) == Ok::<_, Seq<char>>(response_view(v)),
            Err(e) => scalar_value(kind, raw) matches Err(m) && e.is_client(m),
        },
{
    let low: u32 = low32(raw);
    match kind {
        Scalar::Double => if (raw / 0x10_0000_0000_0000) % 2048 != 2047 {
            Ok(ResponseValue::Double(raw))
        } else {
            Err(client_error("invalid double value"))
        },
        Scalar::Float => if (low / 0x80_0000) % 256 != 255 {
            Ok(ResponseValue::Single(low))
        } else {
            Err(client_error("invalid float value"))
        },
        Scalar::Int64 | Scalar::SFixed64 => Ok(ResponseValue::Int(to_signed64(raw))),
        Scalar::UInt64 | Scalar::Fixed64 => Ok(ResponseValue::UInt(raw)),
        Scalar::Int32 | Scalar::Enum | Scalar::SFixed32 => Ok(
            ResponseValue::Int(to_signed32(low) as i64),
        ),
        Scalar::UInt32 | Scalar::Fixed32 => Ok(ResponseValue::UInt(low as u64)),
        Scalar::Bool => Ok(ResponseValue::Bool(raw != 0)),
        Scalar::SInt32 => Ok(ResponseValue::Int(unzigzag_i32(raw) as i64)),
        Scalar::SInt64 => Ok(ResponseValue::Int(unzigzag_i64(raw))),
    }
}

/// Reads the value of a kind at a place.
pub fn decode_packable_value(kind: Scalar, bytes: &[u8], idx: usize) -> (r: Result<
    (ResponseValue, usize),
    PulseError,
>)
    ensures
        match r {
            Ok((v, next)) => scalar_at(kind, bytes@, idx as int) == Ok::<_, Seq<char>>(
                (response_view(v), next as int),
            ) && idx < next <= bytes@.len(),
            Err(e) => scalar_at(kind, bytes@, idx as int) matches Err(m) && e.is_client(m),
        },
{
    let (raw, next) = read_raw(kind, bytes, idx)?;
    let value = value_of(kind, raw)?;
    Ok((value, next))
}

/// What a number takes is at least one byte, within the bytes.
pub proof fn lemma_varint_len_within(bytes: Seq<u8>, i: int, k: nat)
    ensures
        varint_len(bytes, i, k) matches Ok(n) ==> n >= 1 && i + n <= bytes.len(),
    decreases 10 - k,
{
    if i + k < bytes.len() && bytes[i + k] >= 128 && k < 9 {
        lemma_varint_len_within(bytes, i, k + 1);
    }
}

/// A number that was read takes at least one byte, within the bytes.
pub proof fn lemma_varint_advances(bytes: Seq<u8>, i: int)
    ensures
        varint_at(bytes, i) matches Ok((_, next)) ==> i < next <= bytes.len(),
{
    lemma_varint_len_within(bytes, i, 0);
}

/// A value that was read takes at least one byte, within the bytes.
pub proof fn lemma_scalar_advances(kind: Scalar, bytes: Seq<u8>, i: int)
    ensures
        scalar_at(kind, bytes, i) matches Ok((_, next)) ==> i < next <= bytes.len(),
{
    lemma_varint_advances(bytes, i);
}

/// The values of a kind from a place to an end. The last may reach beyond the end.
pub open spec fn packed_at(kind: Scalar, bytes: Seq<u8>, i: int, end: int) -> Result<
    Seq<ResponseView>,
    Seq<char>,
>
    decreases if i < end { end - i } else { 0 },
{
    if i >= end {
        Ok(Seq::empty())
    } else {
        match scalar_at(kind, bytes, i) {
            Err(e) => Err(e),
            Ok((v, next)) => {
                proof {
                    lemma_scalar_advances(kind, bytes, i);
                }
                match packed_at(kind, bytes, next, end) {
                    Err(e) => Err(e),
                    Ok(rest) => Ok(seq![v] + rest),
                }
            },
        }
    }
}

fn decode_packed(kind: Scalar, bytes: &[u8], start: usize, end: usize) -> (r: Result<
    Vec<ResponseValue>,
    PulseError,
>)
    requires
        end <= bytes@.len(),
    ensures
        match r {
            Ok(items) => packed_at(kind, bytes@, start as int, end as int) == Ok::<_, Seq<char>>(
                item_views(items@),
            ),
            Err(e) => packed_at(kind, bytes@, start as int, end as int) matches Err(m)
                && e.is_client(m),
        },
{
    let ghost all = packed_at(kind, bytes@, start as int, end as int);
    let mut items: Vec<ResponseValue> = Vec::new();
    let mut i: usize = start;
    proof {
        if all is Ok {
            assert(item_views(items@) + all->Ok_0 =~= all->Ok_0);
        }
    }
    while i < end
        invariant
            end <= bytes@.len(),
            all == packed_at(kind, bytes@, start as int, end as int),
            match packed_at(kind, bytes@, i as int, end as int) {
                Ok(rest) => all == Ok::<_, Seq<char>>(item_views(items@) + rest),
                Err(e) => all == Err::<Seq<ResponseView>, _>(e),
            },
        decreases if i < end { end - i } else { 0 },
    {
        let (value, next) = decode_packable_value(kind, bytes, i)?;
        proof {
            lemma_items_pushed(items@, value);
            let one = response_view(value);
            if packed_at(kind, bytes@, next as int, end as int) is Ok {
                let rest = packed_at(kind, bytes@, next as int, end as int)->Ok_0;
                assert(item_views(items@) + (seq![one] + rest) =~= item_views(items@).push(one)
                    + rest);
            }
        }
        items.push(value);
        i = next;
    }
    assert(item_views(items@) + Seq::<ResponseView>::empty() =~= item_views(items@));
    Ok(items)
}

// ---------------------------------------------------------------------------
// Messages
// ---------------------------------------------------------------------------

/// That a field is not written as it should be.
pub open spec fn unexpected_wire_type(wire_type: u8, expected: u8, field: Seq<char>) -> Seq<char> {
    "unexpected wire type "@ + decimal(wire_type as nat) + " for field '"@ + field + (
    "' (expected "@ + decimal(expected as nat) + ")"@)
}

/// Whether a field is written as it should be.
pub fn ensure_wire_type(wire_type: u8, expected: u8, field: &FieldSchema) -> (r: Result<
    (),
    PulseError,
>)
    ensures
        match r {
            Ok(()) => wire_type == expected,
            Err(e) => wire_type != expected && e.is_client(
                unexpected_wire_type(wire_type, expected, field.name@),
            ),
        },
{
    if wire_type == expected {
        return Ok(());
    }
    let head = concat4(
        "unexpected wire type ",
        &decimal_u64(wire_type as u64),
        " for field '",
        &field.name,
    );
    let tail = concat3("' (expected ", &decimal_u64(expected as u64), ")");
    Err(PulseError::Client(concat2(&head, &tail)))
}

/// How a field of a kind is written.
pub open spec fn expected_wire_type(kind: KindView) -> u8 {
    match kind {
        KindView::Scalar(k) => wire_type_of(k),
        _ => 2,
    }
}

/// The number of the field that a key stands for.
pub open spec fn key_number(key: u64) -> u32 {
    ((key / 8) as nat % (WORD32 as nat)) as u32
}

/// How the value behind a key is written.
pub open spec fn key_wire_type(key: u64) -> u8 {
    (key % 8) as u8
}

/// The end of values that stand together, and where they begin.
pub open spec fn packed_data_at(bytes: Seq<u8>, i: int) -> Result<(int, int), Seq<char>> {
    delimited_at(
        bytes,
        i,
        "packed field length overflow"@,
        "packed field exceeds payload bounds"@,
    )
}

/// Length-delimited data that was found lies within the bytes.
pub proof fn lemma_delimited_within(bytes: Seq<u8>, i: int, overflow: Seq<char>, beyond: Seq<char>)
    requires
        0 <= i,
    ensures
        delimited_at(bytes, i, overflow, beyond) matches Ok((start, end)) ==> i < start <= end
            <= bytes.len(),
{
    lemma_varint_advances(bytes, i);
}

/// What is skipped lies within the bytes.
pub proof fn lemma_skipped_within(wire_type: u8, bytes: Seq<u8>, i: int)
    requires
        0 <= i,
    ensures
        skipped(wire_type, bytes, i) matches Ok(next) ==> i <= next <= bytes.len(),
{
    lemma_varint_advances(bytes, i);
    lemma_delimited_within(
        bytes,
        i,
        "buffer index overflow"@,
        "buffer underflow while decoding"@,
    );
}

/// Where the bytes of one value of a field begin and end.
pub open spec fn value_span(field: FieldView, wire_type: u8, bytes: Seq<u8>, i: int) -> Result<
    (int, int),
    Seq<char>,
> {
    if wire_type != expected_wire_type(field.kind) {
        Err(unexpected_wire_type(wire_type, expected_wire_type(field.kind), field.name))
    } else {
        match field.kind {
            KindView::Scalar(kind) => match raw_at(kind, bytes, i) {
                Err(e) => Err(e),
                Ok((_, next)) => Ok((i, next)),
            },
            _ => data_at(bytes, i),
        }
    }
}

/// The bytes of a value that was found lie within the bytes behind the place.
pub proof fn lemma_span_within(field: FieldView, wire_type: u8, bytes: Seq<u8>, i: int)
    requires
        0 <= i,
    ensures
        value_span(field, wire_type, bytes, i) matches Ok((start, end)) ==> i <= start <= end
            <= bytes.len() && i < end,
{
    lemma_varint_advances(bytes, i);
    lemma_delimited_within(
        bytes,
        i,
        "length-delimited overflow"@,
        "length-delimited field exceeds payload"@,
    );
}

proof fn lemma_varint_len_local(bytes: Seq<u8>, i: int, k: nat, n: nat)
    requires
        0 <= i,
        varint_len(bytes, i, k) == Ok::<nat, Seq<char>>(n),
    ensures
        k < n,
        i + n <= bytes.len(),
        varint_len(bytes.subrange(i, i + n), 0, k) == Ok::<nat, Seq<char>>(n),
    decreases 10 - k,
{
    lemma_varint_len_within(bytes, i, k);
    if bytes[i + k] >= 128 {
        lemma_varint_len_local(bytes, i, k + 1, n);
    }
    assert(bytes.subrange(i, i + n)[k as int] == bytes[i + k]);
}

/// A scalar is read from its own bytes as it is read in its place.
pub proof fn lemma_scalar_local(kind: Scalar, bytes: Seq<u8>, i: int)
    requires
        0 <= i,
        bytes.len() <= usize::MAX,
    ensures
        raw_at(kind, bytes, i) matches Ok((raw, next)) ==> raw_at(
            kind,
            bytes.subrange(i, next),
            0,
        ) == Ok::<_, Seq<char>>((raw, next - i)),
{
    if raw_at(kind, bytes, i) is Ok {
        let (raw, next) = raw_at(kind, bytes, i)->Ok_0;
        lemma_scalar_advances_raw(kind, bytes, i);
        let data = bytes.subrange(i, next);
        assert(data.subrange(0, next - i) =~= data);
        if wire_type_of(kind) == 0 {
            lemma_varint_len_local(bytes, i, 0, (next - i) as nat);
        }
    }
}

proof fn lemma_scalar_advances_raw(kind: Scalar, bytes: Seq<u8>, i: int)
    ensures
        raw_at(kind, bytes, i) matches Ok((_, next)) ==> i < next <= bytes.len(),
{
    lemma_varint_advances(bytes, i);
}

/// What bytes that stand for a message are.
pub open spec fn message_at(
    name: Seq<char>,
    bytes: Seq<u8>,
    messages: Map<Seq<char>, MessageView>,
) -> Result<ResponseView, Seq<char>>
    decreases bytes.len(), bytes.len() + 2,
{
    if !messages.dom().contains(name) {
        Err("message '"@ + name + "' not found in descriptor set"@)
    } else {
        match fields_at(messages[name], bytes, 0, Seq::empty(), messages) {
            Err(e) => Err(e),
            Ok(fields) => Ok(ResponseView::Object(fields)),
        }
    }
}

/// The fields of a message from a place on, behind those that were read. Fields that
/// are not known are left out.
pub open spec fn fields_at(
    schema: MessageView,
    bytes: Seq<u8>,
    i: nat,
    done: Seq<(Seq<char>, ResponseView)>,
    messages: Map<Seq<char>, MessageView>,
) -> Result<Seq<(Seq<char>, ResponseView)>, Seq<char>>
    decreases bytes.len(), bytes.len() + 1 - i,
{
    if i >= bytes.len() {
        Ok(done)
    } else {
        match varint_at(bytes, i as int) {
            Err(e) => Err(e),
            Ok((key, at)) => {
                let number = key_number(key);
                let wire_type = key_wire_type(key);
                proof {
                    lemma_varint_advances(bytes, i as int);
                    lemma_skipped_within(wire_type, bytes, at);
                    lemma_delimited_within(
                        bytes,
                        at,
                        "packed field length overflow"@,
                        "packed field exceeds payload bounds"@,
                    );
                }
                if !schema.by_number.dom().contains(number) {
                    match skipped(wire_type, bytes, at) {
                        Err(e) => Err(e),
                        Ok(next) => fields_at(schema, bytes, next as nat, done, messages),
                    }
                } else {
                    let field = schema.by_number[number];
                    if field.repeated && field.kind is Scalar && wire_type == 2 {
                        match packed_data_at(bytes, at) {
                            Err(e) => Err(e),
                            Ok((start, end)) => match packed_at(
                                field.kind->Scalar_0,
                                bytes,
                                start,
                                end,
                            ) {
                                Err(e) => Err(e),
                                Ok(items) => fields_at(
                                    schema,
                                    bytes,
                                    end as nat,
                                    with_value(
                                        done,
                                        field.name,
                                        ResponseView::Array(items),
                                        true,
                                    ),
                                    messages,
                                ),
                            },
                        }
                    } else {
                        match value_span(field, wire_type, bytes, at) {
                            Err(e) => Err(e),
                            Ok((start, end)) => {
                                proof {
                                    lemma_span_within(field, wire_type, bytes, at);
                                }
                                match value_within(
                                    field,
                                    bytes.subrange(start, end),
                                    messages,
                                ) {
                                    Err(e) => Err(e),
                                    Ok(v) => fields_at(
                                        schema,
                                        bytes,
                                        end as nat,
                                        with_value(done, field.name, v, field.repeated),
                                        messages,
                                    ),
                                }
                            },
                        }
                    }
                }
            },
        }
    }
}

/// What the bytes of one value of a field stand for: a scalar, a message, or a text,
/// which stands for itself or, in base64, for bytes.
pub open spec fn value_within(
    field: FieldView,
    data: Seq<u8>,
    messages: Map<Seq<char>, MessageView>,
) -> Result<ResponseView, Seq<char>>
    decreases data.len(), data.len() + 3,
{
    match field.kind {
        KindView::Scalar(kind) => match scalar_at(kind, data, 0) {
            Err(e) => Err(e),
            Ok((v, _)) => Ok(v),
        },
        KindView::Message(name) => message_at(name, data, messages),
        KindView::Bytes => Ok(ResponseView::Text(base64_text(data))),
        KindView::Text => if vstd::utf8::valid_utf8(data) {
            Ok(ResponseView::Text(vstd::utf8::decode_utf8(data)))
        } else {
            Err("invalid utf8 in field '"@ + field.name + "': "@ + utf8_error(data))
        },
    }
}

/// One value of a field at a place, and the place behind it.
pub open spec fn single_at(
    field: FieldView,
    wire_type: u8,
    bytes: Seq<u8>,
    i: int,
    messages: Map<Seq<char>, MessageView>,
) -> Result<(ResponseView, int), Seq<char>> {
    match value_span(field, wire_type, bytes, i) {
        Err(e) => Err(e),
        Ok((start, end)) => match value_within(field, bytes.subrange(start, end), messages) {
            Err(e) => Err(e),
            Ok(v) => Ok((v, end)),
        },
    }
}

/// The bytes of a response that can be held with what is made of them.
pub open spec fn holdable(bytes: Seq<u8>) -> bool {
    bytes.len() <= isize::MAX / 2
}

/// Reads a message.
pub fn decode_message(name: &str, bytes: &[u8], messages: &TextMap<MessageSchema>) -> (r: Result<
    ResponseValue,
    PulseError,
>)
    requires
        messages_wf(*messages),
        holdable(bytes@),
    ensures
        match r {
            Ok(v) => message_at(name@, bytes@, message_views(messages@)) == Ok::<_, Seq<char>>(
                response_view(v),
            ),
            Err(e) => message_at(name@, bytes@, message_views(messages@)) matches Err(m)
                && e.is_client(m),
        },
    decreases bytes@.len(), bytes@.len() + 2,
{
    let ghost views = message_views(messages@);
    let schema: &MessageSchema = match messages.get(name) {
        Some(schema) => schema,
        None => {
            return Err(
                PulseError::Client(concat3("message '", name, "' not found in descriptor set")),
            );
        },
    };
    let mut out: Vec<(String, ResponseValue)> = Vec::new();
    let ghost all = fields_at(schema@, bytes@, 0, Seq::empty(), views);
    let mut idx: usize = 0;
    assert(entry_views(out@) =~= Seq::<(Seq<char>, ResponseView)>::empty());
    while idx < bytes.len()
        invariant
            idx <= bytes@.len(),
            messages_wf(*messages),
            holdable(bytes@),
            schema.wf(),
            views == message_views(messages@),
            all == fields_at(schema@, bytes@, 0, Seq::empty(), views),
            all == fields_at(schema@, bytes@, idx as nat, entry_views(out@), views),
            message_at(name@, bytes@, views) == (match all {
                Err(e) => Err(e),
                Ok(fields) => Ok(ResponseView::Object(fields)),
            }),
        decreases bytes@.len() - idx,
    {
        let (key, at) = read_varint(bytes, idx)?;
        let number: u32 = low32(key / 8);
        let wire_type: u8 = (key % 8) as u8;
        let field: &FieldSchema = match schema.field(number) {
            Some(field) => field,
            None => {
                let next: usize = skip_wire_value(wire_type, bytes, at)?;
                idx = next;
                continue;
            },
        };
        if field.repeated && wire_type == 2 {
            if let FieldKind::Scalar(kind) = &field.kind {
                let (start, end) = read_delimited(
                    bytes,
                    at,
                    "packed field length overflow",
                    "packed field exceeds payload bounds",
                )?;
                let items = decode_packed(*kind, bytes, start, end)?;
                append_decoded_field(&mut out, &field.name, ResponseValue::Array(items), true);
                idx = end;
                continue;
            }
        }
        let (value, next) = decode_single_field_value(field, wire_type, bytes, at, messages)?;
        append_decoded_field(&mut out, &field.name, value, field.repeated);
        idx = next;
    }
    Ok(ResponseValue::Object(out))
}

/// Reads one value of a field.
pub fn decode_single_field_value(
    field: &FieldSchema,
    wire_type: u8,
    bytes: &[u8],
    idx: usize,
    messages: &TextMap<MessageSchema>,
) -> (r: Result<(ResponseValue, usize), PulseError>)
    requires
        messages_wf(*messages),
        holdable(bytes@),
    ensures
        match r {
            Ok((v, next)) => single_at(
                field@,
                wire_type,
                bytes@,
                idx as int,
                message_views(messages@),
            ) == Ok::<_, Seq<char>>((response_view(v), next as int)) && idx < next <= bytes@.len(),
            Err(e) => single_at(
                field@,
                wire_type,
                bytes@,
                idx as int,
                message_views(messages@),
            ) matches Err(m) && e.is_client(m),
        },
    decreases bytes@.len(), 0nat,
{
    let n: usize = bytes.len();
    if let FieldKind::Scalar(kind) = &field.kind {
        ensure_wire_type(wire_type, scalar_wire_type(*kind), field)?;
        proof {
            lemma_scalar_local(*kind, bytes@, idx as int);
        }
        return decode_packable_value(*kind, bytes, idx);
    }
    ensure_wire_type(wire_type, 2, field)?;
    let (start, end) = read_length_delimited(bytes, idx)?;
    let data: &[u8] = slice_subrange(bytes, start, end);
    match &field.kind {
        FieldKind::Message(name) => {
            let value = decode_message(name, data, messages)?;
            Ok((value, end))
        },
        FieldKind::Bytes => {
            assert(base64_len(data@.len()) <= isize::MAX);
            Ok((ResponseValue::Text(encode_base64(data)), end))
        },
        _ => {
            let mut copy: Vec<u8> = Vec::new();
            append_bytes(&mut copy, data);
            assert(copy@ =~= data@);
            match text_of(copy) {
                Ok(text) => Ok((ResponseValue::Text(text), end)),
                Err(e) => Err(
                    PulseError::Client(
                        concat4("invalid utf8 in field '", &field.name, "': ", &e),
                    ),
                ),
            }
        },
    }
}

} // verus!
