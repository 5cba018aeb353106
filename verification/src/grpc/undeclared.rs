//! Fields that a message does not declare change nothing.
use vstd::prelude::*;
#[allow(unused_imports)]
use super::decode::{
    fields_at, key_number, key_wire_type, lemma_delimited_within, lemma_scalar_advances,
    lemma_skipped_within, lemma_span_within, lemma_varint_advances, lemma_varint_len_within,
    message_at, packed_at, packed_data_at, raw_at, scalar_at, value_span, value_within, with_value,
    ResponseView,
};
#[allow(unused_imports)]
use super::encode::{message_bytes, wire_type_of};
#[allow(unused_imports)]
use super::round_trip::{lemma_message_round_trip, message_echo, message_echoes};
#[allow(unused_imports)]
use super::schema::{FieldView, KindView, MessageView, Scalar};
#[allow(unused_imports)]
use super::schema_laws::all_consistent;
#[allow(unused_imports)]
use super::value::JsonValue;
#[allow(unused_imports)]
use super::wire::{
    data_at, delimited, delimited_at, end_after, key_of, lemma_delimited_round_trip,
    lemma_varint_round_trip, lemma_word_round_trip, little_endian, pow256, skipped, varint,
    varint_at, varint_len,
};

verus! {

// ---------------------------------------------------------------------------
// What is read does not depend on what stands around it
// ---------------------------------------------------------------------------

proof fn lemma_varint_len_embedded(
    before: Seq<u8>,
    bytes: Seq<u8>,
    after: Seq<u8>,
    i: int,
    k: nat,
)
    requires
        0 <= i,
        varint_len(bytes, i, k) is Ok,
    ensures
        varint_len(before + bytes + after, before.len() + i, k) == varint_len(bytes, i, k),
    decreases 10 - k,
{
    assert((before + bytes + after)[before.len() + i + k] == bytes[i + k]);
    if bytes[i + k] >= 128 {
        lemma_varint_len_embedded(before, bytes, after, i, k + 1);
    }
}

pub(crate) proof fn lemma_varint_embedded(before: Seq<u8>, bytes: Seq<u8>, after: Seq<u8>, i: int)
    requires
        0 <= i,
    ensures
        varint_at(bytes, i) matches Ok((n, next)) ==> varint_at(
            before + bytes + after,
            before.len() + i,
        ) == Ok::<_, Seq<char>>((n, before.len() + next)),
{
    if varint_at(bytes, i) is Ok {
        lemma_varint_len_embedded(before, bytes, after, i, 0);
        lemma_varint_len_within(bytes, i, 0);
        let n = varint_len(bytes, i, 0)->Ok_0;
        let at = before.len() + i;
        assert((before + bytes + after).subrange(at, at + n) =~= bytes.subrange(i, i + n));
    }
}

pub(crate) proof fn lemma_delimited_embedded(
    before: Seq<u8>,
    bytes: Seq<u8>,
    after: Seq<u8>,
    i: int,
    overflow: Seq<char>,
    beyond: Seq<char>,
)
    requires
        0 <= i,
        before.len() + bytes.len() + after.len() <= usize::MAX,
    ensures
        delimited_at(bytes, i, overflow, beyond) matches Ok((start, end)) ==> delimited_at(
            before + bytes + after,
            before.len() + i,
            overflow,
            beyond,
        ) == Ok::<_, Seq<char>>((before.len() + start, before.len() + end)),
{
    lemma_varint_embedded(before, bytes, after, i);
}

pub(crate) proof fn lemma_skipped_embedded(
    wire_type: u8,
    before: Seq<u8>,
    bytes: Seq<u8>,
    after: Seq<u8>,
    i: int,
)
    requires
        0 <= i,
        before.len() + bytes.len() + after.len() <= usize::MAX,
    ensures
        skipped(wire_type, bytes, i) matches Ok(next) ==> skipped(
            wire_type,
            before + bytes + after,
            before.len() + i,
        ) == Ok::<int, Seq<char>>(before.len() + next),
{
    lemma_varint_embedded(before, bytes, after, i);
    lemma_delimited_embedded(
        before,
        bytes,
        after,
        i,
        "buffer index overflow"@,
        "buffer underflow while decoding"@,
    );
}

pub(crate) proof fn lemma_raw_embedded(kind: Scalar, bytes: Seq<u8>, after: Seq<u8>, i: int)
    requires
        0 <= i,
        bytes.len() + after.len() <= usize::MAX,
        raw_at(kind, bytes, i) is Ok,
    ensures
        raw_at(kind, bytes + after, i) == raw_at(kind, bytes, i),
{
    let none = Seq::<u8>::empty();
    assert(none + bytes + after =~= bytes + after);
    lemma_varint_embedded(none, bytes, after, i);
    let next = raw_at(kind, bytes, i)->Ok_0.1;
    lemma_varint_advances(bytes, i);
    assert((bytes + after).subrange(i, next) =~= bytes.subrange(i, next));
}

pub(crate) proof fn lemma_packed_embedded(kind: Scalar, bytes: Seq<u8>, after: Seq<u8>, i: int, end: int)
    requires
        0 <= i,
        bytes.len() + after.len() <= usize::MAX,
        packed_at(kind, bytes, i, end) is Ok,
    ensures
        packed_at(kind, bytes + after, i, end) == packed_at(kind, bytes, i, end),
    decreases if i < end { end - i } else { 0 },
{
    if i < end {
        lemma_raw_embedded(kind, bytes, after, i);
        lemma_scalar_advances(kind, bytes, i);
        let next = scalar_at(kind, bytes, i)->Ok_0.1;
        lemma_packed_embedded(kind, bytes, after, next, end);
    }
}

proof fn lemma_span_embedded(
    field: FieldView,
    wire_type: u8,
    bytes: Seq<u8>,
    after: Seq<u8>,
    i: int,
)
    requires
        0 <= i,
        bytes.len() + after.len() <= usize::MAX,
        value_span(field, wire_type, bytes, i) is Ok,
    ensures
        value_span(field, wire_type, bytes + after, i) == value_span(field, wire_type, bytes, i),
{
    let none = Seq::<u8>::empty();
    assert(none + bytes + after =~= bytes + after);
    match field.kind {
        KindView::Scalar(kind) => {
            lemma_raw_embedded(kind, bytes, after, i);
        },
        _ => {
            lemma_delimited_embedded(
                none,
                bytes,
                after,
                i,
                "length-delimited overflow"@,
                "length-delimited field exceeds payload"@,
            );
        },
    }
}

/// Bytes that were read as fields are read in the same way where more bytes follow, and
/// reading goes on behind them.
pub(crate) proof fn lemma_fields_embedded(
    schema: MessageView,
    bytes: Seq<u8>,
    after: Seq<u8>,
    i: nat,
    done: Seq<(Seq<char>, ResponseView)>,
    messages: Map<Seq<char>, MessageView>,
)
    requires
        i <= bytes.len(),
        bytes.len() + after.len() <= usize::MAX,
        fields_at(schema, bytes, i, done, messages) is Ok,
    ensures
        fields_at(schema, bytes + after, i, done, messages) == fields_at(
            schema,
            bytes + after,
            bytes.len(),
            fields_at(schema, bytes, i, done, messages)->Ok_0,
            messages,
        ),
    decreases bytes.len() - i,
{
    if i < bytes.len() {
        let all = bytes + after;
        let none = Seq::<u8>::empty();
        assert(none + bytes + after =~= all);
        lemma_varint_embedded(none, bytes, after, i as int);
        lemma_varint_advances(bytes, i as int);
        let (key, at) = varint_at(bytes, i as int)->Ok_0;
        let number = key_number(key);
        let wire_type = key_wire_type(key);
        if !schema.by_number.dom().contains(number) {
            lemma_skipped_embedded(wire_type, none, bytes, after, at);
            lemma_skipped_within(wire_type, bytes, at);
            let next = skipped(wire_type, bytes, at)->Ok_0;
            lemma_fields_embedded(schema, bytes, after, next as nat, done, messages);
        } else {
            let field = schema.by_number[number];
            if field.repeated && field.kind is Scalar && wire_type == 2 {
                let overflow = "packed field length overflow"@;
                let beyond = "packed field exceeds payload bounds"@;
                lemma_delimited_embedded(none, bytes, after, at, overflow, beyond);
                lemma_delimited_within(bytes, at, overflow, beyond);
                let (start, end) = packed_data_at(bytes, at)->Ok_0;
                let kind = field.kind->Scalar_0;
                lemma_packed_embedded(kind, bytes, after, start, end);
                let items = packed_at(kind, bytes, start, end)->Ok_0;
                let next = with_value(done, field.name, ResponseView::Array(items), true);
                lemma_fields_embedded(schema, bytes, after, end as nat, next, messages);
            } else {
                lemma_span_embedded(field, wire_type, bytes, after, at);
                lemma_span_within(field, wire_type, bytes, at);
                let (start, end) = value_span(field, wire_type, bytes, at)->Ok_0;
                assert(all.subrange(start, end) =~= bytes.subrange(start, end));
                let v = value_within(field, bytes.subrange(start, end), messages)->Ok_0;
                let next = with_value(done, field.name, v, field.repeated);
                lemma_fields_embedded(schema, bytes, after, end as nat, next, messages);
            }
        }
    }
}

// ---------------------------------------------------------------------------
// Undeclared fields
// ---------------------------------------------------------------------------

/// Whether bytes from a place on are well-formed fields that a message does not declare.
pub open spec fn undeclared(schema: MessageView, bytes: Seq<u8>, i: nat) -> bool
    decreases bytes.len() + 1 - i,
{
    if i >= bytes.len() {
        i == bytes.len()
    } else {
        match varint_at(bytes, i as int) {
            Err(_) => false,
            Ok((key, at)) => {
                proof {
                    lemma_varint_advances(bytes, i as int);
                    lemma_skipped_within(key_wire_type(key), bytes, at);
                }
                !schema.by_number.dom().contains(key_number(key)) && match skipped(
                    key_wire_type(key),
                    bytes,
                    at,
                ) {
                    Err(_) => false,
                    Ok(next) => undeclared(schema, bytes, next as nat),
                }
            },
        }
    }
}

proof fn lemma_undeclared_left_out(
    schema: MessageView,
    bytes: Seq<u8>,
    after: Seq<u8>,
    i: nat,
    done: Seq<(Seq<char>, ResponseView)>,
    messages: Map<Seq<char>, MessageView>,
)
    requires
        bytes.len() + after.len() <= usize::MAX,
        undeclared(schema, after, i),
    ensures
        fields_at(schema, bytes + after, bytes.len() + i, done, messages) == Ok::<_, Seq<char>>(
            done,
        ),
    decreases after.len() + 1 - i,
{
    if i < after.len() {
        let none = Seq::<u8>::empty();
        assert(bytes + after + none =~= bytes + after);
        let (key, at) = varint_at(after, i as int)->Ok_0;
        let wire_type = key_wire_type(key);
        lemma_varint_embedded(bytes, after, none, i as int);
        lemma_varint_advances(after, i as int);
        lemma_skipped_embedded(wire_type, bytes, after, none, at);
        lemma_skipped_within(wire_type, after, at);
        let next = skipped(wire_type, after, at)->Ok_0;
        lemma_undeclared_left_out(schema, bytes, after, next as nat, done, messages);
    }
}

/// A message that can be read stays what it is where well-formed fields follow that it
/// does not declare.
pub proof fn lemma_undeclared_fields_change_nothing(
    name: Seq<char>,
    bytes: Seq<u8>,
    after: Seq<u8>,
    messages: Map<Seq<char>, MessageView>,
)
    requires
        message_at(name, bytes, messages) is Ok,
        undeclared(messages[name], after, 0),
        bytes.len() + after.len() <= usize::MAX,
    ensures
        message_at(name, bytes + after, messages) == message_at(name, bytes, messages),
{
    let schema = messages[name];
    let done = fields_at(schema, bytes, 0, Seq::empty(), messages)->Ok_0;
    lemma_fields_embedded(schema, bytes, after, 0, Seq::empty(), messages);
    lemma_undeclared_left_out(schema, bytes, after, 0, done, messages);
}

/// What was written is read back, also where well-formed fields follow that the message
/// does not declare.
pub proof fn lemma_message_round_trip_with_undeclared(
    name: Seq<char>,
    value: JsonValue,
    after: Seq<u8>,
    messages: Map<Seq<char>, MessageView>,
)
    requires
        message_echoes(name, value, messages),
        all_consistent(messages),
        undeclared(messages[name], after, 0),
    ensures
        message_bytes(name, value, messages) matches Ok(bytes) && (bytes.len() + after.len()
            <= usize::MAX ==> message_at(name, bytes + after, messages) == Ok::<_, Seq<char>>(
            message_echo(name, value, messages),
        )),
{
    lemma_message_round_trip(name, value, messages);
    let bytes = message_bytes(name, value, messages)->Ok_0;
    if bytes.len() + after.len() <= usize::MAX {
        lemma_undeclared_fields_change_nothing(name, bytes, after, messages);
    }
}

/// The value of a field of any schema.
pub enum WireValue {
    Number(u64),
    Word64(u64),
    Data(Seq<u8>),
    Word32(u32),
}

impl WireValue {
    /// How the value is written.
    pub open spec fn wire_type(self) -> u8 {
        match self {
            WireValue::Number(_) => 0,
            WireValue::Word64(_) => 1,
            WireValue::Data(_) => 2,
            WireValue::Word32(_) => 5,
        }
    }

    /// The bytes of the value.
    pub open spec fn bytes(self) -> Seq<u8> {
        match self {
            WireValue::Number(n) => varint(n as nat),
            WireValue::Word64(n) => little_endian(n as nat, 8),
            WireValue::Data(data) => delimited(data),
            WireValue::Word32(n) => little_endian(n as nat, 4),
        }
    }
}

/// The bytes of a field: its key and its value.
pub open spec fn wire_field(number: u32, value: WireValue) -> Seq<u8> {
    varint(key_of(number, value.wire_type())) + value.bytes()
}

proof fn lemma_undeclared_shifted(schema: MessageView, first: Seq<u8>, rest: Seq<u8>, i: nat)
    requires
        first.len() + rest.len() <= usize::MAX,
        undeclared(schema, rest, i),
    ensures
        undeclared(schema, first + rest, first.len() + i),
    decreases rest.len() + 1 - i,
{
    if i < rest.len() {
        let none = Seq::<u8>::empty();
        assert(first + rest + none =~= first + rest);
        let (key, at) = varint_at(rest, i as int)->Ok_0;
        let wire_type = key_wire_type(key);
        lemma_varint_embedded(first, rest, none, i as int);
        lemma_varint_advances(rest, i as int);
        lemma_skipped_embedded(wire_type, first, rest, none, at);
        lemma_skipped_within(wire_type, rest, at);
        lemma_undeclared_shifted(schema, first, rest, skipped(wire_type, rest, at)->Ok_0 as nat);
    }
}

/// A written field whose number a message does not declare, followed by such fields, is
/// made of such fields.
pub proof fn lemma_written_fields_are_undeclared(
    schema: MessageView,
    number: u32,
    value: WireValue,
    rest: Seq<u8>,
)
    requires
        !schema.by_number.dom().contains(number),
        undeclared(schema, rest, 0),
        wire_field(number, value).len() + rest.len() <= usize::MAX,
    ensures
        undeclared(schema, wire_field(number, value) + rest, 0),
{
    let wire_type = value.wire_type();
    let none = Seq::<u8>::empty();
    let head = varint(key_of(number, wire_type));
    let first = wire_field(number, value);
    let all = first + rest;
    assert(none + head + (value.bytes() + rest) =~= all);
    assert(head + value.bytes() + rest =~= all);
    lemma_varint_round_trip(none, key_of(number, wire_type) as u64, value.bytes() + rest);
    let at = head.len() as int;
    match value {
        WireValue::Number(n) => lemma_varint_round_trip(head, n, rest),
        WireValue::Word64(n) => {
            reveal_with_fuel(pow256, 9);
            lemma_word_round_trip(n as nat, 8);
        },
        WireValue::Data(data) => lemma_delimited_round_trip(head, data, rest),
        WireValue::Word32(n) => {
            reveal_with_fuel(pow256, 5);
            lemma_word_round_trip(n as nat, 4);
        },
    }
    lemma_varint_advances(all, 0);
    lemma_undeclared_shifted(schema, first, rest, 0);
}

} // verus!
