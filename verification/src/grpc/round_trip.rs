//! What was written is read back.
use vstd::prelude::*;
#[allow(unused_imports)]
use super::decode::{
    entry_views, expected_wire_type, fields_at, finite_double, finite_single,
    key_number, key_wire_type, lemma_delimited_within, lemma_span_within, lemma_varint_advances,
    message_at, packed_at, raw_at, scalar_at, scalar_value, single_at, value_span, value_within,
    with_value, ResponseView,
};
#[allow(unused_imports)]
use super::encode::{
    appended, by_number, field_bytes, field_chosen, field_parts, fields_chosen, followed, gathered,
    lemma_by_number_members, lemma_by_number_relabelled, lemma_field_part, measured, message_bytes, number_bytes,
    number_of_value, packed_bytes, placed, prefixed, relabelled, scalar_bytes, single_bytes,
    wire_type_of, Outcome,
};
#[allow(unused_imports)]
use super::schema::{FieldView, KindView, MessageView, Scalar};
#[allow(unused_imports)]
use super::schema_laws::{all_consistent, consistent};
#[allow(unused_imports)]
use super::value::{
    bool_of_value, bytes_of_value, double_of_value, i32_of_value, i64_of_value, own_text,
    single_of_value, text_of_value, u32_of_value, u64_of_value, whole_of_value, JsonValue,
};
#[allow(unused_imports)]
use super::wire::{
    data_at, delimited, fixed32_at, fixed64_at, key_of, lemma_delimited_round_trip,
    lemma_varint_round_trip, lemma_word_round_trip, lemma_zigzag_round_trip, little_endian, pow256,
    signed32, signed64, unsigned32, unsigned64, unzigzag, varint, varint_at, word, zigzag, WORD32,
    WORD64,
};
#[allow(unused_imports)]
use crate::byte_text::base64_text;
#[allow(unused_imports)]
use crate::text::{digits_value, parsed_signed, parsed_unsigned};

verus! {

// ---------------------------------------------------------------------------
// Scalars
// ---------------------------------------------------------------------------

/// The numbers that fields of a kind hold: floating-point numbers by their bits, flags
/// as one and zero.
pub open spec fn in_range(kind: Scalar, n: int) -> bool {
    match kind {
        Scalar::Double | Scalar::UInt64 | Scalar::Fixed64 => 0 <= n <= u64::MAX,
        Scalar::Float | Scalar::UInt32 | Scalar::Fixed32 => 0 <= n <= u32::MAX,
        Scalar::Bool => 0 <= n <= 1,
        Scalar::Int64 | Scalar::SFixed64 | Scalar::SInt64 => i64::MIN <= n <= i64::MAX,
        Scalar::Int32 | Scalar::Enum | Scalar::SFixed32 | Scalar::SInt32 => i32::MIN <= n
            <= i32::MAX,
    }
}

/// Whether a number can be given back in a response: infinite and undefined ones cannot.
pub open spec fn answerable(kind: Scalar, n: int) -> bool {
    match kind {
        Scalar::Double => finite_double(n as u64),
        Scalar::Float => finite_single(n as u32),
        _ => true,
    }
}

/// A number as a value of a response.
pub open spec fn number_view(kind: Scalar, n: int) -> ResponseView {
    match kind {
        Scalar::Double => ResponseView::Double(n as u64),
        Scalar::Float => ResponseView::Single(n as u32),
        Scalar::UInt64 | Scalar::Fixed64 | Scalar::UInt32 | Scalar::Fixed32 => ResponseView::UInt(
            n as u64,
        ),
        Scalar::Bool => ResponseView::Bool(n != 0),
        _ => ResponseView::Int(n as i64),
    }
}

/// The bits by which a number of a kind is written.
spec fn raw_of(kind: Scalar, n: int) -> nat {
    match kind {
        Scalar::Int64 | Scalar::SFixed64 => unsigned64(n),
        Scalar::Int32 | Scalar::Enum | Scalar::SFixed32 => unsigned32(n),
        Scalar::SInt32 | Scalar::SInt64 => zigzag(n),
        _ => n as nat,
    }
}

proof fn lemma_raw(kind: Scalar, n: int)
    requires
        in_range(kind, n),
    ensures
        raw_of(kind, n) <= u64::MAX,
        wire_type_of(kind) == 5 ==> raw_of(kind, n) <= u32::MAX,
        number_bytes(kind, n) == (if wire_type_of(kind) == 1 {
            little_endian(raw_of(kind, n), 8)
        } else if wire_type_of(kind) == 5 {
            little_endian(raw_of(kind, n), 4)
        } else {
            varint(raw_of(kind, n))
        }),
        answerable(kind, n) ==> scalar_value(kind, raw_of(kind, n) as u64) == Ok::<_, Seq<char>>(
            number_view(kind, n),
        ),
{
    lemma_zigzag_round_trip(n);
}

proof fn lemma_raw_round_trip(kind: Scalar, before: Seq<u8>, n: int, after: Seq<u8>)
    requires
        in_range(kind, n),
        before.len() + number_bytes(kind, n).len() + after.len() <= usize::MAX,
    ensures
        raw_at(kind, before + number_bytes(kind, n) + after, before.len() as int) == Ok::<
            _,
            Seq<char>,
        >((raw_of(kind, n) as u64, (before.len() + number_bytes(kind, n).len()) as int)),
{
    lemma_raw(kind, n);
    let raw = raw_of(kind, n);
    let bytes = number_bytes(kind, n);
    let all = before + bytes + after;
    let i = before.len() as int;
    if wire_type_of(kind) == 1 {
        reveal_with_fuel(pow256, 9);
        lemma_word_round_trip(raw, 8);
        assert(all.subrange(i, i + 8) =~= bytes);
    } else if wire_type_of(kind) == 5 {
        reveal_with_fuel(pow256, 5);
        lemma_word_round_trip(raw, 4);
        assert(all.subrange(i, i + 4) =~= bytes);
    } else {
        lemma_varint_round_trip(before, raw as u64, after);
    }
}

/// Reading the bytes of a number, wherever they stand, gives the number back and leaves
/// off behind them.
pub proof fn lemma_scalar_round_trip(kind: Scalar, before: Seq<u8>, n: int, after: Seq<u8>)
    requires
        in_range(kind, n),
        answerable(kind, n),
        before.len() + number_bytes(kind, n).len() + after.len() <= usize::MAX,
    ensures
        scalar_at(kind, before + number_bytes(kind, n) + after, before.len() as int) == Ok::<
            _,
            Seq<char>,
        >((number_view(kind, n), (before.len() + number_bytes(kind, n).len()) as int)),
{
    lemma_raw(kind, n);
    lemma_raw_round_trip(kind, before, n, after);
}

/// What a field takes from a value is within the range of its kind.
pub proof fn lemma_number_in_range(kind: Scalar, value: JsonValue)
    ensures
        number_of_value(kind, value) matches Ok(n) ==> in_range(kind, n),
{
}

/// The numbers that a field takes from values.
pub open spec fn numbers_of(kind: Scalar, items: Seq<JsonValue>) -> Seq<int> {
    items.map_values(|v: JsonValue| number_of_value(kind, v)->Ok_0)
}

/// Reading values that stand together gives all of them back.
pub proof fn lemma_packed_round_trip(
    kind: Scalar,
    before: Seq<u8>,
    items: Seq<JsonValue>,
    after: Seq<u8>,
)
    requires
        packed_bytes(kind, items) is Ok,
        forall|i: int|
            0 <= i < items.len() ==> answerable(
                kind,
                number_of_value(kind, #[trigger] items[i])->Ok_0,
            ),
        before.len() + packed_bytes(kind, items)->Ok_0.len() + after.len() <= usize::MAX,
    ensures
        ({
            let packed = packed_bytes(kind, items)->Ok_0;
            packed_at(
                kind,
                before + packed + after,
                before.len() as int,
                (before.len() + packed.len()) as int,
            ) == Ok::<_, Seq<char>>(
                numbers_of(kind, items).map_values(|n: int| number_view(kind, n)),
            )
        }),
    decreases items.len(),
{
    let packed = packed_bytes(kind, items)->Ok_0;
    let all = before + packed + after;
    let views = numbers_of(kind, items).map_values(|n: int| number_view(kind, n));
    if items.len() == 0 {
        assert(views =~= Seq::<ResponseView>::empty());
    } else {
        let n = number_of_value(kind, items[0])->Ok_0;
        let first = number_bytes(kind, n);
        let rest = packed_bytes(kind, items.skip(1))->Ok_0;
        lemma_number_in_range(kind, items[0]);
        assert(packed =~= first + rest);
        assert(all =~= before + first + (rest + after));
        lemma_scalar_round_trip(kind, before, n, rest + after);
        assert(all =~= (before + first) + rest + after);
        assert forall|i: int| 0 <= i < items.skip(1).len() implies answerable(
            kind,
            number_of_value(kind, #[trigger] items.skip(1)[i])->Ok_0,
        ) by {
            assert(items.skip(1)[i] == items[i + 1]);
        }
        lemma_packed_round_trip(kind, before + first, items.skip(1), after);
        lemma_first_nonempty(kind, n);
        let others = numbers_of(kind, items.skip(1)).map_values(|n: int| number_view(kind, n));
        assert(views =~= seq![number_view(kind, n)] + others);
    }
}

proof fn lemma_first_nonempty(kind: Scalar, n: int)
    requires
        in_range(kind, n),
    ensures
        number_bytes(kind, n).len() > 0,
{
    lemma_raw(kind, n);
    reveal_with_fuel(little_endian, 2);
}

// ---------------------------------------------------------------------------
// Messages
// ---------------------------------------------------------------------------

/// Whether a value can be written as a value of a field and given back: it is of the
/// field's kind, its numbers can be given back, and no field inside it is repeated.
pub open spec fn echoes(
    field: FieldView,
    value: JsonValue,
    messages: Map<Seq<char>, MessageView>,
) -> bool
    decreases value, 1nat,
{
    match field.kind {
        KindView::Scalar(kind) => number_of_value(kind, value) matches Ok(n) && answerable(kind, n),
        KindView::Text => text_of_value(value) is Ok,
        KindView::Bytes => bytes_of_value(value) is Ok,
        KindView::Message(name) => message_echoes(name, value, messages),
    }
}

/// Whether a value can be written as a message and given back.
pub open spec fn message_echoes(
    name: Seq<char>,
    value: JsonValue,
    messages: Map<Seq<char>, MessageView>,
) -> bool
    decreases value, 0nat,
{
    match value {
        JsonValue::Object { fields, .. } => {
            &&& messages.dom().contains(name)
            &&& fields_chosen(fields@, messages[name], name) is Ok
            &&& fields_echo(
                fields@,
                fields_chosen(fields@, messages[name], name)->Ok_0,
                messages,
            )
        },
        _ => false,
    }
}

/// Whether values can be written as fields and given back.
pub open spec fn fields_echo(
    fields: Seq<(String, JsonValue)>,
    chosen: Seq<(u32, FieldView)>,
    messages: Map<Seq<char>, MessageView>,
) -> bool
    decreases fields, 0nat,
{
    if fields.len() == 0 || chosen.len() == 0 {
        true
    } else {
        &&& !chosen[0].1.repeated
        &&& echoes(chosen[0].1, fields[0].1, messages)
        &&& fields_echo(fields.skip(1), chosen.skip(1), messages)
    }
}

/// A value of a field as it is given back.
pub open spec fn echo(
    field: FieldView,
    value: JsonValue,
    messages: Map<Seq<char>, MessageView>,
) -> ResponseView
    decreases value, 1nat,
{
    match field.kind {
        KindView::Scalar(kind) => number_view(kind, number_of_value(kind, value)->Ok_0),
        KindView::Text => ResponseView::Text(text_of_value(value)->Ok_0),
        KindView::Bytes => ResponseView::Text(base64_text(bytes_of_value(value)->Ok_0)),
        KindView::Message(name) => message_echo(name, value, messages),
    }
}

/// A message as it is given back: its fields in the order of their numbers.
pub open spec fn message_echo(
    name: Seq<char>,
    value: JsonValue,
    messages: Map<Seq<char>, MessageView>,
) -> ResponseView
    decreases value, 0nat,
{
    let fields = value->Object_fields@;
    if value is Object {
        ResponseView::Object(
            answered(
                by_number(
                    echo_parts(
                        fields,
                        fields_chosen(fields, messages[name], name)->Ok_0,
                        messages,
                    ),
                ),
                Seq::empty(),
            ),
        )
    } else {
        ResponseView::Object(Seq::empty())
    }
}

/// The fields of a message as they are given back, each with its number and its name.
pub open spec fn echo_parts(
    fields: Seq<(String, JsonValue)>,
    chosen: Seq<(u32, FieldView)>,
    messages: Map<Seq<char>, MessageView>,
) -> Seq<(u32, (Seq<char>, ResponseView))>
    decreases fields, 0nat,
{
    if fields.len() == 0 || chosen.len() == 0 {
        Seq::empty()
    } else {
        seq![
            (chosen[0].0, (chosen[0].1.name, echo(chosen[0].1, fields[0].1, messages))),
        ] + echo_parts(fields.skip(1), chosen.skip(1), messages)
    }
}

/// The fields of an object with values put into it one after the other.
pub open spec fn answered(
    parts: Seq<(u32, (Seq<char>, ResponseView))>,
    done: Seq<(Seq<char>, ResponseView)>,
) -> Seq<(Seq<char>, ResponseView)>
    decreases parts.len(),
{
    if parts.len() == 0 {
        done
    } else {
        answered(parts.skip(1), with_value(done, parts[0].1.0, parts[0].1.1, false))
    }
}

/// What each of the parts of a message that are given back is.
pub proof fn lemma_echo_part(
    fields: Seq<(String, JsonValue)>,
    chosen: Seq<(u32, FieldView)>,
    messages: Map<Seq<char>, MessageView>,
)
    requires
        fields.len() == chosen.len(),
    ensures
        echo_parts(fields, chosen, messages).len() == fields.len(),
        forall|i: int|
            0 <= i < fields.len() ==> #[trigger] echo_parts(fields, chosen, messages)[i] == (
                chosen[i].0,
                (chosen[i].1.name, echo(chosen[i].1, fields[i].1, messages)),
            ),
    decreases fields.len(),
{
    if fields.len() > 0 {
        lemma_echo_part(fields.skip(1), chosen.skip(1), messages);
        let parts = echo_parts(fields, chosen, messages);
        assert forall|i: int| 0 <= i < fields.len() implies #[trigger] parts[i] == (
            chosen[i].0,
            (chosen[i].1.name, echo(chosen[i].1, fields[i].1, messages)),
        ) by {
            if i > 0 {
                assert(parts[i] == echo_parts(fields.skip(1), chosen.skip(1), messages)[i - 1]);
                assert(chosen.skip(1)[i - 1] == chosen[i]);
                assert(fields.skip(1)[i - 1] == fields[i]);
            }
        }
    }
}

proof fn lemma_fields_echo(
    fields: Seq<(String, JsonValue)>,
    chosen: Seq<(u32, FieldView)>,
    messages: Map<Seq<char>, MessageView>,
)
    requires
        fields.len() == chosen.len(),
        fields_echo(fields, chosen, messages),
    ensures
        forall|i: int|
            0 <= i < fields.len() ==> !(#[trigger] chosen[i]).1.repeated && echoes(
                chosen[i].1,
                fields[i].1,
                messages,
            ),
    decreases fields.len(),
{
    if fields.len() > 0 {
        lemma_fields_echo(fields.skip(1), chosen.skip(1), messages);
        assert forall|i: int| 0 <= i < fields.len() implies !(#[trigger] chosen[i]).1.repeated
            && echoes(chosen[i].1, fields[i].1, messages) by {
            if i > 0 {
                assert(chosen.skip(1)[i - 1] == chosen[i]);
                assert(fields.skip(1)[i - 1] == fields[i]);
            }
        }
    }
}

proof fn lemma_fields_chosen(
    fields: Seq<(String, JsonValue)>,
    schema: MessageView,
    message: Seq<char>,
)
    requires
        fields_chosen(fields, schema, message) is Ok,
    ensures
        ({
            let chosen = fields_chosen(fields, schema, message)->Ok_0;
            &&& chosen.len() == fields.len()
            &&& forall|i: int|
                0 <= i < chosen.len() ==> schema.by_number.dom().contains((#[trigger] chosen[i]).0)
                    && schema.by_number[chosen[i].0] == chosen[i].1
        }),
    decreases fields.len(),
{
    if fields.len() > 0 {
        lemma_fields_chosen(fields.skip(1), schema, message);
        let chosen = fields_chosen(fields, schema, message)->Ok_0;
        let rest = fields_chosen(fields.skip(1), schema, message)->Ok_0;
        assert forall|i: int| 0 <= i < chosen.len() implies schema.by_number.dom().contains(
            (#[trigger] chosen[i]).0,
        ) && schema.by_number[chosen[i].0] == chosen[i].1 by {
            if i > 0 {
                assert(chosen[i] == rest[i - 1]);
            }
        }
    }
}

proof fn lemma_key(number: u32, wire_type: u8)
    requires
        wire_type < 8,
    ensures
        key_of(number, wire_type) <= u64::MAX,
        key_number(key_of(number, wire_type) as u64) == number,
        key_wire_type(key_of(number, wire_type) as u64) == wire_type,
{
}

/// Whether bytes that stand between others are read as a value of a field: the key
/// leads to the field, the value is the one that was written, and reading leaves off
/// behind the bytes.
pub open spec fn reads_back(
    field: FieldView,
    value: JsonValue,
    before: Seq<u8>,
    bytes: Seq<u8>,
    after: Seq<u8>,
    messages: Map<Seq<char>, MessageView>,
) -> bool {
    let all = before + bytes + after;
    let i = before.len() as int;
    &&& varint_at(all, i) matches Ok((key, at))
    &&& i < at <= all.len()
    &&& key_number(key) == field.number
    &&& key_wire_type(key) == expected_wire_type(field.kind)
    &&& single_at(field, key_wire_type(key), all, at, messages) == Ok::<_, Seq<char>>(
        (echo(field, value, messages), i + bytes.len()),
    )
}

/// One value of a field, wherever its bytes stand, is read back.
pub proof fn lemma_single_round_trip(
    field: FieldView,
    value: JsonValue,
    before: Seq<u8>,
    after: Seq<u8>,
    messages: Map<Seq<char>, MessageView>,
)
    requires
        echoes(field, value, messages),
        all_consistent(messages),
    ensures
        single_bytes(field, value, messages) matches Ok(bytes) && (before.len() + bytes.len()
            + after.len() <= usize::MAX ==> reads_back(
            field,
            value,
            before,
            bytes,
            after,
            messages,
        )),
    decreases value, 1nat, 0nat,
{
    if field.kind is Message {
        lemma_message_round_trip(field.kind->Message_0, value, messages);
    }
    lemma_single_written(field, value, messages);
    let bytes = head_of(field) + tail_of(field, value, messages);
    if before.len() + bytes.len() + after.len() <= usize::MAX {
        lemma_data_round_trip(field, value, messages);
        lemma_single_read(field, value, before, after, messages);
    }
}

/// The key of a field.
spec fn head_of(field: FieldView) -> Seq<u8> {
    varint(key_of(field.number, expected_wire_type(field.kind)))
}

/// The bytes of one value of a field, without its key.
spec fn tail_of(
    field: FieldView,
    value: JsonValue,
    messages: Map<Seq<char>, MessageView>,
) -> Seq<u8> {
    if field.kind is Scalar {
        data_of(field, value, messages)
    } else {
        delimited(data_of(field, value, messages))
    }
}

proof fn lemma_single_written(
    field: FieldView,
    value: JsonValue,
    messages: Map<Seq<char>, MessageView>,
)
    requires
        echoes(field, value, messages),
        field.kind matches KindView::Message(name) ==> message_bytes(name, value, messages) is Ok,
    ensures
        single_bytes(field, value, messages) == Ok::<_, Seq<char>>(
            head_of(field) + tail_of(field, value, messages),
        ),
{
}

#[verifier::spinoff_prover]
proof fn lemma_single_read(
    field: FieldView,
    value: JsonValue,
    before: Seq<u8>,
    after: Seq<u8>,
    messages: Map<Seq<char>, MessageView>,
)
    requires
        echoes(field, value, messages),
        before.len() + (head_of(field) + tail_of(field, value, messages)).len() + after.len()
            <= usize::MAX,
        value_within(field, data_of(field, value, messages), messages) == Ok::<_, Seq<char>>(
            echo(field, value, messages),
        ),
    ensures
        reads_back(
            field,
            value,
            before,
            head_of(field) + tail_of(field, value, messages),
            after,
            messages,
        ),
{
    let head = head_of(field);
    let tail = tail_of(field, value, messages);
    let all = before + (head + tail) + after;
    lemma_key_read(field, before, tail + after);
    assert(before + head + (tail + after) =~= all);
    lemma_span_round_trip(field, value, before + head, after, messages);
    assert((before + head) + tail + after =~= all);
    lemma_read_at(
        field,
        all,
        (before.len() + head.len()) as int,
        data_of(field, value, messages),
        echo(field, value, messages),
        messages,
    );
}

proof fn lemma_read_at(
    field: FieldView,
    all: Seq<u8>,
    at: int,
    data: Seq<u8>,
    v: ResponseView,
    messages: Map<Seq<char>, MessageView>,
)
    requires
        value_span(field, expected_wire_type(field.kind), all, at) matches Ok((start, end))
            && all.subrange(start, end) == data,
        value_within(field, data, messages) == Ok::<_, Seq<char>>(v),
    ensures
        single_at(field, expected_wire_type(field.kind), all, at, messages) == Ok::<_, Seq<char>>(
            (v, value_span(field, expected_wire_type(field.kind), all, at)->Ok_0.1),
        ),
{
}

proof fn lemma_key_read(field: FieldView, before: Seq<u8>, after: Seq<u8>)
    ensures
        ({
            let all = before + head_of(field) + after;
            &&& varint_at(all, before.len() as int) matches Ok((key, at))
            &&& before.len() < at <= all.len()
            &&& at == before.len() + head_of(field).len()
            &&& key_number(key) == field.number
            &&& key_wire_type(key) == expected_wire_type(field.kind)
        }),
{
    let wire_type = expected_wire_type(field.kind);
    lemma_key(field.number, wire_type);
    lemma_varint_round_trip(before, key_of(field.number, wire_type) as u64, after);
    lemma_varint_advances(before + head_of(field) + after, before.len() as int);
}

/// The bytes of one value of a field, without its key and its length.
spec fn data_of(
    field: FieldView,
    value: JsonValue,
    messages: Map<Seq<char>, MessageView>,
) -> Seq<u8> {
    match field.kind {
        KindView::Scalar(kind) => number_bytes(kind, number_of_value(kind, value)->Ok_0),
        KindView::Text => vstd::utf8::encode_utf8(text_of_value(value)->Ok_0),
        KindView::Bytes => bytes_of_value(value)->Ok_0,
        KindView::Message(name) => message_bytes(name, value, messages)->Ok_0,
    }
}

proof fn lemma_span_round_trip(
    field: FieldView,
    value: JsonValue,
    before: Seq<u8>,
    after: Seq<u8>,
    messages: Map<Seq<char>, MessageView>,
)
    requires
        echoes(field, value, messages),
        before.len() + tail_of(field, value, messages).len() + after.len() <= usize::MAX,
    ensures
        ({
            let data = data_of(field, value, messages);
            let tail = tail_of(field, value, messages);
            let all = before + tail + after;
            value_span(field, expected_wire_type(field.kind), all, before.len() as int) matches Ok((
                start,
                end,
            )) && all.subrange(start, end) == data && end == before.len() + tail.len()
        }),
{
    let data = data_of(field, value, messages);
    match field.kind {
        KindView::Scalar(kind) => {
            let n = number_of_value(kind, value)->Ok_0;
            lemma_number_in_range(kind, value);
            lemma_raw_round_trip(kind, before, n, after);
            let at = before.len() as int;
            assert((before + data + after).subrange(at, at + data.len()) =~= data);
        },
        _ => {
            lemma_delimited_round_trip(before, data, after);
        },
    }
}

proof fn lemma_data_round_trip(
    field: FieldView,
    value: JsonValue,
    messages: Map<Seq<char>, MessageView>,
)
    requires
        echoes(field, value, messages),
        data_of(field, value, messages).len() <= usize::MAX,
        field.kind matches KindView::Message(name) ==> message_at(
            name,
            data_of(field, value, messages),
            messages,
        ) == Ok::<_, Seq<char>>(message_echo(name, value, messages)),
    ensures
        value_within(field, data_of(field, value, messages), messages) == Ok::<_, Seq<char>>(
            echo(field, value, messages),
        ),
{
    match field.kind {
        KindView::Scalar(kind) => {
            let n = number_of_value(kind, value)->Ok_0;
            let none = Seq::<u8>::empty();
            let data = number_bytes(kind, n);
            lemma_number_in_range(kind, value);
            assert(none + data + none =~= data);
            lemma_scalar_round_trip(kind, none, n, none);
        },
        KindView::Text => {
            vstd::utf8::encode_utf8_valid_utf8(text_of_value(value)->Ok_0);
            vstd::utf8::encode_utf8_decode_utf8(text_of_value(value)->Ok_0);
        },
        _ => {},
    }
}

/// Reading the bytes of a message gives its fields back, those of messages inside it
/// too: in the order of their numbers, where two names lead to one field the later
/// value.
pub proof fn lemma_message_round_trip(
    name: Seq<char>,
    value: JsonValue,
    messages: Map<Seq<char>, MessageView>,
)
    requires
        message_echoes(name, value, messages),
        all_consistent(messages),
    ensures
        message_bytes(name, value, messages) matches Ok(bytes) && (bytes.len() <= usize::MAX
            ==> message_at(name, bytes, messages) == Ok::<_, Seq<char>>(
            message_echo(name, value, messages),
        )),
    decreases value, 0nat, 0nat,
{
    let fields = value->Object_fields@;
    let schema = messages[name];
    let chosen = fields_chosen(fields, schema, name)->Ok_0;
    lemma_fields_chosen(fields, schema, name);
    lemma_field_part(fields, chosen, messages);
    lemma_echo_part(fields, chosen, messages);
    lemma_fields_echo(fields, chosen, messages);
    let indexed = Seq::new(fields.len(), |k: int| (chosen[k].0, k));
    let parts = field_parts(fields, chosen, messages);
    let echoed = echo_parts(fields, chosen, messages);
    let pick = |k: int| parts[k].1;
    let pick_echo = |k: int| echoed[k].1;
    assert(relabelled(indexed, pick) =~= parts);
    assert(relabelled(indexed, pick_echo) =~= echoed);
    lemma_by_number_relabelled(indexed, pick);
    lemma_by_number_relabelled(indexed, pick_echo);
    let order = by_number(indexed);
    assert forall|j: int| 0 <= j < order.len() implies 0 <= (#[trigger] order[j]).1 < fields.len()
        && order[j].0 == chosen[order[j].1].0 by {
        lemma_by_number_members(indexed, j);
        let m = indexed.index_of(order[j]);
        assert(indexed[m] == order[j]);
    }
    assert(decreases_to!(value => value->Object_fields));
    assert(decreases_to!(value->Object_fields => fields));
    lemma_walk(schema, Seq::empty(), order, fields, chosen, Seq::empty(), messages);
    let bytes = gathered(relabelled(order, pick))->Ok_0;
    assert(Seq::<u8>::empty() + bytes =~= bytes);
}

proof fn lemma_walk(
    schema: MessageView,
    before: Seq<u8>,
    order: Seq<(u32, int)>,
    fields: Seq<(String, JsonValue)>,
    chosen: Seq<(u32, FieldView)>,
    done: Seq<(Seq<char>, ResponseView)>,
    messages: Map<Seq<char>, MessageView>,
)
    requires
        all_consistent(messages),
        consistent(schema),
        fields.len() == chosen.len(),
        forall|k: int|
            0 <= k < chosen.len() ==> schema.by_number.dom().contains((#[trigger] chosen[k]).0)
                && schema.by_number[chosen[k].0] == chosen[k].1 && !chosen[k].1.repeated && echoes(
                chosen[k].1,
                fields[k].1,
                messages,
            ),
        forall|j: int|
            0 <= j < order.len() ==> 0 <= (#[trigger] order[j]).1 < fields.len() && order[j].0
                == chosen[order[j].1].0,
    ensures
        ({
            let parts = relabelled(order, |k: int| field_parts(fields, chosen, messages)[k].1);
            let echoed = relabelled(order, |k: int| echo_parts(fields, chosen, messages)[k].1);
            gathered(parts) matches Ok(bytes) && (before.len() + bytes.len() <= usize::MAX
                ==> fields_at(schema, before + bytes, before.len(), done, messages) == Ok::<
                _,
                Seq<char>,
            >(answered(echoed, done)))
        }),
    decreases fields, 0nat, order.len(),
{
    let pick = |k: int| field_parts(fields, chosen, messages)[k].1;
    let pick_echo = |k: int| echo_parts(fields, chosen, messages)[k].1;
    let parts = relabelled(order, pick);
    let echoed = relabelled(order, pick_echo);
    if order.len() == 0 {
        assert(before + gathered(parts)->Ok_0 =~= before);
    } else {
        lemma_field_part(fields, chosen, messages);
        lemma_echo_part(fields, chosen, messages);
        let k = order[0].1;
        let field = chosen[k].1;
        let value = fields[k].1;
        let rest = order.skip(1);
        assert forall|j: int| 0 <= j < rest.len() implies 0 <= (#[trigger] rest[j]).1 < fields.len()
            && rest[j].0 == chosen[rest[j].1].0 by {
            assert(rest[j] == order[j + 1]);
        }
        assert(parts.skip(1) =~= relabelled(rest, pick));
        assert(echoed.skip(1) =~= relabelled(rest, pick_echo));
        assert(decreases_to!(fields => fields[k]));
        assert(decreases_to!(fields[k] => fields[k].1));
        lemma_single_round_trip(field, value, before, Seq::empty(), messages);
        let first = single_bytes(field, value, messages)->Ok_0;
        let next = with_value(done, field.name, echo(field, value, messages), false);
        lemma_walk(schema, before + first, rest, fields, chosen, next, messages);
        let after = gathered(relabelled(rest, pick))->Ok_0;
        lemma_single_round_trip(field, value, before, after, messages);
        let bytes = first + after;
        assert(field_parts(fields, chosen, messages)[k].1 == field_bytes(field, value, messages));
        assert(gathered(parts) == Ok::<_, Seq<char>>(bytes));
        let all = before + bytes;
        assert(all =~= before + first + after);
        assert((before + first) + after =~= all);
        if all.len() <= usize::MAX {
            let (key, at) = varint_at(all, before.len() as int)->Ok_0;
            assert(key_number(key) == chosen[k].0);
            let span = value_span(field, key_wire_type(key), all, at)->Ok_0;
            lemma_span_within(field, key_wire_type(key), all, at);
            assert(fields_at(schema, all, before.len(), done, messages) == fields_at(
                schema,
                all,
                (before + first).len(),
                next,
                messages,
            ));
        }
    }
}

} // verus!
