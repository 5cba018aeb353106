//! Requests as bytes.
use vstd::prelude::*;
use super::schema::{FieldKind, FieldSchema, MessageSchema, Scalar};
#[allow(unused_imports)]
use super::schema::{message_views, messages_wf, FieldView, KindView, MessageView};
use super::value::{
    append_bytes, to_bool, to_bytes, to_f32, to_f64, to_i32, to_i64, to_string_value, to_u32,
    to_u64, JsonValue,
};
#[allow(unused_imports)]
use super::value::{
    bool_of_value, bytes_of_value, double_of_value, i32_of_value, i64_of_value, single_of_value,
    text_of_value, u32_of_value, u64_of_value,
};
use super::wire::{
    to_unsigned32, to_unsigned64, write_fixed32, write_fixed64, write_key, write_varint, zigzag_i32,
    zigzag_i64, PulseError,
};
#[allow(unused_imports)]
use super::wire::{delimited, key_of, little_endian, unsigned32, unsigned64, varint, zigzag};
use crate::ordered::TextMap;
use crate::text::{concat3, concat5, decimal_u64};
#[allow(unused_imports)]
use crate::text::decimal;

verus! {

/// Bytes, or why there are none.
pub type Outcome = Result<Seq<u8>, Seq<char>>;

/// Bytes in front of an outcome.
pub open spec fn prefixed(prefix: Seq<u8>, rest: Outcome) -> Outcome {
    match rest {
        Ok(bytes) => Ok(prefix + bytes),
        Err(e) => Err(e),
    }
}

/// One outcome after another: the first error counts.
pub open spec fn followed(first: Outcome, second: Outcome) -> Outcome {
    match first {
        Ok(bytes) => prefixed(bytes, second),
        Err(e) => Err(e),
    }
}

/// An outcome with its length in front of it.
pub open spec fn measured(outcome: Outcome) -> Outcome {
    match outcome {
        Ok(bytes) => Ok(delimited(bytes)),
        Err(e) => Err(e),
    }
}

/// Whether what was appended is an outcome.
pub open spec fn appended(
    before: Seq<u8>,
    after: Seq<u8>,
    r: Result<(), PulseError>,
    outcome: Outcome,
) -> bool {
    match r {
        Ok(()) => outcome matches Ok(bytes) && after == before + bytes,
        Err(e) => outcome matches Err(m) && e.is_client(m),
    }
}

proof fn lemma_prefixed_twice(a: Seq<u8>, b: Seq<u8>, rest: Outcome)
    ensures
        prefixed(a, prefixed(b, rest)) == prefixed(a + b, rest),
{
    if rest is Ok {
        assert(a + (b + rest->Ok_0) =~= (a + b) + rest->Ok_0);
    }
}

// ---------------------------------------------------------------------------
// Order
// ---------------------------------------------------------------------------

/// Numbered entries with one more, behind all whose number is not larger.
pub open spec fn placed<T>(s: Seq<(u32, T)>, x: (u32, T)) -> Seq<(u32, T)>
    decreases s.len(),
{
    if s.len() == 0 || s.last().0 <= x.0 {
        s.push(x)
    } else {
        placed(s.drop_last(), x).push(s.last())
    }
}

/// Numbered entries in the order of their numbers; those with one number keep their
/// order.
pub open spec fn by_number<T>(s: Seq<(u32, T)>) -> Seq<(u32, T)>
    decreases s.len(),
{
    if s.len() == 0 {
        s
    } else {
        placed(by_number(s.drop_last()), s.last())
    }
}

/// Whether numbers do not decrease.
pub open spec fn nondecreasing<T>(s: Seq<(u32, T)>) -> bool {
    forall|i: int, j: int| 0 <= i <= j < s.len() ==> (#[trigger] s[i]).0 <= (#[trigger] s[j]).0
}

proof fn lemma_placed<T>(s: Seq<(u32, T)>, x: (u32, T))
    requires
        nondecreasing(s),
    ensures
        nondecreasing(placed(s, x)),
        placed(s, x).to_multiset() == s.to_multiset().insert(x),
        placed(s, x).len() == s.len() + 1,
        placed(s, x).last().0 == x.0 || (s.len() > 0 && placed(s, x).last() == s.last()
            && s.last().0 > x.0),
    decreases s.len(),
{
    broadcast use vstd::seq_lib::group_to_multiset_ensures;

    if s.len() == 0 || s.last().0 <= x.0 {
    } else {
        let front = s.drop_last();
        assert(nondecreasing(front));
        lemma_placed(front, x);
        assert(front.push(s.last()) =~= s);
        let all = placed(front, x).push(s.last());
        assert forall|i: int, j: int| 0 <= i <= j < all.len() implies (#[trigger] all[i]).0 <= (
        #[trigger] all[j]).0 by {
            let p = placed(front, x);
            if j == all.len() - 1 && i < j {
                assert(p[i].0 <= p[p.len() - 1].0);
                if front.len() > 0 {
                    assert(front.last() == s[s.len() - 2]);
                }
            }
        }
        assert(front.to_multiset().insert(s.last()) =~= s.to_multiset());
        assert(placed(s, x).to_multiset() =~= s.to_multiset().insert(x));
    }
}

/// Ordering entries by number loses none, adds none and puts the numbers in order.
pub proof fn lemma_by_number_sorts<T>(s: Seq<(u32, T)>)
    ensures
        nondecreasing(by_number(s)),
        by_number(s).to_multiset() == s.to_multiset(),
        by_number(s).len() == s.len(),
    decreases s.len(),
{
    broadcast use vstd::seq_lib::group_to_multiset_ensures;

    if s.len() > 0 {
        let front = s.drop_last();
        lemma_by_number_sorts(front);
        lemma_placed(by_number(front), s.last());
        assert(front.push(s.last()) =~= s);
    }
}

proof fn lemma_placed_members<T>(s: Seq<(u32, T)>, x: (u32, T), k: int)
    requires
        0 <= k < placed(s, x).len(),
    ensures
        placed(s, x)[k] == x || s.contains(placed(s, x)[k]),
    decreases s.len(),
{
    if s.len() == 0 || s.last().0 <= x.0 {
        if k < s.len() {
            assert(s[k] == placed(s, x)[k]);
        }
    } else if k < placed(s.drop_last(), x).len() {
        lemma_placed_members(s.drop_last(), x, k);
        let y = placed(s.drop_last(), x)[k];
        if s.drop_last().contains(y) {
            let i = s.drop_last().index_of(y);
            assert(s[i] == y);
        }
    } else {
        assert(s[s.len() - 1] == placed(s, x)[k]);
    }
}

/// Ordering entries by number gives none but these entries.
pub proof fn lemma_by_number_members<T>(s: Seq<(u32, T)>, k: int)
    requires
        0 <= k < by_number(s).len(),
    ensures
        s.contains(by_number(s)[k]),
    decreases s.len(),
{
    if s.len() > 0 {
        let front = s.drop_last();
        lemma_placed_members(by_number(front), s.last(), k);
        let y = by_number(s)[k];
        if y == s.last() {
            assert(s[s.len() - 1] == y);
        } else {
            let i = by_number(front).index_of(y);
            lemma_by_number_members(front, i);
            let m = front.index_of(y);
            assert(s[m] == y);
        }
    }
}

/// Entries whose contents a function changes.
pub open spec fn relabelled<A, B>(s: Seq<(u32, A)>, f: spec_fn(A) -> B) -> Seq<(u32, B)> {
    s.map_values(|e: (u32, A)| (e.0, f(e.1)))
}

proof fn lemma_placed_relabelled<A, B>(s: Seq<(u32, A)>, x: (u32, A), f: spec_fn(A) -> B)
    ensures
        relabelled(placed(s, x), f) == placed(relabelled(s, f), (x.0, f(x.1))),
    decreases s.len(),
{
    let t = relabelled(s, f);
    if s.len() == 0 || s.last().0 <= x.0 {
        assert(relabelled(s.push(x), f) =~= t.push((x.0, f(x.1))));
    } else {
        lemma_placed_relabelled(s.drop_last(), x, f);
        assert(relabelled(s.drop_last(), f) =~= t.drop_last());
        assert(relabelled(placed(s.drop_last(), x).push(s.last()), f) =~= relabelled(
            placed(s.drop_last(), x),
            f,
        ).push(t.last()));
    }
}

/// Ordering entries by number and changing their contents can change places.
pub proof fn lemma_by_number_relabelled<A, B>(s: Seq<(u32, A)>, f: spec_fn(A) -> B)
    ensures
        relabelled(by_number(s), f) == by_number(relabelled(s, f)),
    decreases s.len(),
{
    let t = relabelled(s, f);
    if s.len() == 0 {
        assert(t =~= relabelled(by_number(s), f));
    } else {
        lemma_by_number_relabelled(s.drop_last(), f);
        lemma_placed_relabelled(by_number(s.drop_last()), s.last(), f);
        assert(relabelled(s.drop_last(), f) =~= t.drop_last());
    }
}

proof fn lemma_placed_at<T>(s: Seq<(u32, T)>, x: (u32, T), p: int)
    requires
        0 <= p <= s.len(),
        p == 0 || s[p - 1].0 <= x.0,
        forall|i: int| p <= i < s.len() ==> (#[trigger] s[i]).0 > x.0,
    ensures
        placed(s, x) == s.insert(p, x),
    decreases s.len(),
{
    if p == s.len() {
        assert(s.insert(p, x) =~= s.push(x));
    } else {
        assert(s.last().0 > x.0);
        lemma_placed_at(s.drop_last(), x, p);
        assert(s.drop_last().insert(p, x).push(s.last()) =~= s.insert(p, x));
    }
}

/// Puts an entry behind all whose number is not larger.
fn place(order: &mut Vec<(u32, usize)>, number: u32, index: usize)
    ensures
        final(order)@ == placed(old(order)@, (number, index)),
{
    let mut p: usize = order.len();
    while p > 0 && order[p - 1].0 > number
        invariant
            p <= order@.len(),
            forall|i: int| p <= i < order@.len() ==> (#[trigger] order@[i]).0 > number,
        decreases p,
    {
        p -= 1;
    }
    proof {
        lemma_placed_at(order@, (number, index), p as int);
    }
    order.insert(p, (number, index));
}

// ---------------------------------------------------------------------------
// Scalars
// ---------------------------------------------------------------------------

/// How values of a kind are written: 0 as varints, 1 as words of 64 bits, 5 as words
/// of 32 bits.
pub open spec fn wire_type_of(kind: Scalar) -> u8 {
    match kind {
        Scalar::Double | Scalar::Fixed64 | Scalar::SFixed64 => 1,
        Scalar::Float | Scalar::Fixed32 | Scalar::SFixed32 => 5,
        _ => 0,
    }
}

/// How values of a kind are written.
pub fn scalar_wire_type(kind: Scalar) -> (w: u8)
    ensures
        w == wire_type_of(kind),
        w < 8,
{
    match kind {
        Scalar::Double | Scalar::Fixed64 | Scalar::SFixed64 => 1,
        Scalar::Float | Scalar::Fixed32 | Scalar::SFixed32 => 5,
        _ => 0,
    }
}

/// The bytes of a number, given how it is written.
pub open spec fn number_bytes(kind: Scalar, n: int) -> Seq<u8> {
    match kind {
        Scalar::Double | Scalar::Fixed64 => little_endian(n as nat, 8),
        Scalar::Float | Scalar::Fixed32 => little_endian(n as nat, 4),
        Scalar::Int64 => varint(unsigned64(n)),
        Scalar::UInt64 | Scalar::UInt32 | Scalar::Bool => varint(n as nat),
        Scalar::Int32 | Scalar::Enum => varint(unsigned32(n)),
        Scalar::SFixed32 => little_endian(unsigned32(n), 4),
        Scalar::SFixed64 => little_endian(unsigned64(n), 8),
        Scalar::SInt32 | Scalar::SInt64 => varint(zigzag(n)),
    }
}

/// The number that a field of a kind takes from a value: floating-point numbers by
/// their bits, flags as one and zero.
pub open spec fn number_of_value(kind: Scalar, value: JsonValue) -> Result<int, Seq<char>> {
    match kind {
        Scalar::Double => match double_of_value(value) {
            Ok(bits) => Ok(bits as int),
            Err(e) => Err(e),
        },
        Scalar::Float => match single_of_value(value) {
            Ok(bits) => Ok(bits as int),
            Err(e) => Err(e),
        },
        Scalar::Bool => match bool_of_value(value) {
            Ok(b) => Ok(if b { 1 } else { 0 }),
            Err(e) => Err(e),
        },
        Scalar::Int64 | Scalar::SFixed64 | Scalar::SInt64 => i64_of_value(value),
        Scalar::UInt64 | Scalar::Fixed64 => u64_of_value(value),
        Scalar::Int32 | Scalar::Enum | Scalar::SFixed32 | Scalar::SInt32 => i32_of_value(value),
        Scalar::UInt32 | Scalar::Fixed32 => u32_of_value(value),
    }
}

/// The bytes that a field of a kind takes from a value.
pub open spec fn scalar_bytes(kind: Scalar, value: JsonValue) -> Outcome {
    match number_of_value(kind, value) {
        Ok(n) => Ok(number_bytes(kind, n)),
        Err(e) => Err(e),
    }
}

/// Appends the bytes that a field of a kind takes from a value.
pub fn encode_packable_value(kind: Scalar, value: &JsonValue, out: &mut Vec<u8>) -> (r: Result<
    (),
    PulseError,
>)
    ensures
        appended(old(out)@, final(out)@, r, scalar_bytes(kind, *value)),
{
    match kind {
        Scalar::Double => {
            let bits: u64 = to_f64(value)?;
            write_fixed64(out, bits);
        },
        Scalar::Float => {
            let bits: u32 = to_f32(value)?;
            write_fixed32(out, bits);
        },
        Scalar::Int64 => {
            let n: i64 = to_i64(value)?;
            write_varint(out, to_unsigned64(n));
        },
        Scalar::UInt64 => {
            let n: u64 = to_u64(value)?;
            write_varint(out, n);
        },
        Scalar::Int32 => {
            let n: i32 = to_i32(value)?;
            write_varint(out, to_unsigned32(n) as u64);
        },
        Scalar::Fixed64 => {
            let n: u64 = to_u64(value)?;
            write_fixed64(out, n);
        },
        Scalar::Fixed32 => {
            let n: u32 = to_u32(value)?;
            write_fixed32(out, n);
        },
        Scalar::Bool => {
            let b: bool = to_bool(value)?;
            write_varint(out, if b { 1 } else { 0 });
        },
        Scalar::UInt32 => {
            let n: u32 = to_u32(value)?;
            write_varint(out, n as u64);
        },
        Scalar::Enum => {
            let n: i32 = to_i32(value)?;
            write_varint(out, to_unsigned32(n) as u64);
        },
        Scalar::SFixed32 => {
            let n: i32 = to_i32(value)?;
            write_fixed32(out, to_unsigned32(n));
        },
        Scalar::SFixed64 => {
            let n: i64 = to_i64(value)?;
            write_fixed64(out, to_unsigned64(n));
        },
        Scalar::SInt32 => {
            let n: i32 = to_i32(value)?;
            write_varint(out, zigzag_i32(n));
        },
        Scalar::SInt64 => {
            let n: i64 = to_i64(value)?;
            write_varint(out, zigzag_i64(n));
        },
    }
    Ok(())
}

/// The bytes of values one after the other.
pub open spec fn packed_bytes(kind: Scalar, items: Seq<JsonValue>) -> Outcome
    decreases items.len(),
{
    if items.len() == 0 {
        Ok(Seq::empty())
    } else {
        followed(scalar_bytes(kind, items[0]), packed_bytes(kind, items.skip(1)))
    }
}

/// Appends the key of a length-delimited field, the length and the bytes.
fn write_delimited(number: u32, bytes: &[u8], out: &mut Vec<u8>)
    ensures
        final(out)@ == old(out)@ + (varint(key_of(number, 2)) + delimited(bytes@)),
{
    let ghost start = out@;
    let n: usize = bytes.len();
    write_key(out, number, 2);
    write_varint(out, n as u64);
    append_bytes(out, bytes);
    assert(out@ =~= start + (varint(key_of(number, 2)) + delimited(bytes@)));
}

/// Appends a field whose values stand together.
pub fn encode_packed_repeated_field(
    number: u32,
    kind: Scalar,
    items: &Vec<JsonValue>,
    out: &mut Vec<u8>,
) -> (r: Result<(), PulseError>)
    ensures
        appended(
            old(out)@,
            final(out)@,
            r,
            prefixed(varint(key_of(number, 2)), measured(packed_bytes(kind, items@))),
        ),
{
    let mut packed: Vec<u8> = Vec::new();
    let ghost all = packed_bytes(kind, items@);
    let mut i: usize = 0;
    proof {
        assert(items@.skip(0) =~= items@);
        if all is Ok {
            assert(packed@ + all->Ok_0 =~= all->Ok_0);
        }
    }
    while i < items.len()
        invariant
            i <= items@.len(),
            all == packed_bytes(kind, items@),
            all == prefixed(packed@, packed_bytes(kind, items@.skip(i as int))),
        decreases items@.len() - i,
    {
        let ghost rest = items@.skip(i as int);
        let ghost before = packed@;
        proof {
            assert(rest[0] == items@[i as int]);
            assert(rest.skip(1) =~= items@.skip(i + 1));
        }
        encode_packable_value(kind, &items[i], &mut packed)?;
        proof {
            lemma_prefixed_twice(
                before,
                scalar_bytes(kind, rest[0])->Ok_0,
                packed_bytes(kind, rest.skip(1)),
            );
        }
        i += 1;
    }
    assert(packed@ + Seq::<u8>::empty() =~= packed@);
    write_delimited(number, &packed, out);
    Ok(())
}

// ---------------------------------------------------------------------------
// Messages
// ---------------------------------------------------------------------------

/// The field that a name leads to, with its number.
pub open spec fn field_chosen(key: Seq<char>, schema: MessageView, message: Seq<char>) -> Result<
    (u32, FieldView),
    Seq<char>,
> {
    if !schema.by_name.dom().contains(key) {
        Err("field '"@ + key + "' is not defined in message '"@ + message + "'"@)
    } else {
        let number = schema.by_name[key];
        if !schema.by_number.dom().contains(number) {
            Err(
                "field number '"@ + decimal(number as nat) + "' missing from schema for '"@
                    + message + "'"@,
            )
        } else {
            Ok((number, schema.by_number[number]))
        }
    }
}

/// The fields that names lead to, or the first error.
pub open spec fn fields_chosen(
    fields: Seq<(String, JsonValue)>,
    schema: MessageView,
    message: Seq<char>,
) -> Result<Seq<(u32, FieldView)>, Seq<char>>
    decreases fields.len(),
{
    if fields.len() == 0 {
        Ok(Seq::empty())
    } else {
        match field_chosen(fields[0].0@, schema, message) {
            Err(e) => Err(e),
            Ok(first) => match fields_chosen(fields.skip(1), schema, message) {
                Err(e) => Err(e),
                Ok(rest) => Ok(seq![first] + rest),
            },
        }
    }
}

/// The outcomes one after the other: the first error counts.
pub open spec fn gathered(parts: Seq<(u32, Outcome)>) -> Outcome
    decreases parts.len(),
{
    if parts.len() == 0 {
        Ok(Seq::empty())
    } else {
        followed(parts[0].1, gathered(parts.skip(1)))
    }
}

/// The bytes of a message: its fields in the order of their numbers.
pub open spec fn message_bytes(
    name: Seq<char>,
    value: JsonValue,
    messages: Map<Seq<char>, MessageView>,
) -> Outcome
    decreases value, 0nat,
{
    if !messages.dom().contains(name) {
        Err("message '"@ + name + "' not found in descriptor set"@)
    } else {
        match value {
            JsonValue::Object { fields, .. } => match fields_chosen(
                fields@,
                messages[name],
                name,
            ) {
                Err(e) => Err(e),
                Ok(chosen) => gathered(by_number(field_parts(fields@, chosen, messages))),
            },
            _ => Err("request_fields for '"@ + name + "' must be a JSON object"@),
        }
    }
}

/// The bytes of fields, each with its number.
pub open spec fn field_parts(
    fields: Seq<(String, JsonValue)>,
    chosen: Seq<(u32, FieldView)>,
    messages: Map<Seq<char>, MessageView>,
) -> Seq<(u32, Outcome)>
    decreases fields, 0nat,
{
    if fields.len() == 0 || chosen.len() == 0 {
        Seq::empty()
    } else {
        seq![(chosen[0].0, field_bytes(chosen[0].1, fields[0].1, messages))] + field_parts(
            fields.skip(1),
            chosen.skip(1),
            messages,
        )
    }
}

/// The bytes of a field: a repeated one takes an array, whose values stand together
/// where they can be packed and as fields of their own where not.
pub open spec fn field_bytes(
    field: FieldView,
    value: JsonValue,
    messages: Map<Seq<char>, MessageView>,
) -> Outcome
    decreases value, 2nat,
{
    if field.repeated {
        match value {
            JsonValue::Array { items, .. } => match field.kind {
                KindView::Scalar(kind) => prefixed(
                    varint(key_of(field.number, 2)),
                    measured(packed_bytes(kind, items@)),
                ),
                _ => items_bytes(field, items@, messages),
            },
            _ => Err("field '"@ + field.name + "' is repeated and expects a JSON array"@),
        }
    } else {
        single_bytes(field, value, messages)
    }
}

/// The bytes of values as fields of their own.
pub open spec fn items_bytes(
    field: FieldView,
    items: Seq<JsonValue>,
    messages: Map<Seq<char>, MessageView>,
) -> Outcome
    decreases items, 0nat,
{
    if items.len() == 0 {
        Ok(Seq::empty())
    } else {
        followed(
            single_bytes(field, items[0], messages),
            items_bytes(field, items.skip(1), messages),
        )
    }
}

/// The bytes of one value of a field: its key, then the value.
pub open spec fn single_bytes(
    field: FieldView,
    value: JsonValue,
    messages: Map<Seq<char>, MessageView>,
) -> Outcome
    decreases value, 1nat,
{
    match field.kind {
        KindView::Scalar(kind) => prefixed(
            varint(key_of(field.number, wire_type_of(kind))),
            scalar_bytes(kind, value),
        ),
        KindView::Text => prefixed(
            varint(key_of(field.number, 2)),
            match text_of_value(value) {
                Ok(text) => Ok(delimited(vstd::utf8::encode_utf8(text))),
                Err(e) => Err(e),
            },
        ),
        KindView::Bytes => prefixed(
            varint(key_of(field.number, 2)),
            measured(bytes_of_value(value)),
        ),
        KindView::Message(name) => prefixed(
            varint(key_of(field.number, 2)),
            measured(message_bytes(name, value, messages)),
        ),
    }
}

/// What each of the parts of a message is.
pub proof fn lemma_field_part(
    fields: Seq<(String, JsonValue)>,
    chosen: Seq<(u32, FieldView)>,
    messages: Map<Seq<char>, MessageView>,
)
    requires
        fields.len() == chosen.len(),
    ensures
        field_parts(fields, chosen, messages).len() == fields.len(),
        forall|i: int|
            0 <= i < fields.len() ==> #[trigger] field_parts(fields, chosen, messages)[i] == (
                chosen[i].0,
                field_bytes(chosen[i].1, fields[i].1, messages),
            ),
    decreases fields.len(),
{
    if fields.len() > 0 {
        lemma_field_part(fields.skip(1), chosen.skip(1), messages);
        let parts = field_parts(fields, chosen, messages);
        assert forall|i: int| 0 <= i < fields.len() implies #[trigger] parts[i] == (
            chosen[i].0,
            field_bytes(chosen[i].1, fields[i].1, messages),
        ) by {
            if i > 0 {
                assert(parts[i] == field_parts(fields.skip(1), chosen.skip(1), messages)[i - 1]);
                assert(chosen.skip(1)[i - 1] == chosen[i]);
                assert(fields.skip(1)[i - 1] == fields[i]);
            }
        }
    }
}

/// Whether a field was found for the name at a place.
spec fn found_at(
    found: Seq<&FieldSchema>,
    firsts: Seq<(u32, FieldView)>,
    fields: Seq<(String, JsonValue)>,
    schema: MessageView,
    k: int,
) -> bool {
    &&& found[k]@ == firsts[k].1
    &&& schema.by_name.dom().contains(fields[k].0@)
    &&& schema.by_name[fields[k].0@] == firsts[k].0
}

/// Finds the fields that names lead to.
fn choose_fields<'a>(
    fields: &Vec<(String, JsonValue)>,
    schema: &'a MessageSchema,
    message: &str,
) -> (r: Result<Vec<&'a FieldSchema>, PulseError>)
    requires
        schema.wf(),
    ensures
        match r {
            Ok(found) => {
                &&& fields_chosen(fields@, schema@, message@) matches Ok(chosen)
                &&& chosen.len() == fields@.len()
                &&& found@.len() == fields@.len()
                &&& forall|i: int|
                    0 <= i < found@.len() ==> (#[trigger] found@[i])@ == chosen[i].1
                        && schema@.by_name.dom().contains(fields@[i].0@)
                        && schema@.by_name[fields@[i].0@] == chosen[i].0
            },
            Err(e) => fields_chosen(fields@, schema@, message@) matches Err(m) && e.is_client(m),
        },
    decreases fields@.len(),
{
    let mut found: Vec<&'a FieldSchema> = Vec::new();
    let ghost all = fields_chosen(fields@, schema@, message@);
    let ghost mut firsts: Seq<(u32, FieldView)> = Seq::empty();
    let mut i: usize = 0;
    proof {
        assert(fields@.skip(0) =~= fields@);
        if all is Ok {
            assert(firsts + all->Ok_0 =~= all->Ok_0);
        }
    }
    while i < fields.len()
        invariant
            i <= fields@.len(),
            schema.wf(),
            all == fields_chosen(fields@, schema@, message@),
            found@.len() == i,
            firsts.len() == i,
            forall|k: int|
                0 <= k < i ==> #[trigger] found_at(found@, firsts, fields@, schema@, k),
            match fields_chosen(fields@.skip(i as int), schema@, message@) {
                Ok(rest) => all == Ok::<_, Seq<char>>(firsts + rest),
                Err(e) => all == Err::<Seq<(u32, FieldView)>, _>(e),
            },
        decreases fields@.len() - i,
    {
        let ghost rest = fields@.skip(i as int);
        proof {
            assert(rest[0] == fields@[i as int]);
            assert(rest.skip(1) =~= fields@.skip(i + 1));
        }
        let key: &String = &fields[i].0;
        let number: u32 = match schema.number_of(key) {
            Some(n) => n,
            None => {
                return Err(
                    PulseError::Client(
                        concat5("field '", key, "' is not defined in message '", message, "'"),
                    ),
                );
            },
        };
        match schema.field(number) {
            Some(f) => {
                let ghost before = found@;
                let ghost known = firsts;
                proof {
                    let one = (number, f@);
                    if fields_chosen(rest.skip(1), schema@, message@) is Ok {
                        let tail = fields_chosen(rest.skip(1), schema@, message@)->Ok_0;
                        assert(firsts + (seq![one] + tail) =~= firsts.push(one) + tail);
                    }
                    firsts = firsts.push(one);
                }
                found.push(f);
                assert forall|k: int| 0 <= k < i + 1 implies #[trigger] found_at(
                    found@,
                    firsts,
                    fields@,
                    schema@,
                    k,
                ) by {
                    if k < i {
                        assert(found_at(before, known, fields@, schema@, k));
                        assert(found@[k] == before[k]);
                        assert(firsts[k] == known[k]);
                    }
                }
            },
            None => {
                return Err(
                    PulseError::Client(
                        concat5(
                            "field number '",
                            &decimal_u64(number as u64),
                            "' missing from schema for '",
                            message,
                            "'",
                        ),
                    ),
                );
            },
        }
        i += 1;
    }
    assert(firsts + Seq::<(u32, FieldView)>::empty() =~= firsts);
    assert forall|k: int| 0 <= k < found@.len() implies (#[trigger] found@[k])@ == firsts[k].1
        && schema@.by_name.dom().contains(fields@[k].0@) && schema@.by_name[fields@[k].0@]
        == firsts[k].0 by {
        assert(found_at(found@, firsts, fields@, schema@, k));
    }
    Ok(found)
}

/// The bytes of a message.
pub fn encode_message(
    name: &str,
    value: &JsonValue,
    messages: &TextMap<MessageSchema>,
) -> (r: Result<Vec<u8>, PulseError>)
    requires
        messages_wf(*messages),
    ensures
        match r {
            Ok(bytes) => message_bytes(name@, *value, message_views(messages@)) == Ok::<
                _,
                Seq<char>,
            >(bytes@),
            Err(e) => message_bytes(name@, *value, message_views(messages@)) matches Err(m)
                && e.is_client(m),
        },
    decreases *value, 0nat,
{
    let ghost views = message_views(messages@);
    let schema: &MessageSchema = match messages.get(name) {
        Some(schema) => schema,
        None => {
            return Err(
                PulseError::Client(concat3("message '", name, "' not found in descriptor set")),
            );
        },
    };
    let fields: &Vec<(String, JsonValue)> = match value {
        JsonValue::Object { fields, .. } => fields,
        _ => {
            return Err(
                PulseError::Client(
                    concat3("request_fields for '", name, "' must be a JSON object"),
                ),
            );
        },
    };
    let found = choose_fields(fields, schema, name)?;
    let ghost chosen = fields_chosen(fields@, schema@, name@)->Ok_0;
    let ghost parts = field_parts(fields@, chosen, views);
    proof {
        lemma_field_part(fields@, chosen, views);
        assert forall|k: int| 0 <= k < fields@.len() implies schema@.by_name.dom().contains(
            (#[trigger] fields@[k]).0@,
        ) && schema@.by_name[fields@[k].0@] == chosen[k].0 by {
            assert(found@[k]@ == chosen[k].1);
        }
    }
    let mut order: Vec<(u32, usize)> = Vec::new();
    let ghost mut indexed: Seq<(u32, usize)> = Seq::empty();
    let mut i: usize = 0;
    while i < fields.len()
        invariant
            i <= fields@.len(),
            schema.wf(),
            fields@.len() == chosen.len(),
            indexed.len() == i,
            forall|k: int| 0 <= k < i ==> #[trigger] indexed[k] == (chosen[k].0, k as usize),
            order@ == by_number(indexed),
            forall|k: int|
                0 <= k < fields@.len() ==> schema@.by_name.dom().contains(
                    (#[trigger] fields@[k]).0@,
                ) && schema@.by_name[fields@[k].0@] == chosen[k].0,
        decreases fields@.len() - i,
    {
        let number: u32 = match schema.number_of(&fields[i].0) {
            Some(n) => n,
            None => 0,
        };
        place(&mut order, number, i);
        proof {
            assert(fields@[i as int].0@ == fields@[i as int].0@);
            let before = indexed;
            indexed = indexed.push((number, i));
            assert(indexed.drop_last() =~= before);
        }
        i += 1;
    }
    let ghost pick = |k: usize| parts[k as int].1;
    proof {
        lemma_by_number_relabelled(indexed, pick);
        assert(relabelled(indexed, pick) =~= parts);
        lemma_by_number_sorts(indexed);
    }
    let ghost sorted = by_number(parts);
    let mut out: Vec<u8> = Vec::new();
    let mut j: usize = 0;
    proof {
        assert(sorted.skip(0) =~= sorted);
        if gathered(sorted) is Ok {
            assert(out@ + gathered(sorted)->Ok_0 =~= gathered(sorted)->Ok_0);
        }
        assert forall|k: int| 0 <= k < order@.len() implies (#[trigger] order@[k]).1
            < fields@.len() by {
            lemma_by_number_members(indexed, k);
            let m = indexed.index_of(order@[k]);
            assert(indexed[m] == order@[k]);
        }
    }
    while j < order.len()
        invariant
            j <= order@.len(),
            messages_wf(*messages),
            views == message_views(messages@),
            *value is Object,
            fields == &value->Object_fields,
            fields@.len() == chosen.len(),
            found@.len() == fields@.len(),
            forall|k: int|
                0 <= k < found@.len() ==> (#[trigger] found@[k])@ == chosen[k].1,
            parts.len() == fields@.len(),
            forall|k: int|
                0 <= k < fields@.len() ==> #[trigger] parts[k] == (
                    chosen[k].0,
                    field_bytes(chosen[k].1, fields@[k].1, views),
                ),
            forall|k: int| 0 <= k < order@.len() ==> (#[trigger] order@[k]).1 < fields@.len(),
            sorted == relabelled(order@, pick),
            pick == (|k: usize| parts[k as int].1),
            gathered(sorted) == prefixed(out@, gathered(sorted.skip(j as int))),
            message_bytes(name@, *value, views) == gathered(sorted),
        decreases order@.len() - j,
    {
        let ghost rest = sorted.skip(j as int);
        let ghost before = out@;
        let k: usize = order[j].1;
        proof {
            assert(rest[0] == sorted[j as int]);
            assert(rest[0].1 == parts[k as int].1);
            assert(rest.skip(1) =~= sorted.skip(j + 1));
            assert(decreases_to!(value => fields));
            assert(decreases_to!(fields => fields@));
            assert(decreases_to!(fields@ => fields@[k as int]));
            assert(decreases_to!(fields@[k as int] => fields@[k as int].1));
        }
        encode_field(found[k], &fields[k].1, messages, &mut out)?;
        proof {
            lemma_prefixed_twice(before, rest[0].1->Ok_0, gathered(rest.skip(1)));
        }
        j += 1;
    }
    assert(out@ + Seq::<u8>::empty() =~= out@);
    Ok(out)
}

/// Appends a field.
pub fn encode_field(
    field: &FieldSchema,
    value: &JsonValue,
    messages: &TextMap<MessageSchema>,
    out: &mut Vec<u8>,
) -> (r: Result<(), PulseError>)
    requires
        messages_wf(*messages),
    ensures
        appended(
            old(out)@,
            final(out)@,
            r,
            field_bytes(field@, *value, message_views(messages@)),
        ),
    decreases *value, 2nat,
{
    if !field.repeated {
        return encode_single_field_value(field, value, messages, out);
    }
    let items: &Vec<JsonValue> = match value {
        JsonValue::Array { items, .. } => items,
        _ => {
            return Err(
                PulseError::Client(
                    concat3("field '", &field.name, "' is repeated and expects a JSON array"),
                ),
            );
        },
    };
    if let FieldKind::Scalar(kind) = &field.kind {
        return encode_packed_repeated_field(field.number, *kind, items, out);
    }
    let ghost views = message_views(messages@);
    let ghost start = out@;
    let ghost all = items_bytes(field@, items@, views);
    let ghost mut done: Seq<u8> = Seq::empty();
    let mut i: usize = 0;
    proof {
        assert(items@.skip(0) =~= items@);
        if all is Ok {
            assert(done + all->Ok_0 =~= all->Ok_0);
        }
        assert(start + done =~= start);
    }
    while i < items.len()
        invariant
            i <= items@.len(),
            messages_wf(*messages),
            views == message_views(messages@),
            *value is Array,
            items == &value->items,
            start == old(out)@,
            out@ == start + done,
            field.repeated,
            !(field.kind is Scalar),
            all == items_bytes(field@, items@, views),
            all == prefixed(done, items_bytes(field@, items@.skip(i as int), views)),
        decreases items@.len() - i,
    {
        let ghost rest = items@.skip(i as int);
        proof {
            assert(rest[0] == items@[i as int]);
            assert(rest.skip(1) =~= items@.skip(i + 1));
            assert(decreases_to!(value => items));
            assert(decreases_to!(items => items@));
            assert(decreases_to!(items@ => items@[i as int]));
        }
        encode_single_field_value(field, &items[i], messages, out)?;
        proof {
            let more = single_bytes(field@, rest[0], views)->Ok_0;
            lemma_prefixed_twice(done, more, items_bytes(field@, rest.skip(1), views));
            assert((start + done) + more =~= start + (done + more));
            done = done + more;
        }
        i += 1;
    }
    assert(done + Seq::<u8>::empty() =~= done);
    Ok(())
}

/// Appends one value of a field.
pub fn encode_single_field_value(
    field: &FieldSchema,
    value: &JsonValue,
    messages: &TextMap<MessageSchema>,
    out: &mut Vec<u8>,
) -> (r: Result<(), PulseError>)
    requires
        messages_wf(*messages),
    ensures
        appended(
            old(out)@,
            final(out)@,
            r,
            single_bytes(field@, *value, message_views(messages@)),
        ),
    decreases *value, 1nat,
{
    let ghost start = out@;
    match &field.kind {
        FieldKind::Scalar(kind) => {
            let wire_type: u8 = scalar_wire_type(*kind);
            write_key(out, field.number, wire_type);
            encode_packable_value(*kind, value, out)?;
            proof {
                let bytes = scalar_bytes(*kind, *value)->Ok_0;
                assert(start + varint(key_of(field.number, wire_type)) + bytes =~= start + (varint(
                    key_of(field.number, wire_type),
                ) + bytes));
            }
        },
        FieldKind::Text => {
            let text = to_string_value(value)?;
            write_delimited(field.number, text.as_str().as_bytes(), out);
        },
        FieldKind::Bytes => {
            let bytes = to_bytes(value)?;
            write_delimited(field.number, &bytes, out);
        },
        FieldKind::Message(name) => {
            let nested = encode_message(name, value, messages)?;
            write_delimited(field.number, &nested, out);
        },
    }
    Ok(())
}

} // verus!
