//! Whole messages: what one field more makes of them, for writing and for reading.
use vstd::prelude::*;
use super::wire::{
    is_data, is_key, is_varint, lemma_scalar_read, lemma_takes, lemma_varint, lemma_varint_read,
    number_at, no_number, stands_at, stands_for, takes, way, written,
};
use crate::byte_text::{base64_bytes, base64_text};
use crate::grpc::decode::{
    append_decoded_field, decode_message, decode_single_field_value, ensure_wire_type, entry_views,
    fields_at, holdable, single_at, key_number, key_wire_type, lemma_place_of, lemma_with_value_at, packed_at,
    place_of, response_view, scalar_at, value_span, with_value, ResponseValue, ResponseView,
};
use crate::grpc::encode::{
    by_number, encode_field, encode_message, encode_packed_repeated_field,
    encode_single_field_value, field_bytes, field_chosen, field_parts, fields_chosen, gathered,
    items_bytes, lemma_by_number_members, lemma_field_part, number_bytes, number_of_value,
    packed_bytes, placed, single_bytes, wire_type_of, Outcome,
};
use crate::grpc::schema::{
    message_views, messages_wf, FieldKind, FieldSchema, FieldView, KindView, MessageSchema,
    MessageView, Scalar,
};
use crate::grpc::value::{bytes_of_value, to_bytes, JsonValue};
use crate::grpc::wire::{
    delimited, delimited_at, key_of, read_length_delimited, skip_wire_value, skipped, varint,
    varint_at, PulseError,
};
use crate::ordered::TextMap;
use crate::text::starts;

verus! {

// ---------------------------------------------------------------------------
// Writing
// ---------------------------------------------------------------------------

/// Whether a name leads to a number and this to a field of a message.
pub open spec fn leads_to(
    messages: TextMap<MessageSchema>,
    message: Seq<char>,
    key: Seq<char>,
    number: u32,
    field: FieldView,
) -> bool {
    &&& messages@.dom().contains(message)
    &&& message_views(messages@)[message].by_name.dom().contains(key)
    &&& message_views(messages@)[message].by_name[key] == number
    &&& message_views(messages@)[message].by_number.dom().contains(number)
    &&& message_views(messages@)[message].by_number[number] == field
}

/// Whether a name leads to a field of a message.
pub open spec fn is_known(
    messages: TextMap<MessageSchema>,
    message: Seq<char>,
    key: Seq<char>,
) -> bool {
    exists|number: u32, field: FieldView| #[trigger]
        leads_to(messages, message, key, number, field)
}

/// The number that a name leads to.
pub open spec fn number_behind(
    messages: TextMap<MessageSchema>,
    message: Seq<char>,
    key: Seq<char>,
) -> u32 {
    message_views(messages@)[message].by_name[key]
}

proof fn lemma_chosen(fields: Seq<(String, JsonValue)>, m: MessageView, name: Seq<char>)
    ensures
        fields_chosen(fields, m, name) matches Ok(chosen) ==> {
            &&& chosen.len() == fields.len()
            &&& forall|i: int|
                0 <= i < fields.len() ==> field_chosen((#[trigger] fields[i]).0@, m, name) == Ok::<
                    _,
                    Seq<char>,
                >(chosen[i])
        },
        fields_chosen(fields, m, name) is Ok <==> forall|i: int|
            0 <= i < fields.len() ==> field_chosen((#[trigger] fields[i]).0@, m, name) is Ok,
    decreases fields.len(),
{
    if fields.len() > 0 {
        let rest = fields.skip(1);
        lemma_chosen(rest, m, name);
        if fields_chosen(fields, m, name) is Ok {
            let chosen = fields_chosen(fields, m, name)->Ok_0;
            let later = fields_chosen(rest, m, name)->Ok_0;
            assert forall|i: int| 0 <= i < fields.len() implies field_chosen(
                (#[trigger] fields[i]).0@,
                m,
                name,
            ) == Ok::<_, Seq<char>>(chosen[i]) by {
                if i > 0 {
                    assert(rest[i - 1] == fields[i]);
                    assert(chosen[i] == later[i - 1]);
                }
            }
        }
        if forall|i: int|
            0 <= i < fields.len() ==> field_chosen((#[trigger] fields[i]).0@, m, name) is Ok {
            assert(field_chosen(fields[0].0@, m, name) is Ok);
            assert forall|i: int| 0 <= i < rest.len() implies field_chosen(
                (#[trigger] rest[i]).0@,
                m,
                name,
            ) is Ok by {
                assert(rest[i] == fields[i + 1]);
            }
        }
    }
}

proof fn lemma_gathered(parts: Seq<(u32, Outcome)>, x: (u32, Outcome))
    ensures
        gathered(parts.push(x)) is Ok <==> gathered(parts) is Ok && x.1 is Ok,
        gathered(parts.push(x)) is Ok ==> gathered(parts.push(x))->Ok_0 == gathered(parts)->Ok_0
            + x.1->Ok_0,
    decreases parts.len(),
{
    let all = parts.push(x);
    if parts.len() == 0 {
        assert(all.skip(1) =~= parts);
        if x.1 is Ok {
            assert(x.1->Ok_0 + Seq::<u8>::empty() =~= Seq::<u8>::empty() + x.1->Ok_0);
        }
    } else {
        lemma_gathered(parts.skip(1), x);
        assert(all.skip(1) =~= parts.skip(1).push(x));
        assert(all[0] == parts[0]);
        if gathered(all) is Ok {
            assert(parts[0].1->Ok_0 + (gathered(parts.skip(1))->Ok_0 + x.1->Ok_0) =~= (
            parts[0].1->Ok_0 + gathered(parts.skip(1))->Ok_0) + x.1->Ok_0);
        }
    }
}

/// An object without fields is no bytes, where its message is known; no other value is a
/// message.
pub proof fn law_encode_no_fields(
    name: &str,
    value: JsonValue,
    messages: TextMap<MessageSchema>,
    r: Result<Vec<u8>, PulseError>,
)
    requires
        messages_wf(messages),
        call_ensures(encode_message, (name, &value, &messages), r),
    ensures
        !messages@.dom().contains(name@) ==> r is Err,
        !(value is Object) ==> r is Err,
        messages@.dom().contains(name@) ==> (value matches JsonValue::Object { fields, .. } ==> (
        fields@.len() == 0 ==> (r matches Ok(bytes) && bytes@.len() == 0))),
        value matches JsonValue::Object { fields, .. } ==> (r is Ok ==> forall|i: int|
            0 <= i < fields@.len() ==> is_known(messages, name@, (#[trigger] fields@[i]).0@)),
{
    let views = message_views(messages@);
    if messages@.dom().contains(name@) && value is Object {
        let fields = value->Object_fields@;
        let m = views[name@];
        lemma_chosen(fields, m, name@);
        if r is Ok {
            assert forall|i: int| 0 <= i < fields.len() implies is_known(
                messages,
                name@,
                (#[trigger] fields[i]).0@,
            ) by {
                let key = fields[i].0@;
                assert(field_chosen(key, m, name@) is Ok);
                let (number, field) = field_chosen(key, m, name@)->Ok_0;
                assert(leads_to(messages, name@, key, number, field));
            }
        }
    }
}

/// A field more whose number is not below those of the others is written behind them: the
/// message is written exactly where both the others and the field are.
pub proof fn law_encode_one_field_more(
    name: &str,
    a: JsonValue,
    b: JsonValue,
    entry: (String, JsonValue),
    number: u32,
    field: FieldSchema,
    messages: TextMap<MessageSchema>,
    r: Result<Vec<u8>, PulseError>,
    s: Result<Vec<u8>, PulseError>,
    out: &mut Vec<u8>,
    q: Result<(), PulseError>,
)
    requires
        messages_wf(messages),
        a is Object,
        b is Object,
        b->Object_fields@ == a->Object_fields@.push(entry),
        leads_to(messages, name@, entry.0@, number, field@),
        forall|i: int|
            0 <= i < a->Object_fields@.len() ==> number_behind(
                messages,
                name@,
                (#[trigger] a->Object_fields@[i]).0@,
            ) <= number,
        call_ensures(encode_message, (name, &a, &messages), r),
        call_ensures(encode_message, (name, &b, &messages), s),
        old(out)@.len() == 0,
        call_ensures(encode_field, (&field, &entry.1, &messages, out), q),
    ensures
        s is Ok <==> r is Ok && q is Ok,
        s is Ok ==> s->Ok_0@ == r->Ok_0@ + final(out)@,
{
    let views = message_views(messages@);
    let m = views[name@];
    let fa = a->Object_fields@;
    let fb = b->Object_fields@;
    lemma_chosen(fa, m, name@);
    lemma_chosen(fb, m, name@);
    assert(field_chosen(entry.0@, m, name@) == Ok::<_, Seq<char>>((number, field@)));
    assert(fb[fa.len() as int] == entry);
    assert forall|i: int| 0 <= i < fa.len() implies fb[i] == #[trigger] fa[i] by {}
    if fields_chosen(fa, m, name@) is Ok {
        assert forall|i: int| 0 <= i < fb.len() implies field_chosen((#[trigger] fb[i]).0@, m, name@)
            is Ok by {
            if i < fa.len() {
                assert(fb[i] == fa[i]);
            }
        }
        let ca = fields_chosen(fa, m, name@)->Ok_0;
        let cb = fields_chosen(fb, m, name@)->Ok_0;
        lemma_field_part(fa, ca, views);
        lemma_field_part(fb, cb, views);
        let pa = field_parts(fa, ca, views);
        let pb = field_parts(fb, cb, views);
        let x = (number, field_bytes(field@, entry.1, views));
        assert forall|i: int| 0 <= i < fa.len() implies pb[i] == #[trigger] pa[i] by {
            assert(fb[i] == fa[i]);
            assert(field_chosen(fa[i].0@, m, name@) == Ok::<_, Seq<char>>(ca[i]));
            assert(field_chosen(fb[i].0@, m, name@) == Ok::<_, Seq<char>>(cb[i]));
        }
        assert(field_chosen(fb[fa.len() as int].0@, m, name@) == Ok::<_, Seq<char>>(
            cb[fa.len() as int],
        ));
        assert(pb =~= pa.push(x));
        assert(pb.drop_last() =~= pa);
        let sorted = by_number(pa);
        if sorted.len() > 0 {
            lemma_by_number_members(pa, sorted.len() - 1);
            let k = pa.index_of(sorted.last());
            assert(pa[k] == sorted.last());
            assert(fa[k] == fb[k]);
            assert(field_chosen(fa[k].0@, m, name@) == Ok::<_, Seq<char>>(ca[k]));
            assert(number_behind(messages, name@, fa[k].0@) <= number);
        }
        assert(by_number(pb) == sorted.push(x));
        lemma_gathered(sorted, x);
        if q is Ok {
            assert(final(out)@ =~= x.1->Ok_0);
        }
    } else {
        let i = choose|i: int|
            0 <= i < fa.len() && field_chosen((#[trigger] fa[i]).0@, m, name@) is Err;
        assert(fb[i] == fa[i]);
        assert(fields_chosen(fb, m, name@) is Err);
    }
}

proof fn lemma_placed_commutes<T>(s: Seq<(u32, T)>, x: (u32, T), y: (u32, T))
    requires
        x.0 < y.0,
    ensures
        placed(placed(s, x), y) == placed(placed(s, y), x),
    decreases s.len(),
{
    if s.len() == 0 {
        assert(s.push(y).drop_last() =~= s);
        assert(placed(placed(s, x), y) =~= s.push(x).push(y));
        assert(placed(s.push(y), x) =~= s.push(x).push(y));
    } else if s.last().0 <= x.0 {
        assert(s.push(y).drop_last() =~= s);
    } else if s.last().0 <= y.0 {
        let f = placed(s.drop_last(), x);
        assert(f.push(s.last()).push(y).drop_last() =~= f.push(s.last()));
        assert(s.push(y).drop_last() =~= s);
    } else {
        let f = s.drop_last();
        lemma_placed_commutes(f, x, y);
        let px = placed(f, x);
        let py = placed(f, y);
        assert(px.push(s.last()).drop_last() =~= px);
        assert(py.push(s.last()).drop_last() =~= py);
    }
}

proof fn lemma_swapped<T>(s: Seq<(u32, T)>, i: int)
    requires
        0 <= i < s.len() - 1,
        s[i].0 != s[i + 1].0,
    ensures
        by_number(s.update(i, s[i + 1]).update(i + 1, s[i])) == by_number(s),
    decreases s.len(),
{
    let t = s.update(i, s[i + 1]).update(i + 1, s[i]);
    let n = s.len() as int;
    if i + 1 < n - 1 {
        lemma_swapped(s.drop_last(), i);
        assert(t.drop_last() =~= s.drop_last().update(i, s[i + 1]).update(i + 1, s[i]));
        assert(t.last() == s.last());
    } else {
        let front = s.take(i);
        assert(s.drop_last().drop_last() =~= front);
        assert(t.drop_last().drop_last() =~= front);
        assert(s.drop_last().last() == s[i]);
        assert(t.drop_last().last() == s[i + 1]);
        assert(t.last() == s[i]);
        let sorted = by_number(front);
        assert(by_number(s.drop_last()) == placed(sorted, s[i]));
        assert(by_number(t.drop_last()) == placed(sorted, s[i + 1]));
        if s[i].0 < s[i + 1].0 {
            lemma_placed_commutes(sorted, s[i], s[i + 1]);
        } else {
            lemma_placed_commutes(sorted, s[i + 1], s[i]);
        }
    }
}

/// Two neighbours with different numbers can change places in an object: the bytes of the
/// message stay.
pub proof fn law_encode_order_is_by_number(
    name: &str,
    a: JsonValue,
    b: JsonValue,
    i: int,
    messages: TextMap<MessageSchema>,
    r: Result<Vec<u8>, PulseError>,
    s: Result<Vec<u8>, PulseError>,
)
    requires
        messages_wf(messages),
        a is Object,
        b is Object,
        0 <= i < a->Object_fields@.len() - 1,
        b->Object_fields@ == a->Object_fields@.update(i, a->Object_fields@[i + 1]).update(
            i + 1,
            a->Object_fields@[i],
        ),
        is_known(messages, name@, a->Object_fields@[i].0@),
        is_known(messages, name@, a->Object_fields@[i + 1].0@),
        number_behind(messages, name@, a->Object_fields@[i].0@) != number_behind(
            messages,
            name@,
            a->Object_fields@[i + 1].0@,
        ),
        call_ensures(encode_message, (name, &a, &messages), r),
        call_ensures(encode_message, (name, &b, &messages), s),
    ensures
        r is Ok <==> s is Ok,
        r is Ok ==> r->Ok_0@ == s->Ok_0@,
{
    let views = message_views(messages@);
    let m = views[name@];
    let fa = a->Object_fields@;
    let fb = b->Object_fields@;
    lemma_chosen(fa, m, name@);
    lemma_chosen(fb, m, name@);
    if fields_chosen(fa, m, name@) is Ok {
        assert forall|k: int| 0 <= k < fb.len() implies field_chosen((#[trigger] fb[k]).0@, m, name@)
            is Ok by {
            if k == i {
                assert(fb[k] == fa[i + 1]);
            } else if k == i + 1 {
                assert(fb[k] == fa[i]);
            } else {
                assert(fb[k] == fa[k]);
            }
        }
        let ca = fields_chosen(fa, m, name@)->Ok_0;
        let cb = fields_chosen(fb, m, name@)->Ok_0;
        lemma_field_part(fa, ca, views);
        lemma_field_part(fb, cb, views);
        let pa = field_parts(fa, ca, views);
        let pb = field_parts(fb, cb, views);
        let swapped = pa.update(i, pa[i + 1]).update(i + 1, pa[i]);
        assert forall|k: int| 0 <= k < fb.len() implies pb[k] == #[trigger] swapped[k] by {
            let j = if k == i {
                i + 1
            } else if k == i + 1 {
                i
            } else {
                k
            };
            assert(fb[k] == fa[j]);
            assert(field_chosen(fa[j].0@, m, name@) == Ok::<_, Seq<char>>(ca[j]));
            assert(field_chosen(fb[k].0@, m, name@) == Ok::<_, Seq<char>>(cb[k]));
            assert(pa[j] == (ca[j].0, field_bytes(ca[j].1, fa[j].1, views)));
            assert(pb[k] == (cb[k].0, field_bytes(cb[k].1, fb[k].1, views)));
        }
        assert(pb =~= swapped);
        assert(field_chosen(fa[i].0@, m, name@) == Ok::<_, Seq<char>>(ca[i]));
        assert(field_chosen(fa[i + 1].0@, m, name@) == Ok::<_, Seq<char>>(ca[i + 1]));
        assert(pa[i].0 != pa[i + 1].0);
        lemma_swapped(pa, i);
    } else {
        let k = choose|k: int|
            0 <= k < fa.len() && field_chosen((#[trigger] fa[k]).0@, m, name@) is Err;
        let j = if k == i {
            i + 1
        } else if k == i + 1 {
            i
        } else {
            k
        };
        assert(fb[j] == fa[k]);
        assert(fields_chosen(fb, m, name@) is Err);
    }
}

/// A field that is not repeated is written as its one value; a repeated one takes an array.
pub proof fn law_encode_field_once(
    field: FieldSchema,
    value: JsonValue,
    messages: TextMap<MessageSchema>,
    out: &mut Vec<u8>,
    r: Result<(), PulseError>,
    one: &mut Vec<u8>,
    q: Result<(), PulseError>,
)
    requires
        messages_wf(messages),
        old(out)@ == old(one)@,
        call_ensures(encode_field, (&field, &value, &messages, out), r),
        call_ensures(encode_single_field_value, (&field, &value, &messages, one), q),
    ensures
        !field.repeated ==> (r is Ok <==> q is Ok) && (r is Ok ==> final(out)@ == final(one)@),
        field.repeated && !(value is Array) ==> r is Err,
{
}

proof fn lemma_items(field: FieldView, items: Seq<JsonValue>, x: JsonValue, messages: Map<
    Seq<char>,
    MessageView,
>)
    ensures
        items_bytes(field, items.push(x), messages) is Ok <==> items_bytes(field, items, messages)
            is Ok && single_bytes(field, x, messages) is Ok,
        items_bytes(field, items.push(x), messages) is Ok ==> items_bytes(
            field,
            items.push(x),
            messages,
        )->Ok_0 == items_bytes(field, items, messages)->Ok_0 + single_bytes(
            field,
            x,
            messages,
        )->Ok_0,
    decreases items.len(),
{
    let all = items.push(x);
    let one = single_bytes(field, x, messages);
    if items.len() == 0 {
        assert(all.skip(1) =~= items);
        if one is Ok {
            assert(one->Ok_0 + Seq::<u8>::empty() =~= Seq::<u8>::empty() + one->Ok_0);
        }
    } else {
        lemma_items(field, items.skip(1), x, messages);
        assert(all.skip(1) =~= items.skip(1).push(x));
        assert(all[0] == items[0]);
        if items_bytes(field, all, messages) is Ok {
            let first = single_bytes(field, items[0], messages)->Ok_0;
            let rest = items_bytes(field, items.skip(1), messages)->Ok_0;
            assert(first + (rest + one->Ok_0) =~= (first + rest) + one->Ok_0);
        }
    }
}

/// The values of a repeated field that are no numbers are written one after the other, each
/// as a field of its own.
pub proof fn law_encode_one_value_more(
    field: FieldSchema,
    a: JsonValue,
    b: JsonValue,
    x: JsonValue,
    messages: TextMap<MessageSchema>,
    out: &mut Vec<u8>,
    r: Result<(), PulseError>,
    more: &mut Vec<u8>,
    s: Result<(), PulseError>,
    one: &mut Vec<u8>,
    q: Result<(), PulseError>,
)
    requires
        messages_wf(messages),
        field.repeated,
        !(field.kind is Scalar),
        a is Array,
        b is Array,
        b->items@ == a->items@.push(x),
        old(out)@ == old(more)@,
        old(one)@.len() == 0,
        call_ensures(encode_field, (&field, &a, &messages, out), r),
        call_ensures(encode_field, (&field, &b, &messages, more), s),
        call_ensures(encode_single_field_value, (&field, &x, &messages, one), q),
    ensures
        a->items@.len() == 0 ==> r is Ok && final(out)@ == old(out)@,
        s is Ok <==> r is Ok && q is Ok,
        s is Ok ==> final(more)@ == final(out)@ + final(one)@,
{
    let views = message_views(messages@);
    lemma_items(field@, a->items@, x, views);
    assert(!(field@.kind is Scalar));
    if a->items@.len() == 0 {
        assert(old(out)@ + Seq::<u8>::empty() =~= old(out)@);
    }
    if s is Ok {
        assert(final(one)@ =~= single_bytes(field@, x, views)->Ok_0);
        let done = items_bytes(field@, a->items@, views)->Ok_0;
        assert(old(more)@ + (done + final(one)@) =~= (old(out)@ + done) + final(one)@);
    }
}

/// Texts one after the other.
pub open spec fn in_a_row(parts: Seq<Seq<u8>>) -> Seq<u8>
    decreases parts.len(),
{
    if parts.len() == 0 {
        Seq::empty()
    } else {
        parts[0] + in_a_row(parts.skip(1))
    }
}

/// Whether bytes are what a kind takes from a value.
pub open spec fn is_taken(kind: Scalar, value: JsonValue, v: Seq<u8>) -> bool {
    exists|n: int| #[trigger] takes(kind, value, n) && written(kind, n, v)
}

/// Whether each of the bytes is what a kind takes from a value.
pub open spec fn are_taken(kind: Scalar, items: Seq<JsonValue>, parts: Seq<Seq<u8>>) -> bool {
    &&& parts.len() == items.len()
    &&& forall|i: int| 0 <= i < items.len() ==> is_taken(kind, #[trigger] items[i], parts[i])
}

proof fn lemma_packed(kind: Scalar, items: Seq<JsonValue>) -> (parts: Seq<Seq<u8>>)
    ensures
        packed_bytes(kind, items) is Ok <==> forall|i: int|
            0 <= i < items.len() ==> number_of_value(kind, #[trigger] items[i]) is Ok,
        packed_bytes(kind, items) matches Ok(all) ==> are_taken(kind, items, parts) && all
            == in_a_row(parts),
    decreases items.len(),
{
    if items.len() == 0 {
        Seq::empty()
    } else {
        let rest = items.skip(1);
        let later = lemma_packed(kind, rest);
        lemma_takes(kind, items[0]);
        let n = number_of_value(kind, items[0])->Ok_0;
        let v = number_bytes(kind, n);
        let parts = seq![v] + later;
        assert(parts.skip(1) =~= later);
        if packed_bytes(kind, items) is Ok {
            super::wire::lemma_number_bytes(kind, n);
            assert(takes(kind, items[0], n));
            assert forall|i: int| 0 <= i < items.len() implies is_taken(
                kind,
                #[trigger] items[i],
                parts[i],
            ) by {
                if i > 0 {
                    assert(rest[i - 1] == items[i]);
                    assert(is_taken(kind, rest[i - 1], later[i - 1]));
                }
            }
            assert forall|i: int| 0 <= i < items.len() implies number_of_value(
                kind,
                #[trigger] items[i],
            ) is Ok by {
                if i > 0 {
                    assert(rest[i - 1] == items[i]);
                }
            }
        }
        if forall|i: int|
            0 <= i < items.len() ==> number_of_value(kind, #[trigger] items[i]) is Ok {
            assert(number_of_value(kind, items[0]) is Ok);
            assert forall|i: int| 0 <= i < rest.len() implies number_of_value(
                kind,
                #[trigger] rest[i],
            ) is Ok by {
                assert(rest[i] == items[i + 1]);
            }
        }
        parts
    }
}

/// Whether a field was appended that holds data: its key and the data behind its length.
pub open spec fn data_added(
    number: u32,
    data: Seq<u8>,
    before: Seq<u8>,
    after: Seq<u8>,
) -> bool {
    exists|k: Seq<u8>, d: Seq<u8>|
        #![trigger is_key(k, number, 2), is_data(d, data)]
        is_key(k, number, 2) && is_data(d, data) && after == before + (k + d)
}

proof fn lemma_data_added(number: u32, data: Seq<u8>, before: Seq<u8>)
    ensures
        data_added(number, data, before, before + (varint(key_of(number, 2)) + delimited(data))),
{
    lemma_varint(key_of(number, 2));
    super::wire::lemma_data(data);
    assert(is_key(varint(key_of(number, 2)), number, 2));
    assert(is_data(delimited(data), data));
}

/// Whether a kind takes a number from a value.
pub open spec fn can_take(kind: Scalar, value: JsonValue) -> bool {
    exists|n: int| takes(kind, value, n)
}

/// Numbers of a repeated field stand together as data: each as its kind writes it.
pub proof fn law_encode_packed(
    number: u32,
    kind: Scalar,
    items: Vec<JsonValue>,
    out: &mut Vec<u8>,
    r: Result<(), PulseError>,
)
    requires
        call_ensures(encode_packed_repeated_field, (number, kind, &items, out), r),
    ensures
        r is Ok <==> forall|i: int|
            0 <= i < items@.len() ==> can_take(kind, #[trigger] items@[i]),
        r is Ok ==> exists|parts: Seq<Seq<u8>>| #[trigger]
            are_taken(kind, items@, parts) && data_added(
                number,
                in_a_row(parts),
                old(out)@,
                final(out)@,
            ),
{
    let parts = lemma_packed(kind, items@);
    assert forall|i: int| 0 <= i < items@.len() implies (number_of_value(kind, #[trigger] items@[i])
        is Ok <==> can_take(kind, items@[i])) by {
        lemma_takes(kind, items@[i]);
        if number_of_value(kind, items@[i]) is Ok {
            assert(takes(kind, items@[i], number_of_value(kind, items@[i])->Ok_0));
        }
    }
    if r is Ok {
        assert forall|i: int| 0 <= i < items@.len() implies can_take(kind, #[trigger] items@[i]) by {
            assert(number_of_value(kind, items@[i]) is Ok);
        }
        lemma_data_added(number, in_a_row(parts), old(out)@);
        assert(are_taken(kind, items@, parts));
    }
    if forall|i: int| 0 <= i < items@.len() ==> can_take(kind, #[trigger] items@[i]) {
        assert forall|i: int| 0 <= i < items@.len() implies number_of_value(
            kind,
            #[trigger] items@[i],
        ) is Ok by {
            assert(can_take(kind, items@[i]));
        }
    }
}

/// A repeated field of numbers is written with the numbers together.
pub proof fn law_encode_repeated_numbers(
    field: FieldSchema,
    kind: Scalar,
    value: JsonValue,
    messages: TextMap<MessageSchema>,
    out: &mut Vec<u8>,
    r: Result<(), PulseError>,
    packed: &mut Vec<u8>,
    q: Result<(), PulseError>,
)
    requires
        messages_wf(messages),
        field.repeated,
        field.kind == FieldKind::Scalar(kind),
        value is Array,
        old(out)@ == old(packed)@,
        call_ensures(encode_field, (&field, &value, &messages, out), r),
        call_ensures(encode_packed_repeated_field, (field.number, kind, &value->items, packed), q),
    ensures
        r is Ok <==> q is Ok,
        r is Ok ==> final(out)@ == final(packed)@,
{
    assert(field@.kind == KindView::Scalar(kind));
}

/// Whether bytes are what a field of bytes takes from a value: those that a text behind the
/// mark "base64:" stands for, or else the UTF-8 bytes of the text.
pub open spec fn octets(value: JsonValue, data: Seq<u8>) -> bool {
    value matches JsonValue::Text { text, .. } && (if text@.len() >= 7 && text@.take(7) == seq![
        'b', 'a', 's', 'e', '6', '4', ':',
    ] {
        base64_bytes(text@.skip(7)) == Ok::<Seq<u8>, Seq<char>>(data)
    } else {
        data == vstd::utf8::encode_utf8(text@)
    })
}

proof fn lemma_octets(value: JsonValue)
    ensures
        bytes_of_value(value) matches Ok(data) ==> octets(value, data),
        forall|data: Seq<u8>| #[trigger]
            octets(value, data) ==> bytes_of_value(value) == Ok::<_, Seq<char>>(data),
{
    reveal_strlit("base64:");
    let mark = "base64:"@;
    assert(mark.len() == 7);
    assert(mark =~= seq!['b', 'a', 's', 'e', '6', '4', ':']);
    if value is Text {
        let text = value->Text_text@;
        assert(starts(text, mark) <==> text.len() >= 7 && text.take(7) == mark);
    }
}

/// A value is taken as bytes in the way that its mark says.
pub proof fn law_bytes(value: JsonValue, r: Result<Vec<u8>, PulseError>)
    requires
        call_ensures(to_bytes, (&value,), r),
    ensures
        r is Ok <==> exists|data: Seq<u8>| octets(value, data),
        r matches Ok(bytes) ==> octets(value, bytes@),
{
    lemma_octets(value);
    if r is Ok {
        assert(octets(value, r->Ok_0@));
    }
}

/// A field of bytes is its key and the bytes behind their length.
pub proof fn law_encode_bytes_field(
    field: FieldSchema,
    value: JsonValue,
    messages: TextMap<MessageSchema>,
    out: &mut Vec<u8>,
    r: Result<(), PulseError>,
)
    requires
        messages_wf(messages),
        field.kind is Bytes,
        call_ensures(encode_single_field_value, (&field, &value, &messages, out), r),
    ensures
        r is Ok <==> exists|data: Seq<u8>| octets(value, data),
        r is Ok ==> exists|data: Seq<u8>| #[trigger]
            octets(value, data) && data_added(field.number, data, old(out)@, final(out)@),
{
    assert(field@.kind == KindView::Bytes);
    lemma_octets(value);
    if r is Ok {
        let data = bytes_of_value(value)->Ok_0;
        assert(octets(value, data));
        lemma_data_added(field.number, data, old(out)@);
    }
}

// ---------------------------------------------------------------------------
// Reading
// ---------------------------------------------------------------------------

/// Whether fields gained a value: at the first place with the name, or behind all. One of a
/// repeated field joins the values that are there, another takes their place.
pub open spec fn gains(
    before: Seq<(Seq<char>, ResponseView)>,
    after: Seq<(Seq<char>, ResponseView)>,
    name: Seq<char>,
    value: ResponseView,
    repeated: bool,
) -> bool {
    exists|p: int| #[trigger] gains_at(before, after, name, value, repeated, p)
}

/// The same at a place.
pub open spec fn gains_at(
    before: Seq<(Seq<char>, ResponseView)>,
    after: Seq<(Seq<char>, ResponseView)>,
    name: Seq<char>,
    value: ResponseView,
    repeated: bool,
    p: int,
) -> bool {
    &&& 0 <= p <= before.len()
    &&& forall|i: int| 0 <= i < p ==> (#[trigger] before[i]).0 != name
    &&& if p == before.len() {
        after == before.push(
            (name, if repeated {
                ResponseView::Array(seq![value])
            } else {
                value
            }),
        )
    } else {
        &&& before[p].0 == name
        &&& !repeated ==> after == before.update(p, (name, value))
        &&& repeated ==> (match before[p].1 {
            ResponseView::Array(items) => after == before.update(
                p,
                (name, ResponseView::Array(items.push(value))),
            ),
            other => after == before.update(p, (name, ResponseView::Array(seq![other, value]))),
        })
    }
}

proof fn lemma_gains(
    before: Seq<(Seq<char>, ResponseView)>,
    name: Seq<char>,
    value: ResponseView,
    repeated: bool,
)
    ensures
        gains(before, with_value(before, name, value, repeated), name, value, repeated),
{
    let p = place_of(before, name);
    lemma_place_of(before, name);
    lemma_with_value_at(before, name, value, repeated, p);
    assert(gains_at(
        before,
        with_value(before, name, value, repeated),
        name,
        value,
        repeated,
        p,
    ));
}

/// A value that was read is put among the fields.
pub proof fn law_append_decoded(
    target: &mut Vec<(String, ResponseValue)>,
    name: &str,
    value: ResponseValue,
    repeated: bool,
    r: (),
)
    requires
        call_ensures(append_decoded_field, (target, name, value, repeated), r),
    ensures
        gains(
            entry_views(old(target)@),
            entry_views(final(target)@),
            name@,
            response_view(value),
            repeated,
        ),
{
    lemma_gains(entry_views(old(target)@), name@, response_view(value), repeated);
}

/// No bytes are an object without fields, where the message is known.
pub proof fn law_decode_nothing(
    name: &str,
    bytes: &[u8],
    messages: TextMap<MessageSchema>,
    r: Result<ResponseValue, PulseError>,
)
    requires
        messages_wf(messages),
        holdable(bytes@),
        call_ensures(decode_message, (name, bytes, &messages), r),
    ensures
        !messages@.dom().contains(name@) ==> r is Err,
        messages@.dom().contains(name@) && bytes@.len() == 0 ==> (r matches Ok(v) && (
        response_view(v) matches ResponseView::Object(fields) && fields.len() == 0)),
        r matches Ok(v) ==> response_view(v) is Object,
{
}

/// Whether a message has a field with a number.
pub open spec fn has_field(
    messages: TextMap<MessageSchema>,
    message: Seq<char>,
    number: u32,
    field: FieldView,
) -> bool {
    &&& messages@.dom().contains(message)
    &&& message_views(messages@)[message].by_number.dom().contains(number)
    &&& message_views(messages@)[message].by_number[number] == field
}

/// Whether a message has no field with a number.
pub open spec fn lacks_field(
    messages: TextMap<MessageSchema>,
    message: Seq<char>,
    number: u32,
) -> bool {
    &&& messages@.dom().contains(message)
    &&& !message_views(messages@)[message].by_number.dom().contains(number)
}

/// Whether bytes are a key, in as many groups as may be.
pub open spec fn keyed(k: Seq<u8>, number: u32, w: u8) -> bool {
    is_varint(k, number * 8 + w) && k.len() <= 10 && w < 8
}

proof fn lemma_keyed(before: Seq<u8>, k: Seq<u8>, rest: Seq<u8>, number: u32, w: u8)
    requires
        keyed(k, number, w),
    ensures
        ({
            let all = before + (k + rest);
            &&& varint_at(all, before.len() as int) is Ok
            &&& key_number(varint_at(all, before.len() as int)->Ok_0.0) == number
            &&& key_wire_type(varint_at(all, before.len() as int)->Ok_0.0) == w
            &&& varint_at(all, before.len() as int)->Ok_0.1 == before.len() + k.len()
        }),
{
    let all = before + (k + rest);
    assert(all.subrange(before.len() as int, (before.len() + k.len()) as int) =~= k);
    assert(stands_at(all, before.len() as int, k));
    lemma_varint_read(all, before.len() as int, k, number * 8 + w);
    let n = (number * 8 + w) as nat;
    assert(n < 0x1_0000_0000_0000);
    assert(n / 8 == number && n % 8 == w);
}

proof fn lemma_span_shifted(field: FieldView, w: u8, before: Seq<u8>, v: Seq<u8>)
    requires
        before.len() + v.len() <= usize::MAX,
        value_span(field, w, v, 0) is Ok,
    ensures
        ({
            let (start, end) = value_span(field, w, v, 0)->Ok_0;
            let all = before + v;
            &&& value_span(field, w, all, before.len() as int) == Ok::<_, Seq<char>>(
                (before.len() + start, before.len() + end),
            )
            &&& 0 <= start <= end <= v.len()
            &&& end > 0
            &&& all.subrange(before.len() + start, before.len() + end) == v.subrange(start, end)
        }),
{
    let none = Seq::<u8>::empty();
    let all = before + v;
    assert(before + v + none =~= all);
    crate::grpc::decode::lemma_span_within(field, w, v, 0);
    let (start, end) = value_span(field, w, v, 0)->Ok_0;
    match field.kind {
        KindView::Scalar(kind) => {
            crate::grpc::undeclared::lemma_varint_embedded(before, v, none, 0);
            if wire_type_of(kind) == 1 && v.len() >= 8 {
                assert(all.subrange(before.len() as int, before.len() as int + 8) =~= v.subrange(0, 8));
            }
            if wire_type_of(kind) == 5 && v.len() >= 4 {
                assert(all.subrange(before.len() as int, before.len() as int + 4) =~= v.subrange(0, 4));
            }
        },
        _ => {
            crate::grpc::undeclared::lemma_delimited_embedded(
                before,
                v,
                none,
                0,
                "length-delimited overflow"@,
                "length-delimited field exceeds payload"@,
            );
        },
    }
    assert(all.subrange(before.len() + start, before.len() + end) =~= v.subrange(start, end));
}

proof fn lemma_field_read(
    m: MessageView,
    a: Seq<u8>,
    k: Seq<u8>,
    v: Seq<u8>,
    number: u32,
    w: u8,
    field: FieldView,
    value: ResponseView,
    done: Seq<(Seq<char>, ResponseView)>,
    views: Map<Seq<char>, MessageView>,
)
    requires
        (a + (k + v)).len() <= usize::MAX,
        keyed(k, number, w),
        m.by_number.dom().contains(number),
        m.by_number[number] == field,
        !(field.repeated && field.kind is Scalar && w == 2),
        single_at(field, w, v, 0, views) == Ok::<_, Seq<char>>((value, v.len() as int)),
        v.len() > 0,
    ensures
        fields_at(m, a + (k + v), a.len(), done, views) == Ok::<_, Seq<char>>(
            with_value(done, field.name, value, field.repeated),
        ),
{
    let b = a + (k + v);
    lemma_keyed(a, k, v, number, w);
    let head = a + k;
    assert(head + v =~= b);
    lemma_span_shifted(field, w, head, v);
    let (start, end) = value_span(field, w, v, 0)->Ok_0;
    assert(end == v.len());
    assert(single_at(field, w, b, head.len() as int, views) == Ok::<_, Seq<char>>(
        (value, b.len() as int),
    ));
    let after = with_value(done, field.name, value, field.repeated);
    assert(fields_at(m, b, b.len(), after, views) == Ok::<_, Seq<char>>(after));
}

/// One field more behind a message gives its object one value more: that which is read from
/// the field alone. Numbers that stand together are another matter.
pub proof fn law_decode_one_field_more(
    name: &str,
    a: &[u8],
    b: &[u8],
    k: Seq<u8>,
    v: &[u8],
    number: u32,
    w: u8,
    field: FieldSchema,
    messages: TextMap<MessageSchema>,
    r: Result<ResponseValue, PulseError>,
    s: Result<ResponseValue, PulseError>,
    q: Result<(ResponseValue, usize), PulseError>,
)
    requires
        messages_wf(messages),
        holdable(b@),
        b@ == a@ + (k + v@),
        keyed(k, number, w),
        has_field(messages, name@, number, field@),
        !(field.repeated && field.kind is Scalar && w == 2),
        call_ensures(decode_message, (name, a, &messages), r),
        call_ensures(decode_message, (name, b, &messages), s),
        call_ensures(decode_single_field_value, (&field, w, v, 0, &messages), q),
        r is Ok,
        q matches Ok((value, next)) && next == v@.len(),
    ensures
        s is Ok,
        response_view(r->Ok_0) matches ResponseView::Object(before) && (response_view(
            s->Ok_0,
        ) matches ResponseView::Object(after) && gains(
            before,
            after,
            field.name@,
            response_view(q->Ok_0.0),
            field.repeated,
        )),
{
    let views = message_views(messages@);
    let m = views[name@];
    let none = Seq::<(Seq<char>, ResponseView)>::empty();
    let done = fields_at(m, a@, 0, none, views)->Ok_0;
    let value = response_view(q->Ok_0.0);
    crate::grpc::undeclared::lemma_fields_embedded(m, a@, k + v@, 0, none, views);
    lemma_field_read(m, a@, k, v@, number, w, field@, value, done, views);
    lemma_gains(done, field@.name, value, field@.repeated);
}

/// A field that cannot be read by itself cannot be read behind a message.
pub proof fn law_decode_bad_way(
    name: &str,
    a: &[u8],
    b: &[u8],
    k: Seq<u8>,
    rest: Seq<u8>,
    number: u32,
    w: u8,
    field: FieldSchema,
    messages: TextMap<MessageSchema>,
    r: Result<ResponseValue, PulseError>,
    s: Result<ResponseValue, PulseError>,
)
    requires
        messages_wf(messages),
        holdable(b@),
        b@ == a@ + (k + rest),
        keyed(k, number, w),
        has_field(messages, name@, number, field@),
        !(field.repeated && field.kind is Scalar && w == 2),
        match field.kind {
            FieldKind::Scalar(kind) => w != way(kind),
            _ => w != 2,
        },
        call_ensures(decode_message, (name, a, &messages), r),
        call_ensures(decode_message, (name, b, &messages), s),
        r is Ok,
    ensures
        s is Err,
{
    let views = message_views(messages@);
    let m = views[name@];
    let none = Seq::<(Seq<char>, ResponseView)>::empty();
    let done = fields_at(m, a@, 0, none, views)->Ok_0;
    crate::grpc::undeclared::lemma_fields_embedded(m, a@, k + rest, 0, none, views);
    lemma_keyed(a@, k, rest, number, w);
    assert(fields_at(m, b@, a@.len(), done, views) is Err);
}

proof fn lemma_unknown_step(
    m: MessageView,
    bytes: Seq<u8>,
    i: nat,
    next: nat,
    done: Seq<(Seq<char>, ResponseView)>,
    views: Map<Seq<char>, MessageView>,
)
    requires
        i < bytes.len(),
        varint_at(bytes, i as int) is Ok,
        !m.by_number.dom().contains(key_number(varint_at(bytes, i as int)->Ok_0.0)),
        skipped(
            key_wire_type(varint_at(bytes, i as int)->Ok_0.0),
            bytes,
            varint_at(bytes, i as int)->Ok_0.1,
        ) == Ok::<int, Seq<char>>(next as int),
    ensures
        fields_at(m, bytes, i, done, views) == fields_at(m, bytes, next, done, views),
{
    crate::grpc::decode::lemma_varint_advances(bytes, i as int);
    let (key, at) = varint_at(bytes, i as int)->Ok_0;
    crate::grpc::decode::lemma_skipped_within(key_wire_type(key), bytes, at);
}

proof fn lemma_unknown_appended(
    m: MessageView,
    a: Seq<u8>,
    k: Seq<u8>,
    v: Seq<u8>,
    number: u32,
    w: u8,
    done: Seq<(Seq<char>, ResponseView)>,
    views: Map<Seq<char>, MessageView>,
)
    requires
        a.len() + k.len() + v.len() <= usize::MAX,
        keyed(k, number, w),
        !m.by_number.dom().contains(number),
        skipped(w, v, 0) == Ok::<int, Seq<char>>(v.len() as int),
    ensures
        ({
            let all = a + (k + v);
            fields_at(m, all, a.len(), done, views) == fields_at(m, all, all.len(), done, views)
        }),
{
    let all = a + (k + v);
    let head = a + k;
    let nothing = Seq::<u8>::empty();
    lemma_keyed(a, k, v, number, w);
    assert(head + v + nothing =~= all);
    crate::grpc::undeclared::lemma_skipped_embedded(w, head, v, nothing, 0);
    lemma_unknown_step(m, all, a.len(), all.len(), done, views);
}

proof fn lemma_read_to_the_end(
    m: MessageView,
    bytes: Seq<u8>,
    done: Seq<(Seq<char>, ResponseView)>,
    views: Map<Seq<char>, MessageView>,
)
    ensures
        fields_at(m, bytes, bytes.len(), done, views) == Ok::<_, Seq<char>>(done),
{
}

/// A field that the message does not know, behind one that was read, changes nothing.
pub proof fn law_decode_unknown_field(
    name: &str,
    a: &[u8],
    b: &[u8],
    k: Seq<u8>,
    v: &[u8],
    number: u32,
    w: u8,
    messages: TextMap<MessageSchema>,
    r: Result<ResponseValue, PulseError>,
    s: Result<ResponseValue, PulseError>,
    q: Result<usize, PulseError>,
)
    requires
        messages_wf(messages),
        holdable(b@),
        b@ == a@ + (k + v@),
        keyed(k, number, w),
        lacks_field(messages, name@, number),
        call_ensures(decode_message, (name, a, &messages), r),
        call_ensures(decode_message, (name, b, &messages), s),
        call_ensures(skip_wire_value, (w, v, 0), q),
        r is Ok,
        q matches Ok(next) && next == v@.len(),
    ensures
        s is Ok,
        response_view(s->Ok_0) == response_view(r->Ok_0),
{
    let views = message_views(messages@);
    let m = views[name@];
    let none = Seq::<(Seq<char>, ResponseView)>::empty();
    let done = fields_at(m, a@, 0, none, views)->Ok_0;
    crate::grpc::undeclared::lemma_fields_embedded(m, a@, k + v@, 0, none, views);
    lemma_unknown_appended(m, a@, k, v@, number, w, done, views);
    lemma_read_to_the_end(m, b@, done, views);
}

/// Whether bytes begin with data behind its length.
pub open spec fn data_first(v: Seq<u8>, l: Seq<u8>, data: Seq<u8>) -> bool {
    &&& is_varint(l, data.len() as int)
    &&& l.len() <= 10
    &&& l.len() + data.len() <= v.len()
    &&& v.len() <= usize::MAX
    &&& v.take((l.len() + data.len()) as int) == l + data
}

proof fn lemma_data_first(v: Seq<u8>, l: Seq<u8>, data: Seq<u8>, overflow: Seq<char>, beyond: Seq<char>)
    requires
        data_first(v, l, data),
    ensures
        delimited_at(v, 0, overflow, beyond) == Ok::<_, Seq<char>>(
            (l.len() as int, (l.len() + data.len()) as int),
        ),
        v.subrange(l.len() as int, (l.len() + data.len()) as int) == data,
{
    let part = v.take((l.len() + data.len()) as int);
    assert(part.subrange(0, l.len() as int) =~= l);
    assert(v.subrange(0, l.len() as int) =~= l);
    assert(stands_at(v, 0, l));
    lemma_varint_read(v, 0, l, data.len() as int);
    let n = data.len();
    let limit = usize::MAX as nat + 1;
    assert(n % 0x1_0000_0000_0000_0000nat == n);
    assert(n % limit == n) by (nonlinear_arith)
        requires
            n < limit,
    ;
    assert(part.subrange(l.len() as int, (l.len() + data.len()) as int) =~= data);
    assert(v.subrange(l.len() as int, (l.len() + data.len()) as int) =~= data);
}

/// Values of fields that are not known are left out: a number in its groups, 8 bytes, data
/// with its length or 4 bytes; other ways are refused.
pub proof fn law_skip(
    w: u8,
    v: &[u8],
    n: int,
    l: Seq<u8>,
    data: Seq<u8>,
    r: Result<usize, PulseError>,
)
    requires
        call_ensures(skip_wire_value, (w, v, 0), r),
        v@.len() <= usize::MAX,
    ensures
        w == 0 && is_varint(v@, n) && v@.len() <= 10 ==> (r matches Ok(next) && next == v@.len()),
        w == 1 ==> (r is Ok <==> v@.len() >= 8),
        w == 1 ==> (r matches Ok(next) ==> next == 8),
        w == 2 && data_first(v@, l, data) ==> (r matches Ok(next) && next == l.len() + data.len()),
        w == 5 ==> (r is Ok <==> v@.len() >= 4),
        w == 5 ==> (r matches Ok(next) ==> next == 4),
        w != 0 && w != 1 && w != 2 && w != 5 ==> r is Err,
{
    if is_varint(v@, n) && v@.len() <= 10 {
        assert(v@.subrange(0, v@.len() as int) =~= v@);
        lemma_varint_read(v@, 0, v@, n);
    }
    if data_first(v@, l, data) {
        lemma_data_first(
            v@,
            l,
            data,
            "buffer index overflow"@,
            "buffer underflow while decoding"@,
        );
    }
}

/// Data that stands first is a text where it is UTF-8, bytes in base64, or a message; the
/// place behind it comes with it.
pub proof fn law_decode_data_field(
    field: FieldSchema,
    v: &[u8],
    l: Seq<u8>,
    data: &[u8],
    name: &str,
    messages: TextMap<MessageSchema>,
    inner: Result<ResponseValue, PulseError>,
    r: Result<(ResponseValue, usize), PulseError>,
)
    requires
        messages_wf(messages),
        holdable(v@),
        data_first(v@, l, data@),
        call_ensures(decode_message, (name, data, &messages), inner),
        call_ensures(decode_single_field_value, (&field, 2, v, 0, &messages), r),
    ensures
        r matches Ok((_, next)) ==> next == l.len() + data@.len() || field.kind is Scalar,
        field.kind is Text ==> (r is Ok <==> vstd::utf8::valid_utf8(data@)),
        field.kind is Text ==> (r matches Ok((value, _)) ==> (response_view(
            value,
        ) matches ResponseView::Text(text) && vstd::utf8::encode_utf8(text) == data@)),
        field.kind is Bytes ==> (r matches Ok((value, _)) && response_view(value)
            == ResponseView::Text(base64_text(data@))),
        field.kind matches FieldKind::Message(m) ==> (m@ == name@ ==> (r is Ok <==> inner is Ok)
            && (r is Ok ==> response_view(r->Ok_0.0) == response_view(inner->Ok_0))),
{
    lemma_data_first(
        v@,
        l,
        data@,
        "length-delimited overflow"@,
        "length-delimited field exceeds payload"@,
    );
    assert(holdable(data@));
    if vstd::utf8::valid_utf8(data@) {
        vstd::utf8::decode_utf8_encode_utf8(data@);
    }
}

/// Whether bytes are numbers of a kind, one after the other.
pub open spec fn numbers_in_a_row(kind: Scalar, parts: Seq<Seq<u8>>, nums: Seq<int>) -> bool {
    &&& parts.len() == nums.len()
    &&& forall|i: int|
        0 <= i < parts.len() ==> number_at(kind, #[trigger] parts[i], 0, parts[i], nums[i])
            && !no_number(kind, nums[i])
}

/// Whether values are what numbers of a kind stand for.
pub open spec fn stand_for(kind: Scalar, nums: Seq<int>, items: Seq<ResponseView>) -> bool {
    &&& items.len() == nums.len()
    &&& forall|i: int| 0 <= i < nums.len() ==> stands_for(kind, nums[i], #[trigger] items[i])
}

proof fn lemma_packed_read(
    kind: Scalar,
    bytes: Seq<u8>,
    i: int,
    parts: Seq<Seq<u8>>,
    nums: Seq<int>,
) -> (items: Seq<ResponseView>)
    requires
        0 <= i,
        bytes.len() <= usize::MAX,
        numbers_in_a_row(kind, parts, nums),
        stands_at(bytes, i, in_a_row(parts)),
    ensures
        packed_at(kind, bytes, i, i + in_a_row(parts).len()) == Ok::<_, Seq<char>>(items),
        stand_for(kind, nums, items),
    decreases parts.len(),
{
    let end = i + in_a_row(parts).len();
    if parts.len() == 0 {
        Seq::empty()
    } else {
        let v = parts[0];
        let rest = in_a_row(parts.skip(1));
        let next = i + v.len();
        assert(number_at(kind, parts[0], 0, parts[0], nums[0]));
        assert(in_a_row(parts) == v + rest);
        let whole = bytes.subrange(i, end);
        assert(whole.subrange(0, v.len() as int) =~= v);
        assert(bytes.subrange(i, next) =~= v);
        assert(whole.subrange(v.len() as int, whole.len() as int) =~= rest);
        assert(bytes.subrange(next, end) =~= rest);
        assert(number_at(kind, bytes, i, v, nums[0]));
        lemma_scalar_read(kind, bytes, i, v, nums[0]);
        assert forall|j: int| 0 <= j < parts.skip(1).len() implies number_at(
            kind,
            #[trigger] parts.skip(1)[j],
            0,
            parts.skip(1)[j],
            nums.skip(1)[j],
        ) && !no_number(kind, nums.skip(1)[j]) by {
            assert(parts.skip(1)[j] == parts[j + 1]);
            assert(nums.skip(1)[j] == nums[j + 1]);
        }
        let later = lemma_packed_read(kind, bytes, next, parts.skip(1), nums.skip(1));
        let value = scalar_at(kind, bytes, i)->Ok_0.0;
        let items = seq![value] + later;
        assert forall|j: int| 0 <= j < nums.len() implies stands_for(
            kind,
            nums[j],
            #[trigger] items[j],
        ) by {
            if j > 0 {
                assert(items[j] == later[j - 1]);
                assert(nums.skip(1)[j - 1] == nums[j]);
            }
        }
        assert(v.len() >= 1);
        items
    }
}

/// Numbers that stand together are read for what each of them stands for; they come as one
/// value, which is an array.
pub proof fn law_decode_packed(
    name: &str,
    a: &[u8],
    b: &[u8],
    k: Seq<u8>,
    l: Seq<u8>,
    parts: Seq<Seq<u8>>,
    nums: Seq<int>,
    number: u32,
    field: FieldSchema,
    kind: Scalar,
    messages: TextMap<MessageSchema>,
    r: Result<ResponseValue, PulseError>,
    s: Result<ResponseValue, PulseError>,
)
    requires
        messages_wf(messages),
        holdable(b@),
        b@ == a@ + (k + (l + in_a_row(parts))),
        keyed(k, number, 2),
        has_field(messages, name@, number, field@),
        field.repeated,
        field.kind == FieldKind::Scalar(kind),
        data_first(l + in_a_row(parts), l, in_a_row(parts)),
        numbers_in_a_row(kind, parts, nums),
        call_ensures(decode_message, (name, a, &messages), r),
        call_ensures(decode_message, (name, b, &messages), s),
        r is Ok,
    ensures
        s is Ok,
        exists|items: Seq<ResponseView>| #[trigger]
            stand_for(kind, nums, items) && (response_view(r->Ok_0) matches ResponseView::Object(
                before,
            ) && (response_view(s->Ok_0) matches ResponseView::Object(after) && gains(
                before,
                after,
                field.name@,
                ResponseView::Array(items),
                true,
            ))),
{
    let views = message_views(messages@);
    let m = views[name@];
    let none = Seq::<(Seq<char>, ResponseView)>::empty();
    let nothing = Seq::<u8>::empty();
    let done = fields_at(m, a@, 0, none, views)->Ok_0;
    let data = in_a_row(parts);
    let v = l + data;
    let head = a@ + k;
    let overflow = "packed field length overflow"@;
    let beyond = "packed field exceeds payload bounds"@;
    crate::grpc::undeclared::lemma_fields_embedded(m, a@, k + v, 0, none, views);
    lemma_keyed(a@, k, v, number, 2);
    assert(head + v + nothing =~= b@);
    lemma_data_first(v, l, data, overflow, beyond);
    crate::grpc::undeclared::lemma_delimited_embedded(head, v, nothing, 0, overflow, beyond);
    let start = (head.len() + l.len()) as int;
    assert(b@.subrange(start, start + data.len()) =~= data);
    let items = lemma_packed_read(kind, b@, start, parts, nums);
    assert(field@.kind == KindView::Scalar(kind));
    let after = with_value(done, field@.name, ResponseView::Array(items), true);
    assert(fields_at(m, b@, b@.len(), after, views) == Ok::<_, Seq<char>>(after));
    assert(fields_at(m, b@, a@.len(), done, views) == fields_at(m, b@, b@.len(), after, views));
    lemma_gains(done, field@.name, ResponseView::Array(items), true);
    assert(stand_for(kind, nums, items));
}

/// A field is refused exactly where it does not come in the way that is expected.
pub proof fn law_ensure_wire_type(
    w: u8,
    expected: u8,
    field: FieldSchema,
    r: Result<(), PulseError>,
)
    requires
        call_ensures(ensure_wire_type, (w, expected, &field), r),
    ensures
        r is Ok <==> w == expected,
{
}

/// Data is found behind its length.
pub proof fn law_read_data(
    v: &[u8],
    l: Seq<u8>,
    data: Seq<u8>,
    r: Result<(usize, usize), PulseError>,
)
    requires
        data_first(v@, l, data),
        call_ensures(read_length_delimited, (v, 0), r),
    ensures
        r matches Ok((start, end)) && v@.subrange(start as int, end as int) == data && end
            == l.len() + data.len(),
{
    lemma_data_first(
        v@,
        l,
        data,
        "length-delimited overflow"@,
        "length-delimited field exceeds payload"@,
    );
}

} // verus!
