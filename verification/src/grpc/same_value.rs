//! A message of plain fields is read back as the very value that was written.
use vstd::prelude::*;
#[allow(unused_imports)]
use super::decode::{message_at, names_unique, with_value, ResponseView};
#[allow(unused_imports)]
use super::encode::{
    by_number, field_chosen, fields_chosen, lemma_by_number_members, lemma_by_number_sorts,
    message_bytes, number_of_value,
};
#[allow(unused_imports)]
use super::round_trip::{
    answered, echo, echo_parts, echoes, fields_echo, in_range, lemma_echo_part,
    message_echo, message_echoes,
};
#[allow(unused_imports)]
use super::schema::{FieldView, KindView, MessageView, Scalar};
#[allow(unused_imports)]
use super::schema_laws::all_consistent;
#[allow(unused_imports)]
use super::undeclared::{lemma_message_round_trip_with_undeclared, undeclared};
#[allow(unused_imports)]
use super::value::JsonValue;

verus! {

/// Whether a value is of the kind of a field: a whole number in range, a flag or a text.
pub open spec fn plain_value(kind: KindView, value: JsonValue) -> bool {
    match kind {
        KindView::Scalar(Scalar::Double) | KindView::Scalar(Scalar::Float) => false,
        KindView::Scalar(Scalar::Bool) => value is Bool,
        KindView::Scalar(k) => value matches JsonValue::Number { whole: Some(n), .. } && in_range(
            k,
            n as int,
        ),
        KindView::Text => value is Text,
        _ => false,
    }
}

/// Whether a value that was read is the same as one that was written.
pub open spec fn same_value(written: JsonValue, read: ResponseView) -> bool {
    match (written, read) {
        (JsonValue::Bool(a), ResponseView::Bool(b)) => a == b,
        (JsonValue::Number { whole: Some(n), .. }, ResponseView::Int(m)) => n == m,
        (JsonValue::Number { whole: Some(n), .. }, ResponseView::UInt(m)) => n == m,
        (JsonValue::Text { text, .. }, ResponseView::Text(t)) => text@ == t,
        _ => false,
    }
}

/// Whether an object that was read holds the same names as one that was written, each
/// once and with the same value.
pub open spec fn same_object(
    written: Seq<(String, JsonValue)>,
    read: Seq<(Seq<char>, ResponseView)>,
) -> bool {
    &&& read.len() == written.len()
    &&& names_unique(read)
    &&& forall|j: int|
        0 <= j < read.len() ==> exists|i: int|
            0 <= i < written.len() && (#[trigger] written[i]).0@ == (#[trigger] read[j]).0
                && same_value(written[i].1, read[j].1)
    &&& forall|i: int|
        0 <= i < written.len() ==> exists|j: int|
            0 <= j < read.len() && (#[trigger] read[j]).0 == (#[trigger] written[i]).0@
                && same_value(written[i].1, read[j].1)
}

/// Whether a value is an object of plain values under different names of fields that a
/// message declares once each.
pub open spec fn plain_object(schema: MessageView, fields: Seq<(String, JsonValue)>) -> bool {
    &&& forall|i: int, j: int|
        0 <= i < j < fields.len() ==> (#[trigger] fields[i]).0@ != (#[trigger] fields[j]).0@
    &&& forall|i: int|
        0 <= i < fields.len() ==> {
            let name = (#[trigger] fields[i]).0@;
            let field = schema.by_number[schema.by_name[name]];
            &&& schema.by_name.dom().contains(name)
            &&& schema.by_number.dom().contains(schema.by_name[name])
            &&& field.name == name
            &&& !field.repeated
            &&& plain_value(field.kind, fields[i].1)
        }
}

proof fn lemma_chosen(fields: Seq<(String, JsonValue)>, schema: MessageView, message: Seq<char>)
    requires
        forall|i: int|
            0 <= i < fields.len() ==> field_chosen(
                (#[trigger] fields[i]).0@,
                schema,
                message,
            ) is Ok,
    ensures
        fields_chosen(fields, schema, message) matches Ok(chosen) && chosen.len() == fields.len()
            && forall|i: int|
            0 <= i < chosen.len() ==> #[trigger] chosen[i] == field_chosen(
                fields[i].0@,
                schema,
                message,
            )->Ok_0,
    decreases fields.len(),
{
    if fields.len() > 0 {
        let rest = fields.skip(1);
        assert forall|i: int| 0 <= i < rest.len() implies field_chosen(
            (#[trigger] rest[i]).0@,
            schema,
            message,
        ) is Ok by {
            assert(rest[i] == fields[i + 1]);
        }
        lemma_chosen(rest, schema, message);
        assert(field_chosen(fields[0].0@, schema, message) is Ok);
        let chosen = fields_chosen(fields, schema, message)->Ok_0;
        let others = fields_chosen(rest, schema, message)->Ok_0;
        assert forall|i: int| 0 <= i < chosen.len() implies #[trigger] chosen[i] == field_chosen(
            fields[i].0@,
            schema,
            message,
        )->Ok_0 by {
            if i > 0 {
                assert(chosen[i] == others[i - 1]);
                assert(rest[i - 1] == fields[i]);
            }
        }
    }
}

proof fn lemma_plain_echo(
    field: FieldView,
    value: JsonValue,
    messages: Map<Seq<char>, MessageView>,
)
    requires
        plain_value(field.kind, value),
    ensures
        echoes(field, value, messages),
        same_value(value, echo(field, value, messages)),
{
}

proof fn lemma_plain_fields_echo(
    fields: Seq<(String, JsonValue)>,
    chosen: Seq<(u32, FieldView)>,
    messages: Map<Seq<char>, MessageView>,
)
    requires
        fields.len() == chosen.len(),
        forall|i: int|
            0 <= i < fields.len() ==> !(#[trigger] chosen[i]).1.repeated && plain_value(
                chosen[i].1.kind,
                fields[i].1,
            ),
    ensures
        fields_echo(fields, chosen, messages),
    decreases fields.len(),
{
    if fields.len() > 0 {
        assert(plain_value(chosen[0].1.kind, fields[0].1));
        lemma_plain_echo(chosen[0].1, fields[0].1, messages);
        let (rest, others) = (fields.skip(1), chosen.skip(1));
        assert forall|i: int| 0 <= i < rest.len() implies !(#[trigger] others[i]).1.repeated
            && plain_value(others[i].1.kind, rest[i].1) by {
            assert(others[i] == chosen[i + 1]);
            assert(rest[i] == fields[i + 1]);
        }
        lemma_plain_fields_echo(rest, others, messages);
    }
}

proof fn lemma_new_name(
    done: Seq<(Seq<char>, ResponseView)>,
    name: Seq<char>,
    value: ResponseView,
)
    requires
        forall|k: int| 0 <= k < done.len() ==> (#[trigger] done[k]).0 != name,
    ensures
        with_value(done, name, value, false) == done.push((name, value)),
    decreases done.len(),
{
    if done.len() > 0 {
        assert(done[0].0 != name);
        let rest = done.skip(1);
        assert forall|k: int| 0 <= k < rest.len() implies (#[trigger] rest[k]).0 != name by {
            assert(rest[k] == done[k + 1]);
        }
        lemma_new_name(rest, name, value);
        assert(seq![done[0]] + rest.push((name, value)) =~= done.push((name, value)));
    } else {
        assert(with_value(done, name, value, false) =~= done.push((name, value)));
    }
}

proof fn lemma_answered_apart(
    parts: Seq<(u32, (Seq<char>, ResponseView))>,
    done: Seq<(Seq<char>, ResponseView)>,
)
    requires
        forall|i: int, j: int|
            0 <= i < j < parts.len() ==> (#[trigger] parts[i]).1.0 != (#[trigger] parts[j]).1.0,
        forall|i: int, k: int|
            0 <= i < parts.len() && 0 <= k < done.len() ==> (#[trigger] parts[i]).1.0 != (
            #[trigger] done[k]).0,
    ensures
        answered(parts, done) == done + parts.map_values(
            |p: (u32, (Seq<char>, ResponseView))| p.1,
        ),
    decreases parts.len(),
{
    let second = |p: (u32, (Seq<char>, ResponseView))| p.1;
    if parts.len() > 0 {
        let first = parts[0].1;
        lemma_new_name(done, first.0, first.1);
        let rest = parts.skip(1);
        let next = done.push(first);
        assert forall|i: int, j: int| 0 <= i < j < rest.len() implies (#[trigger] rest[i]).1.0 != (
        #[trigger] rest[j]).1.0 by {
            assert(rest[i] == parts[i + 1] && rest[j] == parts[j + 1]);
        }
        assert forall|i: int, k: int| 0 <= i < rest.len() && 0 <= k < next.len() implies (
        #[trigger] rest[i]).1.0 != (#[trigger] next[k]).0 by {
            assert(rest[i] == parts[i + 1]);
            if k < done.len() {
                assert(next[k] == done[k]);
            } else {
                assert(next[k] == parts[0].1);
            }
        }
        lemma_answered_apart(rest, next);
        assert(next + rest.map_values(second) =~= done + parts.map_values(second));
    } else {
        assert(done + parts.map_values(second) =~= done);
    }
}

/// Whether the parts of a message are the entries of an object, each at its place.
spec fn parts_of(
    fields: Seq<(String, JsonValue)>,
    parts: Seq<(u32, (Seq<char>, ResponseView))>,
) -> bool {
    &&& parts.len() == fields.len()
    &&& forall|i: int|
        0 <= i < parts.len() ==> (#[trigger] parts[i]).1.0 == fields[i].0@ && same_value(
            fields[i].1,
            parts[i].1.1,
        )
    &&& forall|i: int, j: int|
        0 <= i < parts.len() && 0 <= j < parts.len() && i != j ==> (#[trigger] parts[i]).1.0 != (
        #[trigger] parts[j]).1.0
}

proof fn lemma_sorted_parts(parts: Seq<(u32, (Seq<char>, ResponseView))>)
    requires
        forall|i: int, j: int|
            0 <= i < parts.len() && 0 <= j < parts.len() && i != j ==> (#[trigger] parts[i]).1.0
                != (#[trigger] parts[j]).1.0,
    ensures
        by_number(parts).len() == parts.len(),
        forall|j: int| 0 <= j < parts.len() ==> parts.contains(#[trigger] by_number(parts)[j]),
        forall|i: int| 0 <= i < parts.len() ==> by_number(parts).contains(#[trigger] parts[i]),
        forall|i: int, j: int|
            0 <= i < j < parts.len() ==> (#[trigger] by_number(parts)[i]).1.0 != (
            #[trigger] by_number(parts)[j]).1.0,
{
    let sorted = by_number(parts);
    lemma_by_number_sorts(parts);
    assert(parts.no_duplicates());
    parts.lemma_multiset_has_no_duplicates();
    sorted.lemma_multiset_has_no_duplicates_conv();
    assert forall|j: int| 0 <= j < parts.len() implies parts.contains(#[trigger] sorted[j]) by {
        lemma_by_number_members(parts, j);
    }
    assert forall|i: int| 0 <= i < parts.len() implies sorted.contains(#[trigger] parts[i]) by {
        broadcast use vstd::seq_lib::group_to_multiset_ensures;

        assert(parts.contains(parts[i]));
        assert(parts.to_multiset().contains(parts[i]));
        assert(sorted.to_multiset().contains(parts[i]));
    }
    assert forall|i: int, j: int| 0 <= i < j < parts.len() implies (#[trigger] sorted[i]).1.0 != (
    #[trigger] sorted[j]).1.0 by {
        let a = parts.index_of(sorted[i]);
        let b = parts.index_of(sorted[j]);
        assert(parts[a] == sorted[i] && parts[b] == sorted[j]);
        assert(a != b);
    }
}

proof fn lemma_parts_are_same(
    fields: Seq<(String, JsonValue)>,
    parts: Seq<(u32, (Seq<char>, ResponseView))>,
)
    requires
        parts_of(fields, parts),
    ensures
        same_object(fields, answered(by_number(parts), Seq::empty())),
{
    let sorted = by_number(parts);
    lemma_sorted_parts(parts);
    lemma_answered_apart(sorted, Seq::empty());
    let read = answered(sorted, Seq::empty());
    assert(read =~= sorted.map_values(|p: (u32, (Seq<char>, ResponseView))| p.1));
    assert forall|j: int| 0 <= j < read.len() implies exists|i: int|
        0 <= i < fields.len() && (#[trigger] fields[i]).0@ == (#[trigger] read[j]).0 && same_value(
            fields[i].1,
            read[j].1,
        ) by {
        let i = parts.index_of(sorted[j]);
        assert(parts.contains(sorted[j]));
        assert(parts[i] == sorted[j]);
        assert(fields[i].0@ == read[j].0);
    }
    assert forall|i: int| 0 <= i < fields.len() implies exists|j: int|
        0 <= j < read.len() && (#[trigger] read[j]).0 == (#[trigger] fields[i]).0@ && same_value(
            fields[i].1,
            read[j].1,
        ) by {
        assert(sorted.contains(parts[i]));
        let j = sorted.index_of(parts[i]);
        assert(read[j] == parts[i].1);
    }
    assert forall|i: int, j: int| 0 <= i < j < read.len() implies (#[trigger] read[i]).0 != (
    #[trigger] read[j]).0 by {
        assert(read[i] == sorted[i].1 && read[j] == sorted[j].1);
    }
}

/// Reading the bytes of a message whose values are whole numbers, flags and texts gives
/// the value back that was written: the same names with the same values. Well-formed
/// fields that the message does not declare may follow.
pub proof fn lemma_plain_message_is_read_back(
    name: Seq<char>,
    value: JsonValue,
    after: Seq<u8>,
    messages: Map<Seq<char>, MessageView>,
)
    requires
        all_consistent(messages),
        messages.dom().contains(name),
        value is Object,
        plain_object(messages[name], value->Object_fields@),
        undeclared(messages[name], after, 0),
    ensures
        message_bytes(name, value, messages) matches Ok(bytes) && (bytes.len() + after.len()
            <= usize::MAX ==> (message_at(name, bytes + after, messages) matches Ok(
            ResponseView::Object(read),
        ) && same_object(value->Object_fields@, read))),
{
    let schema = messages[name];
    let fields = value->Object_fields@;
    lemma_chosen(fields, schema, name);
    let chosen = fields_chosen(fields, schema, name)->Ok_0;
    assert(forall|i: int|
        0 <= i < fields.len() ==> !(#[trigger] chosen[i]).1.repeated && plain_value(
            chosen[i].1.kind,
            fields[i].1,
        ) && chosen[i].1.name == fields[i].0@);
    lemma_plain_fields_echo(fields, chosen, messages);
    lemma_echo_part(fields, chosen, messages);
    let parts = echo_parts(fields, chosen, messages);
    assert forall|i: int| 0 <= i < parts.len() implies (#[trigger] parts[i]).1.0 == fields[i].0@
        && same_value(fields[i].1, parts[i].1.1) by {
        assert(plain_value(chosen[i].1.kind, fields[i].1));
        lemma_plain_echo(chosen[i].1, fields[i].1, messages);
    }
    assert forall|i: int, j: int|
        0 <= i < parts.len() && 0 <= j < parts.len() && i != j implies (#[trigger] parts[i]).1.0
        != (#[trigger] parts[j]).1.0 by {
        assert(fields[i].0@ != fields[j].0@);
    }
    lemma_parts_are_same(fields, parts);
    lemma_message_round_trip_with_undeclared(name, value, after, messages);
}

} // verus!
