//! What descriptions make known: fields, messages, methods, and the calls of them.
use vstd::prelude::*;
use crate::grpc::account::{
    created_account, found_account, map_grpc_status, Account, CreateAccountOutput, GetAccountOutput,
};
use crate::grpc::decode::{decode_message, holdable, response_view, ResponseValue};
use crate::grpc::descriptor::{
    described_files, file_texts, message_text, message_texts, FieldDescriptor, FieldText,
    FileDescriptor, FileText, MessageDescriptor, MessageText, MethodDescriptor, MethodText,
    ServiceDescriptor, ServiceText,
};
use crate::grpc::encode::encode_message;
use crate::grpc::gateway::{
    checked_route, route_error, unary_failed, unary_not_ready, DescriptorBackedGrpcGateway,
};
use crate::grpc::schema::{
    collect_messages, collect_methods, collect_services, describe_field, describe_fields,
    describe_schema, find_method, load_schema, map_field_kind, message_views, messages_wf,
    method_named, method_views, no_fields, normalize_name, normalized, with_field, with_fields,
    with_files, with_messages, with_methods, with_services, FieldKind, FieldSchema, FieldView,
    MessageSchema, MessageView, MethodMeta, MethodView, Schema, SchemaView,
};
use crate::grpc::value::JsonValue;
use crate::grpc::wire::PulseError;
use crate::ordered::TextMap;
use crate::text::{is_blank, opt_view};

verus! {

/// Whether a text is a name without the dots in front of it.
pub open spec fn without_dots(name: Seq<char>, text: Seq<char>) -> bool {
    exists|n: int| #[trigger] dots_before(name, text, n)
}

/// Whether so many dots stand before a text, which begins with another character.
pub open spec fn dots_before(name: Seq<char>, text: Seq<char>, n: int) -> bool {
    &&& 0 <= n <= name.len()
    &&& text == name.skip(n)
    &&& forall|i: int| 0 <= i < n ==> #[trigger] name[i] == '.'
    &&& n < name.len() ==> name[n] != '.'
}

proof fn lemma_dots(name: Seq<char>) -> (n: int)
    ensures
        dots_before(name, normalized(name), n),
    decreases name.len(),
{
    if name.len() > 0 && name[0] == '.' {
        let k = lemma_dots(name.skip(1));
        assert(name.skip(1).skip(k) =~= name.skip(k + 1));
        assert forall|i: int| 0 <= i < k + 1 implies #[trigger] name[i] == '.' by {
            if i > 0 {
                assert(name.skip(1)[i - 1] == '.');
            }
        }
        k + 1
    } else {
        assert(name.skip(0) =~= name);
        0
    }
}

proof fn lemma_without_dots(name: Seq<char>)
    ensures
        forall|text: Seq<char>| #[trigger] without_dots(name, text) <==> text == normalized(name),
{
    let n = lemma_dots(name);
    assert(dots_before(name, normalized(name), n));
    assert forall|text: Seq<char>| #[trigger] without_dots(name, text) implies text == normalized(
        name,
    ) by {
        let m = choose|m: int| #[trigger] dots_before(name, text, m);
        if m < n {
            assert(name[m] == '.');
        } else if n < m {
            assert(name[n] == '.');
        }
    }
}

/// A name loses the dots in front of it and nothing else.
pub proof fn law_normalize(name: &str, r: String)
    requires
        call_ensures(normalize_name, (name,), r),
    ensures
        without_dots(name@, r@),
{
    lemma_without_dots(name@);
}

// ---------------------------------------------------------------------------
// Fields
// ---------------------------------------------------------------------------

/// Whether a description is one of a field: it has a name and a positive number.
pub open spec fn is_field(d: FieldDescriptor) -> bool {
    (d.name matches Some(name) && !is_blank(name@)) && (d.number matches Some(n) && n >= 1)
}

/// A description gives a field with its name, its number and its kind, repeated where its
/// label is 3; one without a kind is refused, and one without a name or a positive number
/// gives none.
pub proof fn law_describe_field(
    message: &str,
    d: FieldDescriptor,
    type_ref: &str,
    kind: Option<FieldKind>,
    r: Result<Option<FieldSchema>, PulseError>,
)
    requires
        type_ref@ == d.type_ref@,
        call_ensures(map_field_kind, (d.kind, type_ref), kind),
        call_ensures(describe_field, (message, &d), r),
    ensures
        !is_field(d) ==> (r matches Ok(f) && f is None),
        is_field(d) ==> (r is Ok <==> kind is Some),
        is_field(d) && kind is Some ==> (r->Ok_0 matches Some(f) && {
            &&& f.name@ == d.name->0@
            &&& f.number == d.number->0
            &&& f.repeated <==> d.label == Some(3i32)
            &&& f.kind@ == kind->0@
        }),
{
    if d.name is Some {
        assert(opt_view(d.name) == Some(d.name->0@));
    }
    assert(is_blank(Seq::<char>::empty())) by {
        super::text::lemma_trimmed(Seq::<char>::empty());
    }
}

/// The kind of a message is the name of its type without the dots in front of it.
pub proof fn law_message_kind(type_ref: &str, kind: Option<FieldKind>)
    requires
        call_ensures(map_field_kind, (11, type_ref), kind),
    ensures
        kind matches Some(FieldKind::Message(name)) && without_dots(type_ref@, name@),
{
    lemma_without_dots(type_ref@);
}

spec fn field_texts(fields: Seq<FieldDescriptor>) -> Seq<FieldText> {
    fields.map_values(|f: FieldDescriptor| f@)
}

proof fn lemma_fields_more(message: Seq<char>, m: MessageView, fields: Seq<FieldText>, d: FieldText)
    ensures
        with_fields(message, m, fields.push(d)) == (match with_fields(message, m, fields) {
            Err(e) => Err(e),
            Ok(n) => with_fields(message, n, seq![d]),
        }),
    decreases fields.len(),
{
    let all = fields.push(d);
    if fields.len() == 0 {
        assert(all =~= seq![d]);
    } else {
        assert(all[0] == fields[0]);
        assert(all.skip(1) =~= fields.skip(1).push(d));
        match crate::grpc::schema::field_described(message, fields[0]) {
            Err(_) => {},
            Ok(None) => lemma_fields_more(message, m, fields.skip(1), d),
            Ok(Some(f)) => lemma_fields_more(
                message,
                with_field(m, f, fields[0].json_name),
                fields.skip(1),
                d,
            ),
        }
    }
}

/// A field more is known by its number, by its name and by its JSON name, where it has one;
/// all else that was known of the message stays.
pub proof fn law_describe_one_field_more(
    message: &str,
    a: Vec<FieldDescriptor>,
    b: Vec<FieldDescriptor>,
    d: FieldDescriptor,
    r: Result<MessageSchema, PulseError>,
    s: Result<MessageSchema, PulseError>,
    q: Result<Option<FieldSchema>, PulseError>,
)
    requires
        b@ == a@.push(d),
        call_ensures(describe_fields, (message, &a), r),
        call_ensures(describe_fields, (message, &b), s),
        call_ensures(describe_field, (message, &d), q),
    ensures
        a@.len() == 0 ==> (r matches Ok(m) && m@.by_name =~= Map::<Seq<char>, u32>::empty()
            && m@.by_number =~= Map::<u32, FieldView>::empty()),
        s is Ok <==> r is Ok && q is Ok,
        s is Ok ==> s->Ok_0.wf(),
        s is Ok && q->Ok_0 is None ==> s->Ok_0@ == r->Ok_0@,
        s is Ok && q->Ok_0 is Some ==> {
            let f = q->Ok_0->0;
            let json = d.json_name is Some && !is_blank(d.json_name->0@);
            &&& s->Ok_0@.by_number =~= r->Ok_0@.by_number.insert(f.number, f@)
            &&& forall|key: Seq<char>| #[trigger]
                s->Ok_0@.by_name.dom().contains(key) <==> r->Ok_0@.by_name.dom().contains(key)
                    || key == f.name@ || (json && key == d.json_name->0@)
            &&& s->Ok_0@.by_name[f.name@] == f.number
            &&& json ==> s->Ok_0@.by_name[d.json_name->0@] == f.number
            &&& forall|key: Seq<char>|
                r->Ok_0@.by_name.dom().contains(key) && key != f.name@ && !(json && key
                    == d.json_name->0@) ==> #[trigger] s->Ok_0@.by_name[key]
                    == r->Ok_0@.by_name[key]
        },
{
    let texts = field_texts(a@);
    assert(field_texts(b@) =~= texts.push(d@));
    lemma_fields_more(message@, no_fields(), texts, d@);
    reveal_with_fuel(with_fields, 2);
    assert(seq![d@].skip(1) =~= Seq::<FieldText>::empty());
    assert(seq![d@][0] == d@);
    if d.json_name is Some {
        assert(d@.json_name == Some(d.json_name->0@));
    }
}

/// A name and a number lead to what is known under them.
pub proof fn law_field_lookup(
    m: MessageSchema,
    name: &str,
    number: u32,
    a: Option<u32>,
    b: Option<&FieldSchema>,
)
    requires
        m.wf(),
        call_ensures(MessageSchema::number_of, (&m, name), a),
        call_ensures(MessageSchema::field, (&m, number), b),
    ensures
        a is Some <==> m@.by_name.dom().contains(name@),
        a matches Some(n) ==> m@.by_name[name@] == n,
        b is Some <==> m@.by_number.dom().contains(number),
        b matches Some(f) ==> m@.by_number[number] == f@,
{
}

// ---------------------------------------------------------------------------
// Messages
// ---------------------------------------------------------------------------

/// Whether a text is the full name of a message: behind its parent, or else behind its
/// package, with a dot between, where it has one.
pub open spec fn full_name(
    package: Seq<char>,
    parent: Option<Seq<char>>,
    name: Seq<char>,
    full: Seq<char>,
) -> bool {
    match parent {
        Some(p) => full == p.push('.') + name,
        None => if package.len() == 0 {
            full == name
        } else {
            full == package.push('.') + name
        },
    }
}

spec fn above(parent: Option<&str>) -> Option<Seq<char>> {
    match parent {
        Some(p) => Some(p@),
        None => None,
    }
}

proof fn lemma_full_name(package: Seq<char>, parent: Option<Seq<char>>, name: Seq<char>)
    ensures
        full_name(
            package,
            parent,
            name,
            crate::grpc::schema::full_message_name(package, parent, name),
        ),
{
    reveal_strlit(".");
    if parent is Some {
        assert(parent->0 + "."@ + name =~= parent->0.push('.') + name);
    }
    assert(package + "."@ + name =~= package.push('.') + name);
}

proof fn lemma_messages_joined(
    package: Seq<char>,
    parent: Option<Seq<char>>,
    a: Seq<MessageText>,
    b: Seq<MessageText>,
    known: Map<Seq<char>, MessageView>,
)
    ensures
        with_messages(package, parent, a + b, known) == (match with_messages(
            package,
            parent,
            a,
            known,
        ) {
            Err(e) => Err(e),
            Ok(more) => with_messages(package, parent, b, more),
        }),
    decreases a.len(),
{
    let all = a + b;
    if a.len() == 0 {
        assert(all =~= b);
    } else {
        assert(all[0] == a[0]);
        assert(all.skip(1) =~= a.skip(1) + b);
        let d = a[0];
        if d.name is None || is_blank(d.name->0) {
            lemma_messages_joined(package, parent, a.skip(1), b, known);
        } else {
            let full = crate::grpc::schema::full_message_name(package, parent, d.name->0);
            let m = with_fields(full, no_fields(), d.fields);
            if m is Ok && !known.dom().contains(full) {
                let inner = with_messages(
                    package,
                    Some(full),
                    d.nested,
                    known.insert(full, m->Ok_0),
                );
                if inner is Ok {
                    lemma_messages_joined(package, parent, a.skip(1), b, inner->Ok_0);
                }
            }
        }
    }
}

proof fn lemma_message_texts(a: Seq<MessageDescriptor>, b: Seq<MessageDescriptor>)
    ensures
        message_texts(a + b) == message_texts(a) + message_texts(b),
    decreases a.len(),
{
    if a.len() == 0 {
        assert(a + b =~= b);
        assert(message_texts(a) + message_texts(b) =~= message_texts(b));
    } else {
        assert((a + b)[0] == a[0]);
        assert((a + b).skip(1) =~= a.skip(1) + b);
        lemma_message_texts(a.skip(1), b);
        assert(seq![message_text(a[0])] + (message_texts(a.skip(1)) + message_texts(b)) =~= (seq![
            message_text(a[0]),
        ] + message_texts(a.skip(1))) + message_texts(b));
    }
}

/// Descriptions are gathered one after the other: those of two lists together as those of
/// the first and then those of the second.
pub proof fn law_messages_in_turn(
    package: &str,
    parent: Option<&str>,
    a: Vec<MessageDescriptor>,
    b: Vec<MessageDescriptor>,
    c: Vec<MessageDescriptor>,
    first: &mut TextMap<MessageSchema>,
    second: &mut TextMap<MessageSchema>,
    both: &mut TextMap<MessageSchema>,
    r: Result<(), PulseError>,
    s: Result<(), PulseError>,
    t: Result<(), PulseError>,
)
    requires
        c@ == a@ + b@,
        messages_wf(*old(first)),
        messages_wf(*old(second)),
        messages_wf(*old(both)),
        message_views(old(both)@) == message_views(old(first)@),
        call_ensures(collect_messages, (package, parent, &a, first), r),
        message_views(old(second)@) == message_views(final(first)@),
        call_ensures(collect_messages, (package, parent, &b, second), s),
        call_ensures(collect_messages, (package, parent, &c, both), t),
    ensures
        r is Err ==> t is Err,
        r is Ok ==> (t is Ok <==> s is Ok),
        t is Ok ==> message_views(final(both)@) == message_views(final(second)@),
        a@.len() == 0 ==> r is Ok && message_views(final(first)@) == message_views(old(first)@),
{
    lemma_message_texts(a@, b@);
    lemma_messages_joined(
        package@,
        above(parent),
        message_texts(a@),
        message_texts(b@),
        message_views(old(first)@),
    );
}

/// One description gives its message, under its full name and with its fields, and then
/// those inside it, whose parent it is. One without a name gives nothing, and a name that is
/// known already is refused.
pub proof fn law_one_message(
    package: &str,
    parent: Option<&str>,
    one: Vec<MessageDescriptor>,
    d: MessageDescriptor,
    full: &str,
    fields: Result<MessageSchema, PulseError>,
    out: &mut TextMap<MessageSchema>,
    r: Result<(), PulseError>,
    inside: &mut TextMap<MessageSchema>,
    s: Result<(), PulseError>,
)
    requires
        one@ == seq![d],
        messages_wf(*old(out)),
        messages_wf(*old(inside)),
        call_ensures(collect_messages, (package, parent, &one, out), r),
        d.name is Some ==> full_name(
            package@,
            match parent {
                Some(p) => Some(p@),
                None => None,
            },
            d.name->0@,
            full@,
        ),
        call_ensures(describe_fields, (full, &d.fields), fields),
        fields is Ok ==> message_views(old(inside)@) == message_views(old(out)@).insert(
            full@,
            fields->Ok_0@,
        ),
        call_ensures(collect_messages, (package, Some(full), &d.nested, inside), s),
    ensures
        d.name is None || is_blank(d.name->0@) ==> r is Ok && message_views(final(out)@)
            == message_views(old(out)@),
        d.name is Some && !is_blank(d.name->0@) ==> {
            &&& r is Ok <==> fields is Ok && !message_views(old(out)@).dom().contains(full@) && s
                is Ok
            &&& r is Ok ==> message_views(final(out)@) == message_views(final(inside)@)
        },
{
    let up = above(parent);
    let text = message_text(d);
    reveal_with_fuel(message_texts, 2);
    assert(one@.skip(1) =~= Seq::<MessageDescriptor>::empty());
    assert(message_texts(one@) =~= seq![text]);
    assert(seq![text].skip(1) =~= Seq::<MessageText>::empty());
    assert(seq![text][0] == text);
    reveal_with_fuel(with_messages, 2);
    if d.name is Some {
        lemma_full_name(package@, up, d.name->0@);
        assert(text.name == Some(d.name->0@));
        assert(text.fields == field_texts(d.fields@));
        assert(above(Some(full)) == Some(full@));
    }
}

// ---------------------------------------------------------------------------
// Methods
// ---------------------------------------------------------------------------

/// Whether a method is the first of a service with a name.
pub open spec fn is_first(
    methods: Seq<MethodMeta>,
    service: Seq<char>,
    method: Seq<char>,
    i: int,
) -> bool {
    &&& 0 <= i < methods.len()
    &&& methods[i].service@ == service
    &&& methods[i].method@ == method
    &&& forall|j: int|
        0 <= j < i ==> !((#[trigger] methods[j]).service@ == service && methods[j].method@
            == method)
}

proof fn lemma_named_first(
    methods: Seq<MethodMeta>,
    service: Seq<char>,
    method: Seq<char>,
)
    ensures
        method_named(method_views(methods), service, method) matches Some(m) ==> exists|i: int|
            #[trigger] is_first(methods, service, method, i) && methods[i]@ == m,
        method_named(method_views(methods), service, method) is None ==> forall|i: int|
            0 <= i < methods.len() ==> !((#[trigger] methods[i]).service@ == service
                && methods[i].method@ == method),
    decreases methods.len(),
{
    let views = method_views(methods);
    if methods.len() > 0 {
        let rest = methods.skip(1);
        assert(method_views(rest) =~= views.skip(1));
        assert(views[0] == methods[0]@);
        lemma_named_first(rest, service, method);
        if views[0].service == service && views[0].method == method {
            assert(is_first(methods, service, method, 0));
        } else if method_named(views, service, method) is Some {
            let i = choose|i: int| #[trigger] is_first(rest, service, method, i) && rest[i]@
                == method_named(views, service, method)->0;
            assert(rest[i] == methods[i + 1]);
            assert forall|j: int| 0 <= j < i + 1 implies !((#[trigger] methods[j]).service@
                == service && methods[j].method@ == method) by {
                if j > 0 {
                    assert(rest[j - 1] == methods[j]);
                }
            }
            assert(is_first(methods, service, method, i + 1));
        } else {
            assert forall|i: int| 0 <= i < methods.len() implies !((#[trigger] methods[i]).service@
                == service && methods[i].method@ == method) by {
                if i > 0 {
                    assert(rest[i - 1] == methods[i]);
                }
            }
        }
    }
}

/// A method is found by its service and its name.
pub proof fn law_find_method(
    methods: Vec<MethodMeta>,
    service: &str,
    method: &str,
    r: Option<&MethodMeta>,
)
    requires
        call_ensures(find_method, (&methods, service, method), r),
    ensures
        r matches Some(m) ==> exists|i: int| #[trigger]
            is_first(methods@, service@, method@, i) && methods@[i]@ == m@,
        r is None ==> forall|i: int|
            0 <= i < methods@.len() ==> !((#[trigger] methods@[i]).service@ == service@
                && methods@[i].method@ == method@),
{
    lemma_named_first(methods@, service@, method@);
}

/// Whether a method is what a description says of it.
pub open spec fn described(m: MethodView, service: Seq<char>, d: MethodDescriptor) -> bool {
    &&& m.service == service
    &&& m.method == d.name->0@
    &&& m.route_path == seq!['/'] + service + seq!['/'] + d.name->0@
    &&& m.client_streaming <==> d.client_streaming == Some(true)
    &&& m.server_streaming <==> d.server_streaming == Some(true)
    &&& without_dots(
        match d.input_type {
            Some(t) => t@,
            None => Seq::empty(),
        },
        m.input_type,
    )
    &&& without_dots(
        match d.output_type {
            Some(t) => t@,
            None => Seq::empty(),
        },
        m.output_type,
    )
}

spec fn method_texts(ds: Seq<MethodDescriptor>) -> Seq<MethodText> {
    ds.map_values(|m: MethodDescriptor| m@)
}

proof fn lemma_methods_more(
    service: Seq<char>,
    ds: Seq<MethodText>,
    d: MethodText,
    messages: Set<Seq<char>>,
    known: Seq<MethodView>,
)
    ensures
        with_methods(service, ds.push(d), messages, known) == (match with_methods(
            service,
            ds,
            messages,
            known,
        ) {
            Err(e) => Err(e),
            Ok(more) => with_methods(service, seq![d], messages, more),
        }),
    decreases ds.len(),
{
    let all = ds.push(d);
    if ds.len() == 0 {
        assert(all =~= seq![d]);
    } else {
        assert(all[0] == ds[0]);
        assert(all.skip(1) =~= ds.skip(1).push(d));
        let first = with_methods(service, seq![ds[0]], messages, known);
        reveal_with_fuel(with_methods, 2);
        assert(seq![ds[0]].skip(1) =~= Seq::<MethodText>::empty());
        if first is Ok {
            lemma_methods_more(service, ds.skip(1), d, messages, first->Ok_0);
        }
    }
}

/// A description more gives a method more, as it is described, behind the others: where both
/// its messages are known and no method of the service has its name. One without a name
/// gives nothing.
pub proof fn law_one_method_more(
    service: &str,
    a: Vec<MethodDescriptor>,
    b: Vec<MethodDescriptor>,
    d: MethodDescriptor,
    messages: TextMap<MessageSchema>,
    out: &mut Vec<MethodMeta>,
    more: &mut Vec<MethodMeta>,
    r: Result<(), PulseError>,
    s: Result<(), PulseError>,
)
    requires
        messages.wf(),
        b@ == a@.push(d),
        method_views(old(out)@) == method_views(old(more)@),
        call_ensures(collect_methods, (service, &a, &messages, out), r),
        call_ensures(collect_methods, (service, &b, &messages, more), s),
    ensures
        a@.len() == 0 ==> r is Ok && method_views(final(out)@) == method_views(old(out)@),
        r is Err ==> s is Err,
        d.name is None || is_blank(d.name->0@) ==> (s is Ok <==> r is Ok),
        s is Ok && (d.name is None || is_blank(d.name->0@)) ==> method_views(final(more)@)
            == method_views(final(out)@),
        r is Ok && d.name is Some && !is_blank(d.name->0@) ==> {
            &&& s is Ok ==> exists|m: MethodView| #[trigger]
                described(m, service@, d) && messages@.dom().contains(m.input_type)
                    && messages@.dom().contains(m.output_type) && method_views(final(more)@)
                    == method_views(final(out)@).push(m)
            &&& s is Ok ==> forall|i: int|
                0 <= i < final(out)@.len() ==> !((#[trigger] final(out)@[i]).service@ == service@
                    && final(out)@[i].method@ == d.name->0@)
            &&& s is Err ==> forall|m: MethodView| #[trigger]
                described(m, service@, d) ==> !messages@.dom().contains(m.input_type)
                    || !messages@.dom().contains(m.output_type) || exists|i: int|
                    0 <= i < final(out)@.len() && (#[trigger] final(out)@[i]).service@ == service@
                        && final(out)@[i].method@ == d.name->0@
        },
{
    let texts = method_texts(a@);
    let known = message_views(messages@).dom();
    assert(method_texts(b@) =~= texts.push(d@));
    assert(known =~= messages@.dom());
    let base = method_views(old(out)@);
    lemma_methods_more(service@, texts, d@, known, base);
    reveal_with_fuel(with_methods, 2);
    assert(seq![d@].skip(1) =~= Seq::<MethodText>::empty());
    assert(seq![d@][0] == d@);
    if d.name is Some && !is_blank(d.name->0@) && r is Ok {
        let name = d.name->0@;
        assert(d@.name == Some(name));
        let input = crate::grpc::schema::or_empty(opt_view(d.input_type));
        let output = crate::grpc::schema::or_empty(opt_view(d.output_type));
        lemma_without_dots(input);
        lemma_without_dots(output);
        lemma_named_first(final(out)@, service@, name);
        reveal_strlit("/");
        assert("/"@ =~= seq!['/']);
        let m = MethodView {
            service: service@,
            method: name,
            route_path: "/"@ + service@ + "/"@ + name,
            client_streaming: d.client_streaming == Some(true),
            server_streaming: d.server_streaming == Some(true),
            input_type: normalized(input),
            output_type: normalized(output),
        };
        assert(described(m, service@, d));
        if s is Err {
            assert forall|x: MethodView| #[trigger] described(x, service@, d) implies
                !messages@.dom().contains(x.input_type) || !messages@.dom().contains(x.output_type)
                || exists|i: int|
                0 <= i < final(out)@.len() && (#[trigger] final(out)@[i]).service@ == service@
                    && final(out)@[i].method@ == d.name->0@ by {
                assert(x.input_type == normalized(input));
                assert(x.output_type == normalized(output));
                if known.contains(x.input_type) && known.contains(x.output_type) {
                    let i = choose|i: int| #[trigger] is_first(final(out)@, service@, name, i);
                    assert(final(out)@[i].service@ == service@);
                }
            }
        }
    }
}

spec fn service_texts(ss: Seq<ServiceDescriptor>) -> Seq<ServiceText> {
    ss.map_values(|s: ServiceDescriptor| s@)
}

proof fn lemma_services_more(
    package: Seq<char>,
    ss: Seq<ServiceText>,
    s: ServiceText,
    messages: Set<Seq<char>>,
    known: Seq<MethodView>,
)
    ensures
        with_services(package, ss.push(s), messages, known) == (match with_services(
            package,
            ss,
            messages,
            known,
        ) {
            Err(e) => Err(e),
            Ok(more) => with_services(package, seq![s], messages, more),
        }),
    decreases ss.len(),
{
    let all = ss.push(s);
    if ss.len() == 0 {
        assert(all =~= seq![s]);
    } else {
        assert(all[0] == ss[0]);
        assert(all.skip(1) =~= ss.skip(1).push(s));
        let first = with_services(package, seq![ss[0]], messages, known);
        reveal_with_fuel(with_services, 2);
        assert(seq![ss[0]].skip(1) =~= Seq::<ServiceText>::empty());
        if first is Ok {
            lemma_services_more(package, ss.skip(1), s, messages, first->Ok_0);
        }
    }
}

/// A service more gives its methods, under its full name, behind the others; one without a
/// name gives none.
pub proof fn law_one_service_more(
    package: &str,
    a: Vec<ServiceDescriptor>,
    b: Vec<ServiceDescriptor>,
    d: ServiceDescriptor,
    full: &str,
    messages: TextMap<MessageSchema>,
    out: &mut Vec<MethodMeta>,
    more: &mut Vec<MethodMeta>,
    own: &mut Vec<MethodMeta>,
    r: Result<(), PulseError>,
    s: Result<(), PulseError>,
    q: Result<(), PulseError>,
)
    requires
        messages.wf(),
        b@ == a@.push(d),
        method_views(old(out)@) == method_views(old(more)@),
        call_ensures(collect_services, (package, &a, &messages, out), r),
        call_ensures(collect_services, (package, &b, &messages, more), s),
        d.name is Some ==> full_name(package@, None, d.name->0@, full@),
        method_views(old(own)@) == method_views(final(out)@),
        call_ensures(collect_methods, (full, &d.methods, &messages, own), q),
    ensures
        a@.len() == 0 ==> r is Ok && method_views(final(out)@) == method_views(old(out)@),
        r is Err ==> s is Err,
        r is Ok && (d.name is None || is_blank(d.name->0@)) ==> s is Ok && method_views(
            final(more)@,
        ) == method_views(final(out)@),
        r is Ok && d.name is Some && !is_blank(d.name->0@) ==> (s is Ok <==> q is Ok) && (s is Ok
            ==> method_views(final(more)@) == method_views(final(own)@)),
{
    let texts = service_texts(a@);
    let known = message_views(messages@).dom();
    assert(service_texts(b@) =~= texts.push(d@));
    lemma_services_more(package@, texts, d@, known, method_views(old(out)@));
    reveal_with_fuel(with_services, 2);
    assert(seq![d@].skip(1) =~= Seq::<ServiceText>::empty());
    assert(seq![d@][0] == d@);
    if d.name is Some {
        assert(d@.name == Some(d.name->0@));
        assert(d@.methods == method_texts(d.methods@));
        lemma_full_name(package@, None, d.name->0@);
    }
}

// ---------------------------------------------------------------------------
// Files
// ---------------------------------------------------------------------------

/// What the first files make known: each its messages, and then the methods of its services,
/// whose messages are those known by then.
pub open spec fn known_after(files: Seq<FileText>, k: nat) -> Option<
    (Map<Seq<char>, MessageView>, Seq<MethodView>),
>
    decreases k,
{
    if k == 0 {
        Some((Map::empty(), Seq::empty()))
    } else {
        match known_after(files, (k - 1) as nat) {
            None => None,
            Some((messages, methods)) => {
                let f = files[k - 1];
                let package = match f.package {
                    Some(p) => p,
                    None => Seq::empty(),
                };
                match with_messages(package, None, f.messages, messages) {
                    Err(_) => None,
                    Ok(more) => match with_services(package, f.services, more.dom(), methods) {
                        Err(_) => None,
                        Ok(all) => Some((more, all)),
                    },
                }
            },
        }
    }
}

proof fn lemma_known_after(files: Seq<FileText>, k: nat)
    requires
        k <= files.len(),
    ensures
        ({
            let none = SchemaView { methods: Seq::empty(), messages: Map::empty() };
            match known_after(files, k) {
                None => with_files(files, none) is Err,
                Some((messages, methods)) => with_files(files, none) == with_files(
                    files.skip(k as int),
                    SchemaView { methods, messages },
                ),
            }
        }),
    decreases k,
{
    if k == 0 {
        assert(files.skip(0) =~= files);
    } else {
        lemma_known_after(files, (k - 1) as nat);
        let rest = files.skip(k - 1);
        assert(rest[0] == files[k - 1]);
        assert(rest.skip(1) =~= files.skip(k as int));
    }
}

/// A set of files makes known what its files do one after the other; it must make a method
/// known.
pub proof fn law_describe_schema(
    path: &str,
    files: Vec<FileDescriptor>,
    r: Result<Schema, PulseError>,
)
    requires
        call_ensures(describe_schema, (path, &files), r),
    ensures
        r is Ok <==> (known_after(file_texts(files@), files@.len()) matches Some((_, methods))
            && methods.len() >= 1),
        r matches Ok(schema) ==> schema.wf() && known_after(file_texts(files@), files@.len())
            == Some((message_views(schema.messages@), method_views(schema.methods@))),
{
    let texts = file_texts(files@);
    lemma_known_after(texts, files@.len());
    assert(texts.skip(files@.len() as int) =~= Seq::<FileText>::empty());
}

/// A descriptor set that was read and decoded makes known what its files do.
pub proof fn law_load_schema(
    path: &str,
    read: Result<Vec<u8>, String>,
    files: Vec<FileDescriptor>,
    s: Result<Schema, PulseError>,
    r: Result<Schema, PulseError>,
    g: Result<DescriptorBackedGrpcGateway, PulseError>,
)
    requires
        read is Ok && described_files(read->Ok_0@) is Ok ==> file_texts(files@)
            == described_files(read->Ok_0@)->Ok_0,
        call_ensures(describe_schema, (path, &files), s),
        call_ensures(load_schema, (path, read), r),
        call_ensures(DescriptorBackedGrpcGateway::from_descriptor_set, (path, read), g),
    ensures
        r is Ok <==> read is Ok && described_files(read->Ok_0@) is Ok && s is Ok,
        r is Ok ==> r->Ok_0@ == s->Ok_0@ && r->Ok_0.wf(),
        g is Ok <==> r is Ok,
        g is Ok ==> g->Ok_0.schema@ == r->Ok_0@ && g->Ok_0.wf(),
{
}

// ---------------------------------------------------------------------------
// Calls
// ---------------------------------------------------------------------------

/// A method is looked up under the name of its service without dots in front.
pub proof fn law_method_meta(
    gateway: DescriptorBackedGrpcGateway,
    service: &str,
    plain: &str,
    method: &str,
    found: Option<&MethodMeta>,
    r: Result<&MethodMeta, PulseError>,
)
    requires
        without_dots(service@, plain@),
        call_ensures(find_method, (&gateway.schema.methods, plain, method), found),
        call_ensures(DescriptorBackedGrpcGateway::method_meta, (&gateway, service, method), r),
    ensures
        r is Ok <==> found is Some,
        r matches Ok(m) ==> m@ == found->0@,
{
    lemma_without_dots(service@);
}

/// A method that does not stream is called by its path, where that is one.
pub proof fn law_unary_route(
    gateway: DescriptorBackedGrpcGateway,
    service: &str,
    method: &str,
    meta: Result<&MethodMeta, PulseError>,
    r: Result<String, PulseError>,
)
    requires
        call_ensures(DescriptorBackedGrpcGateway::method_meta, (&gateway, service, method), meta),
        call_ensures(DescriptorBackedGrpcGateway::unary_route, (&gateway, service, method), r),
    ensures
        r is Ok <==> (meta matches Ok(m) && !m.client_streaming && !m.server_streaming
            && route_error(m.route_path@) is None),
        r matches Ok(path) ==> (meta matches Ok(m) && path@ == m.route_path@),
{
}

/// A request is written as the message that the method takes, and a response is read as the
/// message that it gives.
pub proof fn law_calls(
    gateway: DescriptorBackedGrpcGateway,
    service: &str,
    method: &str,
    meta: Result<&MethodMeta, PulseError>,
    input: &str,
    output: &str,
    fields: JsonValue,
    written: Result<Vec<u8>, PulseError>,
    request: Result<Vec<u8>, PulseError>,
    payload: &[u8],
    read: Result<ResponseValue, PulseError>,
    response: Result<ResponseValue, PulseError>,
)
    requires
        gateway.wf(),
        holdable(payload@),
        call_ensures(DescriptorBackedGrpcGateway::method_meta, (&gateway, service, method), meta),
        meta is Ok ==> input@ == meta->Ok_0.input_type@ && output@ == meta->Ok_0.output_type@,
        call_ensures(encode_message, (input, &fields, &gateway.schema.messages), written),
        call_ensures(
            DescriptorBackedGrpcGateway::encode_request_fields,
            (&gateway, service, method, &fields),
            request,
        ),
        call_ensures(decode_message, (output, payload, &gateway.schema.messages), read),
        call_ensures(
            DescriptorBackedGrpcGateway::decode_response_fields,
            (&gateway, service, method, payload),
            response,
        ),
    ensures
        request is Ok <==> meta is Ok && written is Ok,
        request matches Ok(bytes) ==> bytes@ == written->Ok_0@,
        response is Ok <==> meta is Ok && read is Ok,
        response matches Ok(v) ==> response_view(v) == response_view(read->Ok_0),
{
}

/// A path is taken where nothing is wrong with it, and what goes wrong with a call is told
/// with the names of its service and its method.
pub proof fn law_call_problems(
    path: &str,
    problem: Option<String>,
    r: Result<String, PulseError>,
    service: &str,
    method: &str,
    error: &str,
    code: &str,
    late: PulseError,
    failed: PulseError,
)
    requires
        call_ensures(checked_route, (path, problem), r),
        call_ensures(unary_not_ready, (service, method, error), late),
        call_ensures(unary_failed, (service, method, code, error), failed),
    ensures
        r is Ok <==> problem is None,
        r matches Ok(route) ==> route@ == path@,
        late matches PulseError::Client(m) && m@ == "dynamic grpc client not ready for "@ + service@
            + "/"@ + method@ + (": "@ + error@),
        failed matches PulseError::GrpcStatus { code: c, message: m } && c@ == code@ && m@
            == "dynamic grpc call "@ + service@ + "/"@ + method@ + (" failed: "@ + error@),
{
}

/// An account is given as the reply holds it; a reply without one is an error, and so is a
/// status, which keeps its code.
pub proof fn law_accounts(
    account: Option<Account>,
    created: Result<CreateAccountOutput, PulseError>,
    found: Result<GetAccountOutput, PulseError>,
    prefix: &str,
    code: &str,
    status: &str,
    e: PulseError,
)
    requires
        call_ensures(created_account, (account,), created),
        call_ensures(found_account, (account,), found),
        call_ensures(map_grpc_status, (prefix, code, status), e),
    ensures
        created is Ok <==> account is Some,
        created matches Ok(out) ==> out.id@ == account->0.id@,
        found is Ok <==> account is Some,
        found matches Ok(out) ==> out.id@ == account->0.id@ && out.phone@ == account->0.phone@,
        e matches PulseError::GrpcStatus { code: c, message: m } && c@ == code@ && m@ == prefix@
            + ": "@ + status@,
{
}

} // verus!
