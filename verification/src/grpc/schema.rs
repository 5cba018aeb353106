//! What is known of messages and methods: fields by name and by number, methods by
//! service and name.
use std::collections::HashMap;
use vstd::prelude::*;
use super::descriptor::{
    FieldDescriptor, FileDescriptor, MessageDescriptor, MethodDescriptor, ServiceDescriptor,
    decode_descriptor_set,
};
#[allow(unused_imports)]
use super::descriptor::{
    FieldText, FileText, MessageText, MethodText, ServiceText, described_files, file_texts,
    message_text, message_texts,
};
use super::wire::PulseError;
use crate::ordered::TextMap;
use crate::text::{
    blank, chars_of, concat2, concat3, concat4, concat5, copy_str, str_eq, str_is_empty, string_of,
};
#[allow(unused_imports)]
use crate::text::{is_blank, opt_view};

verus! {

/// The kinds of fields whose values are numbers or flags: those that can be packed.
#[derive(Clone, Copy, Debug, PartialEq, Eq, Structural)]
pub enum Scalar {
    Double,
    Float,
    Int64,
    UInt64,
    Int32,
    Fixed64,
    Fixed32,
    Bool,
    UInt32,
    Enum,
    SFixed32,
    SFixed64,
    SInt32,
    SInt64,
}

/// The kind of a field.
#[derive(Debug)]
pub enum FieldKind {
    Scalar(Scalar),
    Text,
    Bytes,
    Message(String),
}

/// The kind of a field, a message by its name.
pub enum KindView {
    Scalar(Scalar),
    Text,
    Bytes,
    Message(Seq<char>),
}

impl View for FieldKind {
    type V = KindView;

    open spec fn view(&self) -> KindView {
        match self {
            FieldKind::Scalar(s) => KindView::Scalar(*s),
            FieldKind::Text => KindView::Text,
            FieldKind::Bytes => KindView::Bytes,
            FieldKind::Message(name) => KindView::Message(name@),
        }
    }
}

/// A field of a message.
#[derive(Debug)]
pub struct FieldSchema {
    pub name: String,
    pub number: u32,
    pub repeated: bool,
    pub kind: FieldKind,
}

/// What is known of a field.
pub struct FieldView {
    pub name: Seq<char>,
    pub number: u32,
    pub repeated: bool,
    pub kind: KindView,
}

impl View for FieldSchema {
    type V = FieldView;

    open spec fn view(&self) -> FieldView {
        FieldView {
            name: self.name@,
            number: self.number,
            repeated: self.repeated,
            kind: self.kind@,
        }
    }
}

/// The fields of a message.
pub struct MessageSchema {
    pub fields_by_name: TextMap<u32>,
    pub fields_by_number: HashMap<u32, FieldSchema>,
}

/// The numbers of a message's fields by name, and the fields by number.
pub struct MessageView {
    pub by_name: Map<Seq<char>, u32>,
    pub by_number: Map<u32, FieldView>,
}

/// The views of fields by number.
pub open spec fn field_views(fields: Map<u32, FieldSchema>) -> Map<u32, FieldView> {
    fields.map_values(|f: FieldSchema| f@)
}

impl View for MessageSchema {
    type V = MessageView;

    open spec fn view(&self) -> MessageView {
        MessageView {
            by_name: self.fields_by_name@,
            by_number: field_views(self.fields_by_number@),
        }
    }
}

impl MessageSchema {
    /// The table of names is in order.
    pub open spec fn wf(&self) -> bool {
        self.fields_by_name.wf()
    }

    /// The number of a field.
    pub fn number_of(&self, name: &str) -> (r: Option<u32>)
        requires
            self.wf(),
        ensures
            match r {
                Some(n) => self@.by_name.dom().contains(name@) && n == self@.by_name[name@],
                None => !self@.by_name.dom().contains(name@),
            },
    {
        match self.fields_by_name.get(name) {
            Some(n) => Some(*n),
            None => None,
        }
    }

    /// The field with a number.
    pub fn field(&self, number: u32) -> (r: Option<&FieldSchema>)
        ensures
            match r {
                Some(f) => self@.by_number.dom().contains(number) && f@ == self@.by_number[number],
                None => !self@.by_number.dom().contains(number),
            },
    {
        broadcast use vstd::std_specs::hash::group_hash_axioms;

        self.fields_by_number.get(&number)
    }
}

/// Messages by their full names.
pub open spec fn message_views(messages: Map<Seq<char>, MessageSchema>) -> Map<
    Seq<char>,
    MessageView,
> {
    messages.map_values(|m: MessageSchema| m@)
}

/// The tables of messages are in order.
pub open spec fn messages_wf(messages: TextMap<MessageSchema>) -> bool {
    &&& messages.wf()
    &&& forall|name: Seq<char>| #[trigger]
        messages@.dom().contains(name) ==> messages@[name].wf()
}

/// A name without the dots in front of it.
pub open spec fn normalized(name: Seq<char>) -> Seq<char>
    decreases name.len(),
{
    if name.len() > 0 && name[0] == '.' {
        normalized(name.skip(1))
    } else {
        name
    }
}

/// A name without the dots in front of it.
pub fn normalize_name(value: &str) -> (r: String)
    ensures
        r@ == normalized(value@),
{
    let chars = chars_of(value);
    let mut from: usize = 0;
    assert(value@.skip(0) == value@);
    while from < chars.len() && chars[from] == '.'
        invariant
            from <= chars@.len(),
            chars@ == value@,
            normalized(value@.skip(from as int)) == normalized(value@),
        decreases chars@.len() - from,
    {
        assert(value@.skip(from as int).skip(1) == value@.skip(from + 1));
        from += 1;
    }
    assert(value@.skip(from as int) == value@.subrange(from as int, chars@.len() as int));
    string_of(&chars, from, chars.len())
}

// ---------------------------------------------------------------------------
// Fields
// ---------------------------------------------------------------------------

/// The number of the kind of messages that stand inside another as groups.
pub const GROUP_KIND: i32 = 10;

/// The number by which a field's label says that it is repeated.
pub const REPEATED_LABEL: i32 = 3;

/// The kind of field with a number, its type by name; none for groups and for numbers
/// without a kind.
pub open spec fn kind_numbered(code: i32, type_ref: Seq<char>) -> Option<KindView> {
    match code {
        1 => Some(KindView::Scalar(Scalar::Double)),
        2 => Some(KindView::Scalar(Scalar::Float)),
        3 => Some(KindView::Scalar(Scalar::Int64)),
        4 => Some(KindView::Scalar(Scalar::UInt64)),
        5 => Some(KindView::Scalar(Scalar::Int32)),
        6 => Some(KindView::Scalar(Scalar::Fixed64)),
        7 => Some(KindView::Scalar(Scalar::Fixed32)),
        8 => Some(KindView::Scalar(Scalar::Bool)),
        9 => Some(KindView::Text),
        11 => Some(KindView::Message(normalized(type_ref))),
        12 => Some(KindView::Bytes),
        13 => Some(KindView::Scalar(Scalar::UInt32)),
        14 => Some(KindView::Scalar(Scalar::Enum)),
        15 => Some(KindView::Scalar(Scalar::SFixed32)),
        16 => Some(KindView::Scalar(Scalar::SFixed64)),
        17 => Some(KindView::Scalar(Scalar::SInt32)),
        18 => Some(KindView::Scalar(Scalar::SInt64)),
        _ => None,
    }
}

/// The kind of field with a number.
pub fn map_field_kind(code: i32, type_ref: &str) -> (r: Option<FieldKind>)
    ensures
        match r {
            Some(kind) => kind_numbered(code, type_ref@) == Some(kind@),
            None => kind_numbered(code, type_ref@) is None,
        },
{
    match code {
        1 => Some(FieldKind::Scalar(Scalar::Double)),
        2 => Some(FieldKind::Scalar(Scalar::Float)),
        3 => Some(FieldKind::Scalar(Scalar::Int64)),
        4 => Some(FieldKind::Scalar(Scalar::UInt64)),
        5 => Some(FieldKind::Scalar(Scalar::Int32)),
        6 => Some(FieldKind::Scalar(Scalar::Fixed64)),
        7 => Some(FieldKind::Scalar(Scalar::Fixed32)),
        8 => Some(FieldKind::Scalar(Scalar::Bool)),
        9 => Some(FieldKind::Text),
        11 => Some(FieldKind::Message(normalize_name(type_ref))),
        12 => Some(FieldKind::Bytes),
        13 => Some(FieldKind::Scalar(Scalar::UInt32)),
        14 => Some(FieldKind::Scalar(Scalar::Enum)),
        15 => Some(FieldKind::Scalar(Scalar::SFixed32)),
        16 => Some(FieldKind::Scalar(Scalar::SFixed64)),
        17 => Some(FieldKind::Scalar(Scalar::SInt32)),
        18 => Some(FieldKind::Scalar(Scalar::SInt64)),
        _ => None,
    }
}

/// An optional text, empty where there is none.
pub open spec fn or_empty(text: Option<Seq<char>>) -> Seq<char> {
    match text {
        Some(t) => t,
        None => Seq::empty(),
    }
}

fn text_or_empty(text: &Option<String>) -> (r: String)
    ensures
        r@ == or_empty(opt_view(*text)),
{
    match text {
        Some(t) => copy_str(t),
        None => String::new(),
    }
}

/// The field that a description gives: none where it has no name or no positive
/// number, and an error where its kind is not supported.
pub open spec fn field_described(message: Seq<char>, d: FieldText) -> Result<
    Option<FieldView>,
    Seq<char>,
> {
    let name = or_empty(d.name);
    if is_blank(name) || d.number is None || d.number->0 <= 0 {
        Ok(None)
    } else if d.kind == GROUP_KIND {
        Err("protobuf groups are not supported"@)
    } else {
        match kind_numbered(d.kind, d.type_ref) {
            None => Err("unsupported field type for "@ + message + "."@ + name),
            Some(kind) => Ok(
                Some(
                    FieldView {
                        name,
                        number: d.number->0 as u32,
                        repeated: d.label == Some(REPEATED_LABEL),
                        kind,
                    },
                ),
            ),
        }
    }
}

/// The field that a description gives.
pub fn describe_field(message: &str, d: &FieldDescriptor) -> (r: Result<
    Option<FieldSchema>,
    PulseError,
>)
    ensures
        match r {
            Ok(None) => field_described(message@, d@) == Ok::<_, Seq<char>>(None::<FieldView>),
            Ok(Some(f)) => field_described(message@, d@) == Ok::<_, Seq<char>>(Some(f@)),
            Err(e) => field_described(message@, d@) matches Err(m) && e.is_client(m),
        },
{
    let name = text_or_empty(&d.name);
    if blank(&name) {
        return Ok(None);
    }
    let number: i32 = match d.number {
        Some(n) => n,
        None => 0,
    };
    if number <= 0 {
        return Ok(None);
    }
    let repeated: bool = match d.label {
        Some(label) => label == REPEATED_LABEL,
        None => false,
    };
    if d.kind == GROUP_KIND {
        return Err(PulseError::Client(copy_str("protobuf groups are not supported")));
    }
    match map_field_kind(d.kind, &d.type_ref) {
        None => Err(
            PulseError::Client(concat4("unsupported field type for ", message, ".", &name)),
        ),
        Some(kind) => Ok(Some(FieldSchema { name, number: number as u32, repeated, kind })),
    }
}

/// The fields of a message with one more, which is known by its own name and by the
/// name that it has in JSON.
pub open spec fn with_field(m: MessageView, f: FieldView, json_name: Option<Seq<char>>) -> MessageView {
    let named = m.by_name.insert(f.name, f.number);
    MessageView {
        by_name: if json_name is Some && !is_blank(json_name->0) {
            named.insert(json_name->0, f.number)
        } else {
            named
        },
        by_number: m.by_number.insert(f.number, f),
    }
}

/// The fields of a message with those that descriptions give.
pub open spec fn with_fields(message: Seq<char>, m: MessageView, fields: Seq<FieldText>) -> Result<
    MessageView,
    Seq<char>,
>
    decreases fields.len(),
{
    if fields.len() == 0 {
        Ok(m)
    } else {
        match field_described(message, fields[0]) {
            Err(e) => Err(e),
            Ok(None) => with_fields(message, m, fields.skip(1)),
            Ok(Some(f)) => with_fields(
                message,
                with_field(m, f, fields[0].json_name),
                fields.skip(1),
            ),
        }
    }
}

/// A message without fields.
pub open spec fn no_fields() -> MessageView {
    MessageView { by_name: Map::empty(), by_number: Map::empty() }
}

/// The schema of a message with the fields of a description.
pub fn describe_fields(message: &str, fields: &Vec<FieldDescriptor>) -> (r: Result<
    MessageSchema,
    PulseError,
>)
    ensures
        match r {
            Ok(m) => m.wf() && with_fields(
                message@,
                no_fields(),
                fields@.map_values(|f: FieldDescriptor| f@),
            ) == Ok::<_, Seq<char>>(m@),
            Err(e) => with_fields(
                message@,
                no_fields(),
                fields@.map_values(|f: FieldDescriptor| f@),
            ) matches Err(m) && e.is_client(m),
        },
{
    broadcast use vstd::std_specs::hash::group_hash_axioms;

    let ghost texts = fields@.map_values(|f: FieldDescriptor| f@);
    let mut out = MessageSchema { fields_by_name: TextMap::new(), fields_by_number: HashMap::new() };
    assert(out@.by_name =~= no_fields().by_name);
    assert(out@.by_number =~= no_fields().by_number);
    assert(texts.skip(0) =~= texts);
    let mut i: usize = 0;
    while i < fields.len()
        invariant
            i <= fields@.len(),
            texts == fields@.map_values(|f: FieldDescriptor| f@),
            out.wf(),
            with_fields(message@, out@, texts.skip(i as int)) == with_fields(
                message@,
                no_fields(),
                texts,
            ),
        decreases fields@.len() - i,
    {
        broadcast use vstd::std_specs::hash::group_hash_axioms;

        let d: &FieldDescriptor = &fields[i];
        proof {
            assert(texts.skip(i as int)[0] == d@);
            assert(texts.skip(i as int).skip(1) =~= texts.skip(i + 1));
        }
        match describe_field(message, d)? {
            None => {},
            Some(f) => {
                let ghost before = out@;
                let ghost view = f@;
                let number: u32 = f.number;
                out.fields_by_name.insert(copy_str(&f.name), number);
                if let Some(json_name) = &d.json_name {
                    if !blank(json_name) {
                        out.fields_by_name.insert(copy_str(json_name), number);
                    }
                }
                out.fields_by_number.insert(number, f);
                proof {
                    let after = with_field(before, view, d@.json_name);
                    assert(out@.by_name =~= after.by_name);
                    assert(out@.by_number =~= after.by_number);
                }
            },
        }
        i += 1;
    }
    Ok(out)
}

// ---------------------------------------------------------------------------
// Messages
// ---------------------------------------------------------------------------

/// The full name of a message: inside its parent, else inside its package.
pub open spec fn full_message_name(
    package: Seq<char>,
    parent: Option<Seq<char>>,
    name: Seq<char>,
) -> Seq<char> {
    match parent {
        Some(p) => p + "."@ + name,
        None => if package.len() == 0 {
            name
        } else {
            package + "."@ + name
        },
    }
}

/// The messages known so far with those that descriptions give, each followed by those
/// inside it. One without a name is left out with all that is inside it; a name must
/// not occur twice.
pub open spec fn with_messages(
    package: Seq<char>,
    parent: Option<Seq<char>>,
    descriptors: Seq<MessageText>,
    known: Map<Seq<char>, MessageView>,
) -> Result<Map<Seq<char>, MessageView>, Seq<char>>
    decreases descriptors,
{
    if descriptors.len() == 0 {
        Ok(known)
    } else {
        let d = descriptors[0];
        if d.name is None || is_blank(d.name->0) {
            with_messages(package, parent, descriptors.skip(1), known)
        } else {
            let full_name = full_message_name(package, parent, d.name->0);
            match with_fields(full_name, no_fields(), d.fields) {
                Err(e) => Err(e),
                Ok(m) => if known.dom().contains(full_name) {
                    Err("duplicate message in descriptor set: "@ + full_name)
                } else {
                    match with_messages(
                        package,
                        Some(full_name),
                        d.nested,
                        known.insert(full_name, m),
                    ) {
                        Err(e) => Err(e),
                        Ok(inner) => with_messages(package, parent, descriptors.skip(1), inner),
                    }
                },
            }
        }
    }
}

fn full_name_of(package: &str, parent: Option<&str>, name: &str) -> (r: String)
    ensures
        r@ == full_message_name(
            package@,
            match parent {
                Some(p) => Some(p@),
                None => None,
            },
            name@,
        ),
{
    match parent {
        Some(p) => concat3(p, ".", name),
        None => if str_is_empty(package) {
            copy_str(name)
        } else {
            concat3(package, ".", name)
        },
    }
}

/// Adds the messages that descriptions give.
pub fn collect_messages(
    package: &str,
    parent: Option<&str>,
    descriptors: &Vec<MessageDescriptor>,
    out: &mut TextMap<MessageSchema>,
) -> (r: Result<(), PulseError>)
    requires
        messages_wf(*old(out)),
    ensures
        messages_wf(*final(out)),
        ({
            let above = match parent {
                Some(p) => Some(p@),
                None => None,
            };
            let texts = message_texts(descriptors@);
            match r {
                Ok(()) => with_messages(package@, above, texts, message_views(old(out)@))
                    == Ok::<_, Seq<char>>(message_views(final(out)@)),
                Err(e) => with_messages(package@, above, texts, message_views(old(out)@)) matches Err(
                    m,
                ) && e.is_client(m),
            }
        }),
    decreases descriptors,
{
    let ghost above = match parent {
        Some(p) => Some(p@),
        None => None,
    };
    let ghost start = message_views(out@);
    let ghost all = with_messages(package@, above, message_texts(descriptors@), start);
    assert(descriptors@.skip(0) =~= descriptors@);
    let mut i: usize = 0;
    while i < descriptors.len()
        invariant
            i <= descriptors@.len(),
            messages_wf(*out),
            above == (match parent {
                Some(p) => Some(p@),
                None => None,
            }),
            start == message_views(old(out)@),
            all == with_messages(package@, above, message_texts(descriptors@), start),
            all == with_messages(
                package@,
                above,
                message_texts(descriptors@.skip(i as int)),
                message_views(out@),
            ),
        decreases descriptors@.len() - i,
    {
        let d: &MessageDescriptor = &descriptors[i];
        let ghost rest = descriptors@.skip(i as int);
        let ghost texts = message_texts(rest);
        proof {
            assert(rest[0] == *d);
            assert(rest.skip(1) =~= descriptors@.skip(i + 1));
            assert(texts[0] == message_text(*d));
            assert(texts.skip(1) =~= message_texts(rest.skip(1)));
            assert(decreases_to!(descriptors => descriptors@));
            assert(decreases_to!(descriptors@ => descriptors@[i as int]));
        }
        i += 1;
        let name: &str = match &d.name {
            Some(name) => name.as_str(),
            None => {
                continue;
            },
        };
        if blank(name) {
            continue;
        }
        let full_name = full_name_of(package, parent, name);
        let schema = describe_fields(&full_name, &d.fields)?;
        let ghost known = message_views(out@);
        let taken: bool = match out.get(&full_name) {
            Some(_) => true,
            None => false,
        };
        assert(taken == known.dom().contains(full_name@));
        if taken {
            return Err(
                PulseError::Client(concat2("duplicate message in descriptor set: ", &full_name)),
            );
        }
        let ghost before = out@;
        let ghost view = schema@;
        out.insert(copy_str(&full_name), schema);
        assert(message_views(out@) =~= known.insert(full_name@, view));
        collect_messages(package, Some(full_name.as_str()), &d.nested, out)?;
    }
    assert(message_texts(descriptors@.skip(i as int)) =~= Seq::<MessageText>::empty());
    Ok(())
}

// ---------------------------------------------------------------------------
// Methods
// ---------------------------------------------------------------------------

/// A method of a service, and how it is called.
#[derive(Debug)]
pub struct MethodMeta {
    pub service: String,
    pub method: String,
    pub route_path: String,
    pub client_streaming: bool,
    pub server_streaming: bool,
    pub input_type: String,
    pub output_type: String,
}

/// What is known of a method.
pub struct MethodView {
    pub service: Seq<char>,
    pub method: Seq<char>,
    pub route_path: Seq<char>,
    pub client_streaming: bool,
    pub server_streaming: bool,
    pub input_type: Seq<char>,
    pub output_type: Seq<char>,
}

impl View for MethodMeta {
    type V = MethodView;

    open spec fn view(&self) -> MethodView {
        MethodView {
            service: self.service@,
            method: self.method@,
            route_path: self.route_path@,
            client_streaming: self.client_streaming,
            server_streaming: self.server_streaming,
            input_type: self.input_type@,
            output_type: self.output_type@,
        }
    }
}

/// What is known of methods.
pub open spec fn method_views(methods: Seq<MethodMeta>) -> Seq<MethodView> {
    methods.map_values(|m: MethodMeta| m@)
}

/// The first method of a service with a name.
pub open spec fn method_named(
    methods: Seq<MethodView>,
    service: Seq<char>,
    method: Seq<char>,
) -> Option<MethodView>
    decreases methods.len(),
{
    if methods.len() == 0 {
        None
    } else if methods[0].service == service && methods[0].method == method {
        Some(methods[0])
    } else {
        method_named(methods.skip(1), service, method)
    }
}

/// The method of a service with a name.
pub fn find_method<'a>(methods: &'a Vec<MethodMeta>, service: &str, method: &str) -> (r: Option<
    &'a MethodMeta,
>)
    ensures
        match r {
            Some(m) => method_named(method_views(methods@), service@, method@) == Some(m@),
            None => method_named(method_views(methods@), service@, method@) is None,
        },
{
    let ghost views = method_views(methods@);
    assert(views.skip(0) =~= views);
    let mut i: usize = 0;
    while i < methods.len()
        invariant
            i <= methods@.len(),
            views == method_views(methods@),
            method_named(views.skip(i as int), service@, method@) == method_named(
                views,
                service@,
                method@,
            ),
        decreases methods@.len() - i,
    {
        assert(views.skip(i as int)[0] == methods@[i as int]@);
        assert(views.skip(i as int).skip(1) =~= views.skip(i + 1));
        if str_eq(&methods[i].service, service) && str_eq(&methods[i].method, method) {
            return Some(&methods[i]);
        }
        i += 1;
    }
    None
}

/// The full name of a service: inside its package, where it has one.
pub open spec fn full_service_name(package: Seq<char>, name: Seq<char>) -> Seq<char> {
    full_message_name(package, None, name)
}

/// The methods known so far with those of a service: one without a name is left out,
/// its messages must be known, and it must not be there already.
pub open spec fn with_methods(
    service: Seq<char>,
    descriptors: Seq<MethodText>,
    messages: Set<Seq<char>>,
    known: Seq<MethodView>,
) -> Result<Seq<MethodView>, Seq<char>>
    decreases descriptors.len(),
{
    if descriptors.len() == 0 {
        Ok(known)
    } else {
        let d = descriptors[0];
        if d.name is None || is_blank(d.name->0) {
            with_methods(service, descriptors.skip(1), messages, known)
        } else {
            let name = d.name->0;
            let input = normalized(or_empty(d.input_type));
            let output = normalized(or_empty(d.output_type));
            let call = service + "/"@ + name;
            if !messages.contains(input) {
                Err("input type '"@ + input + "' for "@ + call + " not found in descriptor set"@)
            } else if !messages.contains(output) {
                Err("output type '"@ + output + "' for "@ + call + " not found in descriptor set"@)
            } else if method_named(known, service, name) is Some {
                Err("duplicate method in descriptor set: "@ + call)
            } else {
                let m = MethodView {
                    service,
                    method: name,
                    route_path: "/"@ + service + "/"@ + name,
                    client_streaming: d.client_streaming == Some(true),
                    server_streaming: d.server_streaming == Some(true),
                    input_type: input,
                    output_type: output,
                };
                with_methods(service, descriptors.skip(1), messages, known.push(m))
            }
        }
    }
}

fn is_set(flag: Option<bool>) -> (r: bool)
    ensures
        r == (flag == Some(true)),
{
    match flag {
        Some(b) => b,
        None => false,
    }
}

fn knows(messages: &TextMap<MessageSchema>, name: &str) -> (r: bool)
    requires
        messages.wf(),
    ensures
        r == message_views(messages@).dom().contains(name@),
{
    match messages.get(name) {
        Some(_) => true,
        None => false,
    }
}

/// Adds the methods of a service.
pub fn collect_methods(
    service: &str,
    descriptors: &Vec<MethodDescriptor>,
    messages: &TextMap<MessageSchema>,
    out: &mut Vec<MethodMeta>,
) -> (r: Result<(), PulseError>)
    requires
        messages.wf(),
    ensures
        ({
            let added = with_methods(
                service@,
                descriptors@.map_values(|m: MethodDescriptor| m@),
                message_views(messages@).dom(),
                method_views(old(out)@),
            );
            match r {
                Ok(()) => added == Ok::<_, Seq<char>>(method_views(final(out)@)),
                Err(e) => added matches Err(m) && e.is_client(m),
            }
        }),
{
    let ghost texts = descriptors@.map_values(|m: MethodDescriptor| m@);
    let ghost known = message_views(messages@).dom();
    let ghost all = with_methods(service@, texts, known, method_views(out@));
    assert(texts.skip(0) =~= texts);
    let mut i: usize = 0;
    while i < descriptors.len()
        invariant
            i <= descriptors@.len(),
            messages.wf(),
            texts == descriptors@.map_values(|m: MethodDescriptor| m@),
            known == message_views(messages@).dom(),
            all == with_methods(service@, texts, known, method_views(old(out)@)),
            all == with_methods(service@, texts.skip(i as int), known, method_views(out@)),
        decreases descriptors@.len() - i,
    {
        let d: &MethodDescriptor = &descriptors[i];
        proof {
            assert(texts.skip(i as int)[0] == d@);
            assert(texts.skip(i as int).skip(1) =~= texts.skip(i + 1));
        }
        i += 1;
        let name: &str = match &d.name {
            Some(name) => name.as_str(),
            None => {
                continue;
            },
        };
        if blank(name) {
            continue;
        }
        let input_type = normalize_name(&text_or_empty(&d.input_type));
        let output_type = normalize_name(&text_or_empty(&d.output_type));
        let call = concat3(service, "/", name);
        if !knows(messages, &input_type) {
            return Err(
                PulseError::Client(
                    concat5("input type '", &input_type, "' for ", &call, " not found in descriptor set"),
                ),
            );
        }
        if !knows(messages, &output_type) {
            return Err(
                PulseError::Client(
                    concat5(
                        "output type '",
                        &output_type,
                        "' for ",
                        &call,
                        " not found in descriptor set",
                    ),
                ),
            );
        }
        if find_method(out, service, name).is_some() {
            return Err(
                PulseError::Client(concat2("duplicate method in descriptor set: ", &call)),
            );
        }
        let ghost before = method_views(out@);
        out.push(
            MethodMeta {
                service: copy_str(service),
                method: copy_str(name),
                route_path: concat4("/", service, "/", name),
                client_streaming: is_set(d.client_streaming),
                server_streaming: is_set(d.server_streaming),
                input_type,
                output_type,
            },
        );
        assert(method_views(out@) =~= before.push(out@.last()@));
    }
    Ok(())
}

/// The methods known so far with those of services; a service without a name is left
/// out.
pub open spec fn with_services(
    package: Seq<char>,
    services: Seq<ServiceText>,
    messages: Set<Seq<char>>,
    known: Seq<MethodView>,
) -> Result<Seq<MethodView>, Seq<char>>
    decreases services.len(),
{
    if services.len() == 0 {
        Ok(known)
    } else {
        let s = services[0];
        if s.name is None || is_blank(s.name->0) {
            with_services(package, services.skip(1), messages, known)
        } else {
            match with_methods(
                full_service_name(package, s.name->0),
                s.methods,
                messages,
                known,
            ) {
                Err(e) => Err(e),
                Ok(more) => with_services(package, services.skip(1), messages, more),
            }
        }
    }
}

/// Adds the methods of services.
pub fn collect_services(
    package: &str,
    services: &Vec<ServiceDescriptor>,
    messages: &TextMap<MessageSchema>,
    out: &mut Vec<MethodMeta>,
) -> (r: Result<(), PulseError>)
    requires
        messages.wf(),
    ensures
        ({
            let added = with_services(
                package@,
                services@.map_values(|s: ServiceDescriptor| s@),
                message_views(messages@).dom(),
                method_views(old(out)@),
            );
            match r {
                Ok(()) => added == Ok::<_, Seq<char>>(method_views(final(out)@)),
                Err(e) => added matches Err(m) && e.is_client(m),
            }
        }),
{
    let ghost texts = services@.map_values(|s: ServiceDescriptor| s@);
    let ghost known = message_views(messages@).dom();
    let ghost all = with_services(package@, texts, known, method_views(out@));
    assert(texts.skip(0) =~= texts);
    let mut i: usize = 0;
    while i < services.len()
        invariant
            i <= services@.len(),
            messages.wf(),
            texts == services@.map_values(|s: ServiceDescriptor| s@),
            known == message_views(messages@).dom(),
            all == with_services(package@, texts, known, method_views(old(out)@)),
            all == with_services(package@, texts.skip(i as int), known, method_views(out@)),
        decreases services@.len() - i,
    {
        let s: &ServiceDescriptor = &services[i];
        proof {
            assert(texts.skip(i as int)[0] == s@);
            assert(texts.skip(i as int).skip(1) =~= texts.skip(i + 1));
        }
        i += 1;
        let name: &str = match &s.name {
            Some(name) => name.as_str(),
            None => {
                continue;
            },
        };
        if blank(name) {
            continue;
        }
        let full_name = full_name_of(package, None, name);
        collect_methods(&full_name, &s.methods, messages, out)?;
    }
    Ok(())
}

// ---------------------------------------------------------------------------
// Descriptor sets
// ---------------------------------------------------------------------------

/// What a set of files makes known.
pub struct SchemaView {
    pub methods: Seq<MethodView>,
    pub messages: Map<Seq<char>, MessageView>,
}

/// What is known with what files add, each its messages first and then its services.
pub open spec fn with_files(files: Seq<FileText>, known: SchemaView) -> Result<SchemaView, Seq<char>>
    decreases files.len(),
{
    if files.len() == 0 {
        Ok(known)
    } else {
        let package = or_empty(files[0].package);
        match with_messages(package, None, files[0].messages, known.messages) {
            Err(e) => Err(e),
            Ok(messages) => match with_services(
                package,
                files[0].services,
                messages.dom(),
                known.methods,
            ) {
                Err(e) => Err(e),
                Ok(methods) => with_files(files.skip(1), SchemaView { methods, messages }),
            },
        }
    }
}

/// What the files of a set make known: at least one method.
pub open spec fn schema_described(path: Seq<char>, files: Seq<FileText>) -> Result<
    SchemaView,
    Seq<char>,
> {
    match with_files(files, SchemaView { methods: Seq::empty(), messages: Map::empty() }) {
        Err(e) => Err(e),
        Ok(known) => if known.methods.len() == 0 {
            Err("descriptor set '"@ + path + "' does not contain any service methods"@)
        } else {
            Ok(known)
        },
    }
}

/// The methods and messages that a descriptor set makes known.
pub struct Schema {
    pub methods: Vec<MethodMeta>,
    pub messages: TextMap<MessageSchema>,
}

impl View for Schema {
    type V = SchemaView;

    open spec fn view(&self) -> SchemaView {
        SchemaView {
            methods: method_views(self.methods@),
            messages: message_views(self.messages@),
        }
    }
}

impl Schema {
    /// The tables are in order.
    pub open spec fn wf(&self) -> bool {
        messages_wf(self.messages)
    }
}

/// What the files of a set make known.
pub fn describe_schema(path: &str, files: &Vec<FileDescriptor>) -> (r: Result<Schema, PulseError>)
    ensures
        match r {
            Ok(schema) => schema.wf() && schema_described(path@, file_texts(files@)) == Ok::<
                _,
                Seq<char>,
            >(schema@),
            Err(e) => schema_described(path@, file_texts(files@)) matches Err(m) && e.is_client(m),
        },
{
    let ghost texts = file_texts(files@);
    let mut messages: TextMap<MessageSchema> = TextMap::new();
    let mut methods: Vec<MethodMeta> = Vec::new();
    let ghost none = SchemaView { methods: Seq::empty(), messages: Map::empty() };
    assert(texts.skip(0) =~= texts);
    assert(method_views(methods@) =~= none.methods);
    assert(message_views(messages@) =~= none.messages);
    let mut i: usize = 0;
    while i < files.len()
        invariant
            i <= files@.len(),
            texts == file_texts(files@),
            messages_wf(messages),
            with_files(texts, none) == with_files(
                texts.skip(i as int),
                (SchemaView {
                    methods: method_views(methods@),
                    messages: message_views(messages@),
                }),
            ),
            none == (SchemaView { methods: Seq::empty(), messages: Map::empty() }),
        decreases files@.len() - i,
    {
        let f: &FileDescriptor = &files[i];
        proof {
            assert(texts.skip(i as int)[0] == f@);
            assert(texts.skip(i as int).skip(1) =~= texts.skip(i + 1));
        }
        let package = text_or_empty(&f.package);
        collect_messages(&package, None, &f.messages, &mut messages)?;
        collect_services(&package, &f.services, &messages, &mut methods)?;
        i += 1;
    }
    if methods.len() == 0 {
        return Err(
            PulseError::Client(
                concat3("descriptor set '", path, "' does not contain any service methods"),
            ),
        );
    }
    Ok(Schema { methods, messages })
}

/// What bytes that were read from a path make known, or why they do not.
pub open spec fn schema_loaded(path: Seq<char>, read: Result<Seq<u8>, Seq<char>>) -> Result<
    SchemaView,
    Seq<char>,
> {
    match read {
        Err(e) => Err("failed to read descriptor set '"@ + path + "': "@ + e),
        Ok(bytes) => match described_files(bytes) {
            Err(e) => Err(
                "failed to decode descriptor set '"@ + path + "' as FileDescriptorSet: "@ + e,
            ),
            Ok(files) => schema_described(path, files),
        },
    }
}

/// What a descriptor set makes known, given what reading it from its path gave.
pub fn load_schema(path: &str, read: Result<Vec<u8>, String>) -> (r: Result<Schema, PulseError>)
    ensures
        ({
            let loaded = schema_loaded(
                path@,
                match read {
                    Ok(bytes) => Ok(bytes@),
                    Err(e) => Err(e@),
                },
            );
            match r {
                Ok(schema) => schema.wf() && loaded == Ok::<_, Seq<char>>(schema@),
                Err(e) => loaded matches Err(m) && e.is_client(m),
            }
        }),
{
    match read {
        Err(e) => Err(
            PulseError::Client(concat4("failed to read descriptor set '", path, "': ", &e)),
        ),
        Ok(bytes) => match decode_descriptor_set(&bytes) {
            Err(e) => Err(
                PulseError::Client(
                    concat4(
                        "failed to decode descriptor set '",
                        path,
                        "' as FileDescriptorSet: ",
                        &e,
                    ),
                ),
            ),
            Ok(files) => describe_schema(path, &files),
        },
    }
}

} // verus!
