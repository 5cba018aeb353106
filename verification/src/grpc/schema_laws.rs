//! What holds of every schema that is loaded.
use vstd::prelude::*;
#[allow(unused_imports)]
use super::descriptor::{FieldText, FileText, MessageText, MethodText, ServiceText};
#[allow(unused_imports)]
use super::schema::{
    field_described, full_message_name, full_service_name, method_named, no_fields, normalized,
    or_empty, schema_described, schema_loaded, with_field, with_fields, with_files, with_messages,
    with_methods, with_services, FieldView, MessageView, MethodView, SchemaView,
};
#[allow(unused_imports)]
use crate::text::is_blank;

verus! {

/// Every field stands under its own number, which is not zero, and every name leads to
/// a field.
pub open spec fn consistent(m: MessageView) -> bool {
    &&& forall|n: u32| #[trigger]
        m.by_number.dom().contains(n) ==> n > 0 && m.by_number[n].number == n
    &&& forall|name: Seq<char>| #[trigger]
        m.by_name.dom().contains(name) ==> m.by_number.dom().contains(m.by_name[name])
}

/// All messages are consistent.
pub open spec fn all_consistent(messages: Map<Seq<char>, MessageView>) -> bool {
    forall|name: Seq<char>| #[trigger]
        messages.dom().contains(name) ==> consistent(messages[name])
}

/// The messages of every method are known.
pub open spec fn messages_known(methods: Seq<MethodView>, messages: Set<Seq<char>>) -> bool {
    forall|i: int|
        0 <= i < methods.len() ==> messages.contains((#[trigger] methods[i]).input_type)
            && messages.contains(methods[i].output_type)
}

/// Every method is the one that its service and its name lead to, and its path is made
/// of these two.
pub open spec fn methods_found(methods: Seq<MethodView>) -> bool {
    forall|i: int|
        0 <= i < methods.len() ==> method_named(
            methods,
            (#[trigger] methods[i]).service,
            methods[i].method,
        ) == Some(methods[i]) && methods[i].route_path == "/"@ + methods[i].service + "/"@
            + methods[i].method
}

proof fn lemma_fields_consistent(message: Seq<char>, m: MessageView, fields: Seq<FieldText>)
    requires
        consistent(m),
    ensures
        with_fields(message, m, fields) matches Ok(r) ==> consistent(r),
    decreases fields.len(),
{
    if fields.len() > 0 {
        match field_described(message, fields[0]) {
            Err(_) => {},
            Ok(None) => lemma_fields_consistent(message, m, fields.skip(1)),
            Ok(Some(f)) => {
                let next = with_field(m, f, fields[0].json_name);
                assert(f.number > 0);
                assert(consistent(next));
                lemma_fields_consistent(message, next, fields.skip(1));
            },
        }
    }
}

proof fn lemma_messages_consistent(
    package: Seq<char>,
    parent: Option<Seq<char>>,
    descriptors: Seq<MessageText>,
    known: Map<Seq<char>, MessageView>,
)
    requires
        all_consistent(known),
    ensures
        with_messages(package, parent, descriptors, known) matches Ok(r) ==> all_consistent(r)
            && known.dom().subset_of(r.dom()),
    decreases descriptors,
{
    if descriptors.len() > 0 {
        let d = descriptors[0];
        if d.name is None || is_blank(d.name->0) {
            lemma_messages_consistent(package, parent, descriptors.skip(1), known);
        } else {
            let full_name = full_message_name(package, parent, d.name->0);
            lemma_fields_consistent(full_name, no_fields(), d.fields);
            match with_fields(full_name, no_fields(), d.fields) {
                Err(_) => {},
                Ok(m) => {
                    let more = known.insert(full_name, m);
                    lemma_messages_consistent(package, Some(full_name), d.nested, more);
                    match with_messages(package, Some(full_name), d.nested, more) {
                        Err(_) => {},
                        Ok(inner) => {
                            lemma_messages_consistent(package, parent, descriptors.skip(1), inner);
                        },
                    }
                },
            }
        }
    }
}

proof fn lemma_method_pushed(methods: Seq<MethodView>, m: MethodView, service: Seq<char>, name: Seq<char>)
    ensures
        method_named(methods, service, name) is Some ==> method_named(
            methods.push(m),
            service,
            name,
        ) == method_named(methods, service, name),
        method_named(methods, service, name) is None && m.service == service && m.method == name
            ==> method_named(methods.push(m), service, name) == Some(m),
    decreases methods.len(),
{
    if methods.len() > 0 {
        lemma_method_pushed(methods.skip(1), m, service, name);
        assert(methods.push(m).skip(1) =~= methods.skip(1).push(m));
        assert(methods.push(m)[0] == methods[0]);
    } else {
        assert(methods.push(m)[0] == m);
    }
}

proof fn lemma_methods_kept(
    service: Seq<char>,
    descriptors: Seq<MethodText>,
    messages: Set<Seq<char>>,
    known: Seq<MethodView>,
)
    requires
        messages_known(known, messages),
        methods_found(known),
    ensures
        with_methods(service, descriptors, messages, known) matches Ok(r) ==> messages_known(
            r,
            messages,
        ) && methods_found(r),
    decreases descriptors.len(),
{
    if descriptors.len() > 0 {
        let d = descriptors[0];
        if d.name is None || is_blank(d.name->0) {
            lemma_methods_kept(service, descriptors.skip(1), messages, known);
        } else {
            let input = normalized(or_empty(d.input_type));
            let output = normalized(or_empty(d.output_type));
            if messages.contains(input) && messages.contains(output) && method_named(
                known,
                service,
                d.name->0,
            ) is None {
                let m = MethodView {
                    service,
                    method: d.name->0,
                    route_path: "/"@ + service + "/"@ + d.name->0,
                    client_streaming: d.client_streaming == Some(true),
                    server_streaming: d.server_streaming == Some(true),
                    input_type: input,
                    output_type: output,
                };
                let more = known.push(m);
                assert forall|i: int| 0 <= i < more.len() implies method_named(
                    more,
                    (#[trigger] more[i]).service,
                    more[i].method,
                ) == Some(more[i]) && more[i].route_path == "/"@ + more[i].service + "/"@
                    + more[i].method by {
                    lemma_method_pushed(known, m, more[i].service, more[i].method);
                    if i < known.len() {
                        assert(more[i] == known[i]);
                    }
                }
                assert(messages_known(more, messages)) by {
                    assert forall|i: int| 0 <= i < more.len() implies messages.contains(
                        (#[trigger] more[i]).input_type,
                    ) && messages.contains(more[i].output_type) by {
                        if i < known.len() {
                            assert(more[i] == known[i]);
                        }
                    }
                }
                lemma_methods_kept(service, descriptors.skip(1), messages, more);
            }
        }
    }
}

proof fn lemma_services_kept(
    package: Seq<char>,
    services: Seq<ServiceText>,
    messages: Set<Seq<char>>,
    known: Seq<MethodView>,
)
    requires
        messages_known(known, messages),
        methods_found(known),
    ensures
        with_services(package, services, messages, known) matches Ok(r) ==> messages_known(
            r,
            messages,
        ) && methods_found(r),
    decreases services.len(),
{
    if services.len() > 0 {
        let s = services[0];
        if s.name is None || is_blank(s.name->0) {
            lemma_services_kept(package, services.skip(1), messages, known);
        } else {
            let full_name = full_service_name(package, s.name->0);
            lemma_methods_kept(full_name, s.methods, messages, known);
            match with_methods(full_name, s.methods, messages, known) {
                Err(_) => {},
                Ok(more) => lemma_services_kept(package, services.skip(1), messages, more),
            }
        }
    }
}

proof fn lemma_files_kept(files: Seq<FileText>, known: SchemaView)
    requires
        all_consistent(known.messages),
        messages_known(known.methods, known.messages.dom()),
        methods_found(known.methods),
    ensures
        with_files(files, known) matches Ok(r) ==> all_consistent(r.messages) && messages_known(
            r.methods,
            r.messages.dom(),
        ) && methods_found(r.methods),
    decreases files.len(),
{
    if files.len() > 0 {
        let package = or_empty(files[0].package);
        lemma_messages_consistent(package, None, files[0].messages, known.messages);
        match with_messages(package, None, files[0].messages, known.messages) {
            Err(_) => {},
            Ok(messages) => {
                lemma_services_kept(package, files[0].services, messages.dom(), known.methods);
                match with_services(package, files[0].services, messages.dom(), known.methods) {
                    Err(_) => {},
                    Ok(methods) => lemma_files_kept(
                        files.skip(1),
                        SchemaView { methods, messages },
                    ),
                }
            },
        }
    }
}

/// In a schema that was loaded there is a method; the messages of every method are
/// known; every method is found by its service and its name; and in every message the
/// names lead to fields, which stand under their own numbers.
pub proof fn lemma_loaded_schema_is_usable(path: Seq<char>, read: Result<Seq<u8>, Seq<char>>)
    ensures
        schema_loaded(path, read) matches Ok(schema) ==> {
            &&& schema.methods.len() > 0
            &&& messages_known(schema.methods, schema.messages.dom())
            &&& methods_found(schema.methods)
            &&& all_consistent(schema.messages)
        },
{
    if schema_loaded(path, read) is Ok {
        let files = super::descriptor::described_files(read->Ok_0)->Ok_0;
        lemma_files_kept(
            files,
            SchemaView { methods: Seq::empty(), messages: Map::empty() },
        );
    }
}

} // verus!
