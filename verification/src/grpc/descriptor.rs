//! Descriptions of services and messages, as a compiler of `.proto` files writes them.
use prost::Message;
use vstd::prelude::*;
#[allow(unused_imports)]
use crate::text::opt_view;

verus! {

/// A field of a message. Its kind is given by number, zero where it has none, and its
/// type by name, empty where it has none.
pub struct FieldDescriptor {
    pub name: Option<String>,
    pub number: Option<i32>,
    pub label: Option<i32>,
    pub kind: i32,
    pub type_ref: String,
    pub json_name: Option<String>,
}

/// What a field's description says.
pub struct FieldText {
    pub name: Option<Seq<char>>,
    pub number: Option<i32>,
    pub label: Option<i32>,
    pub kind: i32,
    pub type_ref: Seq<char>,
    pub json_name: Option<Seq<char>>,
}

impl View for FieldDescriptor {
    type V = FieldText;

    open spec fn view(&self) -> FieldText {
        FieldText {
            name: opt_view(self.name),
            number: self.number,
            label: self.label,
            kind: self.kind,
            type_ref: self.type_ref@,
            json_name: opt_view(self.json_name),
        }
    }
}

/// A message, with the messages that it declares inside itself.
pub struct MessageDescriptor {
    pub name: Option<String>,
    pub fields: Vec<FieldDescriptor>,
    pub nested: Vec<MessageDescriptor>,
}

/// What a message's description says.
pub struct MessageText {
    pub name: Option<Seq<char>>,
    pub fields: Seq<FieldText>,
    pub nested: Seq<MessageText>,
}

/// What the description of a message says.
pub open spec fn message_text(d: MessageDescriptor) -> MessageText
    decreases d,
{
    MessageText {
        name: opt_view(d.name),
        fields: d.fields@.map_values(|f: FieldDescriptor| f@),
        nested: message_texts(d.nested@),
    }
}

/// What the descriptions of messages say.
pub open spec fn message_texts(s: Seq<MessageDescriptor>) -> Seq<MessageText>
    decreases s,
{
    if s.len() == 0 {
        Seq::empty()
    } else {
        seq![message_text(s[0])] + message_texts(s.skip(1))
    }
}

/// A method of a service.
pub struct MethodDescriptor {
    pub name: Option<String>,
    pub input_type: Option<String>,
    pub output_type: Option<String>,
    pub client_streaming: Option<bool>,
    pub server_streaming: Option<bool>,
}

/// What a method's description says.
pub struct MethodText {
    pub name: Option<Seq<char>>,
    pub input_type: Option<Seq<char>>,
    pub output_type: Option<Seq<char>>,
    pub client_streaming: Option<bool>,
    pub server_streaming: Option<bool>,
}

impl View for MethodDescriptor {
    type V = MethodText;

    open spec fn view(&self) -> MethodText {
        MethodText {
            name: opt_view(self.name),
            input_type: opt_view(self.input_type),
            output_type: opt_view(self.output_type),
            client_streaming: self.client_streaming,
            server_streaming: self.server_streaming,
        }
    }
}

/// A service.
pub struct ServiceDescriptor {
    pub name: Option<String>,
    pub methods: Vec<MethodDescriptor>,
}

/// What a service's description says.
pub struct ServiceText {
    pub name: Option<Seq<char>>,
    pub methods: Seq<MethodText>,
}

impl View for ServiceDescriptor {
    type V = ServiceText;

    open spec fn view(&self) -> ServiceText {
        ServiceText {
            name: opt_view(self.name),
            methods: self.methods@.map_values(|m: MethodDescriptor| m@),
        }
    }
}

/// A `.proto` file.
pub struct FileDescriptor {
    pub package: Option<String>,
    pub messages: Vec<MessageDescriptor>,
    pub services: Vec<ServiceDescriptor>,
}

/// What a file's description says.
pub struct FileText {
    pub package: Option<Seq<char>>,
    pub messages: Seq<MessageText>,
    pub services: Seq<ServiceText>,
}

impl View for FileDescriptor {
    type V = FileText;

    open spec fn view(&self) -> FileText {
        FileText {
            package: opt_view(self.package),
            messages: message_texts(self.messages@),
            services: self.services@.map_values(|s: ServiceDescriptor| s@),
        }
    }
}

/// What the descriptions of files say.
pub open spec fn file_texts(s: Seq<FileDescriptor>) -> Seq<FileText> {
    s.map_values(|f: FileDescriptor| f@)
}

/// The files that `prost` reads from the bytes of a `FileDescriptorSet`, or its error
/// in words.
pub uninterp spec fn described_files(bytes: Seq<u8>) -> Result<Seq<FileText>, Seq<char>>;

/// A field as `prost_types` holds it.
#[verifier::external_type_specification]
#[verifier::external_body]
pub struct ExFieldDescriptorProto(prost_types::FieldDescriptorProto);

/// A message as `prost_types` holds it.
#[verifier::external_type_specification]
#[verifier::external_body]
pub struct ExDescriptorProto(prost_types::DescriptorProto);

/// Moves what `prost_types` holds of a field. The kind and the name of the type are
/// taken from the field's own bytes, which hold them under the tags of
/// `prost_types::Enum::syntax` and `prost_types::Field::type_url`; the members whose
/// tags these two use otherwise are taken out first. Nothing is claimed of the result.
#[verifier::external_body]
fn field_of(mut f: prost_types::FieldDescriptorProto) -> (field: FieldDescriptor) {
    let (name, json_name) = (f.name.take(), f.json_name.take());
    let (number, label) = (f.number.take(), f.label.take());
    (f.extendee, f.default_value, f.oneof_index, f.options) = (None, None, None, None);
    let rest = f.encode_to_vec();
    let kind = prost_types::Enum::decode(rest.as_slice()).unwrap_or_default().syntax;
    let type_ref = prost_types::Field::decode(rest.as_slice()).unwrap_or_default().type_url;
    FieldDescriptor { name, number, label, kind, type_ref, json_name }
}

/// Moves what `prost_types` holds of a message. Nothing is claimed of the result.
#[verifier::external_body]
fn message_of(m: prost_types::DescriptorProto) -> (message: MessageDescriptor) {
    MessageDescriptor {
        name: m.name,
        fields: m.field.into_iter().map(field_of).collect(),
        nested: m.nested_type.into_iter().map(message_of).collect(),
    }
}

/// `prost::Message::decode` of a `prost_types::FileDescriptorSet`: the files that
/// bytes describe, or why they describe none. What the files hold is moved one for
/// one.
#[verifier::external_body]
pub(crate) fn decode_descriptor_set(bytes: &[u8]) -> (r: Result<Vec<FileDescriptor>, String>)
    ensures
        match r {
            Ok(files) => described_files(bytes@) == Ok::<Seq<FileText>, Seq<char>>(
                file_texts(files@),
            ),
            Err(m) => described_files(bytes@) == Err::<Seq<FileText>, Seq<char>>(m@),
        },
{
    let method = |m: prost_types::MethodDescriptorProto| MethodDescriptor {
        name: m.name, input_type: m.input_type, output_type: m.output_type,
        client_streaming: m.client_streaming, server_streaming: m.server_streaming,
    };
    let service = |s: prost_types::ServiceDescriptorProto| ServiceDescriptor {
        name: s.name, methods: s.method.into_iter().map(method).collect(),
    };
    let file = |f: prost_types::FileDescriptorProto| FileDescriptor {
        package: f.package, messages: f.message_type.into_iter().map(message_of).collect(),
        services: f.service.into_iter().map(service).collect(),
    };
    let set = prost_types::FileDescriptorSet::decode(bytes).map_err(|e| e.to_string())?;
    Ok(set.file.into_iter().map(file).collect())
}

} // verus!
