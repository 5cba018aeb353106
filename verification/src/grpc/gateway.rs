//! Calls of methods that are known by their descriptors.
use vstd::prelude::*;
use super::decode::{decode_message, ResponseValue};
#[allow(unused_imports)]
use super::decode::{holdable, message_at, response_view};
use super::encode::encode_message;
#[allow(unused_imports)]
use super::encode::message_bytes;
use super::schema::{find_method, load_schema, normalize_name, MethodMeta, Schema};
#[allow(unused_imports)]
use super::schema::{method_named, normalized, schema_loaded, MethodView, SchemaView};
use super::value::JsonValue;
use super::wire::PulseError;
use crate::text::{concat2, concat4, concat5, copy_str};
#[allow(unused_imports)]
use crate::text::opt_view;

verus! {

/// How `http`'s `PathAndQuery` says that a text is not a path, where it is none.
pub uninterp spec fn route_error(path: Seq<char>) -> Option<Seq<char>>;

/// `http::uri::PathAndQuery::from_str`: why a text is not the path of a call, or
/// nothing where it is one.
#[verifier::external_body]
fn check_route(path: &str) -> (r: Option<String>)
    ensures
        opt_view(r) == route_error(path@),
{
    match path.parse::<tonic::codegen::http::uri::PathAndQuery>() {
        Ok(_) => None,
        Err(error) => Some(error.to_string()),
    }
}

/// A gateway to the services of a descriptor set.
pub struct DescriptorBackedGrpcGateway {
    pub schema: Schema,
}

/// The method that a service and a name lead to.
pub open spec fn method_found(schema: SchemaView, service: Seq<char>, method: Seq<char>) -> Result<
    MethodView,
    Seq<char>,
> {
    match method_named(schema.methods, normalized(service), method) {
        Some(m) => Ok(m),
        None => Err(
            "method not found in descriptor set: "@ + normalized(service) + "/"@ + method,
        ),
    }
}

/// The path by which a method is called: one that streams cannot be.
pub open spec fn route_found(schema: SchemaView, service: Seq<char>, method: Seq<char>) -> Result<
    Seq<char>,
    Seq<char>,
> {
    match method_found(schema, service, method) {
        Err(e) => Err(e),
        Ok(m) => if m.client_streaming || m.server_streaming {
            Err(
                "method "@ + service + "/"@ + method + " is streaming; only unary is supported"@,
            )
        } else {
            route_checked(m.route_path, route_error(m.route_path))
        },
    }
}

/// A path, given what is wrong with it.
pub open spec fn route_checked(path: Seq<char>, problem: Option<Seq<char>>) -> Result<
    Seq<char>,
    Seq<char>,
> {
    match problem {
        None => Ok(path),
        Some(e) => Err("invalid grpc route path: "@ + e),
    }
}

/// A path, given what is wrong with it.
pub fn checked_route(path: &str, problem: Option<String>) -> (r: Result<String, PulseError>)
    ensures
        match r {
            Ok(route) => route_checked(path@, opt_view(problem)) == Ok::<_, Seq<char>>(route@),
            Err(e) => route_checked(path@, opt_view(problem)) matches Err(m) && e.is_client(m),
        },
{
    match problem {
        None => Ok(copy_str(path)),
        Some(e) => Err(PulseError::Client(concat2("invalid grpc route path: ", &e))),
    }
}

impl DescriptorBackedGrpcGateway {
    /// The tables are in order.
    pub open spec fn wf(&self) -> bool {
        self.schema.wf()
    }

    /// A gateway to the services of a descriptor set, given what reading it from its
    /// path gave.
    pub fn from_descriptor_set(path: &str, read: Result<Vec<u8>, String>) -> (r: Result<
        Self,
        PulseError,
    >)
        ensures
            ({
                let loaded = schema_loaded(
                    path@,
                    match read {
                        Ok(bytes) => Ok(bytes@),
                        Err(e) => Err(e@),
                    },
                );
                match r {
                    Ok(gateway) => gateway.wf() && loaded == Ok::<_, Seq<char>>(gateway.schema@),
                    Err(e) => loaded matches Err(m) && e.is_client(m),
                }
            }),
    {
        let schema = load_schema(path, read)?;
        Ok(DescriptorBackedGrpcGateway { schema })
    }

    /// The method that a service and a name lead to.
    pub fn method_meta(&self, service: &str, method: &str) -> (r: Result<&MethodMeta, PulseError>)
        ensures
            match r {
                Ok(m) => method_found(self.schema@, service@, method@) == Ok::<_, Seq<char>>(m@),
                Err(e) => method_found(self.schema@, service@, method@) matches Err(m)
                    && e.is_client(m),
            },
    {
        let service = normalize_name(service);
        match find_method(&self.schema.methods, &service, method) {
            Some(meta) => Ok(meta),
            None => Err(
                PulseError::Client(
                    concat4("method not found in descriptor set: ", &service, "/", method),
                ),
            ),
        }
    }

    /// The path by which a method is called.
    pub fn unary_route(&self, service: &str, method: &str) -> (r: Result<String, PulseError>)
        ensures
            match r {
                Ok(route) => route_found(self.schema@, service@, method@) == Ok::<_, Seq<char>>(
                    route@,
                ),
                Err(e) => route_found(self.schema@, service@, method@) matches Err(m)
                    && e.is_client(m),
            },
    {
        let meta = self.method_meta(service, method)?;
        if meta.client_streaming || meta.server_streaming {
            return Err(
                PulseError::Client(
                    concat5(
                        "method ",
                        service,
                        "/",
                        method,
                        " is streaming; only unary is supported",
                    ),
                ),
            );
        }
        let problem = check_route(&meta.route_path);
        checked_route(&meta.route_path, problem)
    }

    /// The bytes of a request.
    pub fn encode_request_fields(&self, service: &str, method: &str, fields: &JsonValue) -> (r:
        Result<Vec<u8>, PulseError>)
        requires
            self.wf(),
        ensures
            match r {
                Ok(bytes) => method_found(self.schema@, service@, method@) matches Ok(m)
                    && message_bytes(m.input_type, *fields, self.schema@.messages) == Ok::<
                    _,
                    Seq<char>,
                >(bytes@),
                Err(e) => match method_found(self.schema@, service@, method@) {
                    Err(m) => e.is_client(m),
                    Ok(m) => message_bytes(
                        m.input_type,
                        *fields,
                        self.schema@.messages,
                    ) matches Err(text) && e.is_client(text),
                },
            },
    {
        let meta = self.method_meta(service, method)?;
        encode_message(&meta.input_type, fields, &self.schema.messages)
    }

    /// The values of a response.
    pub fn decode_response_fields(&self, service: &str, method: &str, payload: &[u8]) -> (r: Result<
        ResponseValue,
        PulseError,
    >)
        requires
            self.wf(),
            holdable(payload@),
        ensures
            match r {
                Ok(v) => method_found(self.schema@, service@, method@) matches Ok(m) && message_at(
                    m.output_type,
                    payload@,
                    self.schema@.messages,
                ) == Ok::<_, Seq<char>>(response_view(v)),
                Err(e) => match method_found(self.schema@, service@, method@) {
                    Err(m) => e.is_client(m),
                    Ok(m) => message_at(
                        m.output_type,
                        payload@,
                        self.schema@.messages,
                    ) matches Err(text) && e.is_client(text),
                },
            },
    {
        let meta = self.method_meta(service, method)?;
        decode_message(&meta.output_type, payload, &self.schema.messages)
    }
}

/// That a service did not become ready for a call.
pub fn unary_not_ready(service: &str, method: &str, error: &str) -> (e: PulseError)
    ensures
        e.is_client(
            "dynamic grpc client not ready for "@ + service@ + "/"@ + method@ + (": "@ + error@),
        ),
{
    let head = concat4("dynamic grpc client not ready for ", service, "/", method);
    PulseError::Client(concat2(&head, &concat2(": ", error)))
}

/// That a service answered a call with a status.
pub fn unary_failed(service: &str, method: &str, code: &str, status: &str) -> (e: PulseError)
    ensures
        e matches PulseError::GrpcStatus { code: c, message } && c@ == code@ && message@
            == "dynamic grpc call "@ + service@ + "/"@ + method@ + (" failed: "@ + status@),
{
    let head = concat4("dynamic grpc call ", service, "/", method);
    PulseError::GrpcStatus {
        code: copy_str(code),
        message: concat2(&head, &concat2(" failed: ", status)),
    }
}

} // verus!
