//! The dispatcher: from a request to its response.
//!
//! A dispatcher binds an implementation of the service to a serialization
//! format. It looks the method up, decodes the arguments into the method's
//! parameters, runs the handler and encodes what the handler returns. Every
//! failure on the way is data: the response carries its kind, under the
//! correlation id of the request.

use vstd::prelude::*;
use crate::binary;
use crate::call::{lookup, method_name, method_named, Call, CallModel, Method, Reply, ReplyModel};
use crate::error::{ErrorKind, HandlerError};
use crate::json;
use crate::message::{Request, RequestModel, Response, ResponseModel};
use crate::service::Service;

verus! {

/// How arguments and return values are serialized.
#[derive(Clone, Copy, Debug, PartialEq, Eq, Structural)]
pub enum Format {
    /// The tagged binary encoding of this crate.
    Binary,
    /// JSON text.
    Json,
}

/// The call of `method` that `payload` holds in `format`, if it holds one.
pub open spec fn decoded_call(format: Format, method: Method, payload: Seq<u8>) -> Option<
    CallModel,
> {
    match format {
        Format::Binary => binary::parse_call(method, payload),
        Format::Json => json::parse_call(method, payload),
    }
}

/// The serialization of a return value in `format`.
pub open spec fn encoded_reply(format: Format, reply: ReplyModel) -> Seq<u8> {
    match format {
        Format::Binary => binary::reply_bytes(reply),
        Format::Json => json::reply_text(reply),
    }
}

/// The return value of `method` that `payload` holds in `format`, if it
/// holds one.
pub open spec fn decoded_reply(format: Format, method: Method, payload: Seq<u8>) -> Option<
    ReplyModel,
> {
    match format {
        Format::Binary => binary::parse_reply(method, payload),
        Format::Json => json::read_reply(method, payload),
    }
}

/// What the handlers of `service` return for a call.
pub open spec fn handled<S: Service>(service: &S, call: CallModel) -> Result<
    ReplyModel,
    HandlerError,
> {
    match call {
        CallModel::Hello { name } => match service.hello_spec(name) {
            Ok(s) => Ok(ReplyModel::Text(s)),
            Err(e) => Err(e),
        },
        CallModel::Add { x, y } => match service.add_spec(x, y) {
            Ok(sum) => Ok(ReplyModel::Int(sum)),
            Err(e) => Err(e),
        },
    }
}

/// The response to a request: the outcome of the first step that fails, or
/// the serialized return value.
pub open spec fn answer<S: Service>(
    service: &S,
    format: Format,
    request: RequestModel,
) -> ResponseModel {
    ResponseModel {
        id: request.id,
        outcome: match method_named(request.method) {
            None => Err(ErrorKind::UnknownMethod),
            Some(method) => match decoded_call(format, method, request.payload) {
                None => Err(ErrorKind::ArgumentDecode),
                Some(call) => match handled(service, call) {
                    Err(_) => Err(ErrorKind::Handler),
                    Ok(reply) => Ok(encoded_reply(format, reply)),
                },
            },
        },
    }
}

/// Decodes the arguments of a call of `method` from `payload`.
pub fn decode_call(format: Format, method: Method, payload: &[u8]) -> (r: Option<Call>)
    ensures
        match r {
            Some(call) => decoded_call(format, method, payload@) == Some(call@) && call@.method()
                == method,
            None => decoded_call(format, method, payload@) is None,
        },
{
    let decoded = match format {
        Format::Binary => binary::decode_call(method, payload),
        Format::Json => json::decode_call(method, payload),
    };
    match decoded {
        Ok(call) => Some(call),
        Err(_) => None,
    }
}

/// Serializes a return value. What is written decodes to the value.
pub fn encode_reply(format: Format, reply: &Reply) -> (bytes: Vec<u8>)
    ensures
        bytes@ == encoded_reply(format, reply@),
        forall|method: Method|
            reply@.answers(method) ==> decoded_reply(format, method, bytes@) == Some(reply@),
{
    match format {
        Format::Binary => {
            let bytes = binary::encode_reply(reply);
            assert forall|method: Method| reply@.answers(method) implies binary::parse_reply(
                method,
                bytes@,
            ) == Some(reply@) by {
                binary::lemma_parse_reply_of_bytes(method, reply@);
            }
            bytes
        },
        Format::Json => json::encode_reply(reply),
    }
}

/// Decodes a return value of `method` from `payload`.
pub fn decode_reply(format: Format, method: Method, payload: &[u8]) -> (r: Option<Reply>)
    ensures
        match r {
            Some(reply) => decoded_reply(format, method, payload@) == Some(reply@),
            None => decoded_reply(format, method, payload@) is None,
        },
{
    let decoded = match format {
        Format::Binary => binary::decode_reply(method, payload),
        Format::Json => json::decode_reply(method, payload),
    };
    match decoded {
        Ok(reply) => Some(reply),
        Err(_) => None,
    }
}

/// Runs the handler that a call asks for.
pub fn invoke<S: Service>(service: &S, call: &Call) -> (r: Result<Reply, HandlerError>)
    ensures
        match r {
            Ok(reply) => handled(service, call@) == Ok::<ReplyModel, HandlerError>(reply@),
            Err(e) => handled(service, call@) == Err::<ReplyModel, HandlerError>(e),
        },
{
    match call {
        Call::Hello { name } => match service.hello(name.as_str()) {
            Ok(s) => Ok(Reply::Text(s)),
            Err(e) => Err(e),
        },
        Call::Add { x, y } => match service.add(*x, *y) {
            Ok(sum) => Ok(Reply::Int(sum)),
            Err(e) => Err(e),
        },
    }
}

/// An implementation of the service bound to a serialization format.
pub struct Dispatcher<S: Service> {
    pub service: S,
    pub format: Format,
}

impl<S: Service> Dispatcher<S> {
    /// Binds `service` to `format`.
    pub fn new(service: S, format: Format) -> (d: Self)
        ensures
            d.service == service,
            d.format == format,
    {
        Dispatcher { service, format }
    }

    /// Answers a request.
    ///
    /// The response carries the correlation id of the request. A method
    /// that the service does not define gives `UnknownMethod`; arguments
    /// that do not decode give `ArgumentDecode`; a handler that fails gives
    /// `Handler`; a handler that returns a value gives that value,
    /// serialized.
    ///
    /// The payload of a response that carries a value decodes, as a return
    /// value of the method that was asked for, to what the handler
    /// returned.
    pub fn dispatch(&self, request: &Request) -> (response: Response)
        ensures
            response@ == answer(&self.service, self.format, request@),
            response@.outcome matches Ok(payload) ==> {
                &&& method_named(request@.method) matches Some(method)
                &&& decoded_call(self.format, method, request@.payload) matches Some(call)
                &&& handled(&self.service, call) matches Ok(reply)
                &&& decoded_reply(self.format, method, payload) == Some(reply)
            },
    {
        let method = match lookup(request.method.as_str()) {
            Some(method) => method,
            None => {
                return Response::failure(request.id, ErrorKind::UnknownMethod);
            },
        };
        let call = match decode_call(self.format, method, request.payload.as_slice()) {
            Some(call) => call,
            None => {
                return Response::failure(request.id, ErrorKind::ArgumentDecode);
            },
        };
        let reply = match invoke(&self.service, &call) {
            Ok(reply) => reply,
            Err(_) => {
                return Response::failure(request.id, ErrorKind::Handler);
            },
        };
        assert(reply@.answers(method));
        Response::success(request.id, encode_reply(self.format, &reply))
    }
}

/// The request that asks for `call` under `id` in the binary format.
pub open spec fn binary_request(id: u64, call: CallModel) -> RequestModel {
    RequestModel { id, method: method_name(call.method()), payload: binary::call_bytes(call) }
}

/// A request for a method that the service defines, with arguments that
/// decode, is answered under its own correlation id: with the serialized
/// return value of the handler where the handler returns one, and with
/// `Handler` where the handler fails.
pub proof fn law_defined_call_is_answered<S: Service>(
    service: &S,
    format: Format,
    request: RequestModel,
    method: Method,
    call: CallModel,
)
    requires
        method_named(request.method) == Some(method),
        decoded_call(format, method, request.payload) == Some(call),
    ensures
        answer(service, format, request).id == request.id,
        answer(service, format, request).outcome == (match handled(service, call) {
            Ok(reply) => Ok(encoded_reply(format, reply)),
            Err(_) => Err(ErrorKind::Handler),
        }),
{
}

/// In the binary format, a call that the service defines is answered under
/// its own correlation id, and where the handler returns a value, the
/// response carries a payload that decodes to that very value.
pub proof fn law_binary_answer_decodes<S: Service>(service: &S, id: u64, call: CallModel)
    requires
        call.wf(),
        handled(service, call) matches Ok(reply) ==> reply.wf(),
    ensures
        answer(service, Format::Binary, binary_request(id, call)).id == id,
        match handled(service, call) {
            Ok(reply) => answer(service, Format::Binary, binary_request(id, call)).outcome
                matches Ok(payload) && binary::parse_reply(call.method(), payload) == Some(reply),
            Err(_) => answer(service, Format::Binary, binary_request(id, call)).outcome == Err::<
                Seq<u8>,
                ErrorKind,
            >(ErrorKind::Handler),
        },
{
    crate::call::lemma_method_named_of_name(call.method());
    binary::lemma_parse_call_of_bytes(call);
    if let Ok(reply) = handled(service, call) {
        binary::lemma_parse_reply_of_bytes(call.method(), reply);
    }
}

/// In the JSON format, a request for `add` whose arguments read as `x` and
/// `y` is answered, under its own correlation id, with what the handler
/// returns for them, written in decimal digits.
pub proof fn law_json_sum_is_decimal<S: Service>(
    service: &S,
    request: RequestModel,
    x: i32,
    y: i32,
)
    requires
        method_named(request.method) == Some(Method::Add),
        json::json_pair(request.payload) == Some((x, y)),
    ensures
        answer(service, Format::Json, request).id == request.id,
        answer(service, Format::Json, request).outcome == (match service.add_spec(x, y) {
            Ok(sum) => Ok(json::decimal(sum)),
            Err(_) => Err(ErrorKind::Handler),
        }),
{
}

/// A request for a method that the service defines, with arguments that do
/// not decode, is answered under its own correlation id with
/// `ArgumentDecode`, and no handler runs.
pub proof fn law_undecodable_arguments_are_refused<S: Service>(
    service: &S,
    format: Format,
    request: RequestModel,
    method: Method,
)
    requires
        method_named(request.method) == Some(method),
        decoded_call(format, method, request.payload) is None,
    ensures
        answer(service, format, request) == (ResponseModel {
            id: request.id,
            outcome: Err(ErrorKind::ArgumentDecode),
        }),
{
}

/// A request that names no method of the service is answered, under its own
/// correlation id, with `UnknownMethod`, whatever else it holds.
pub proof fn law_undefined_method_is_refused<S: Service>(
    service: &S,
    format: Format,
    request: RequestModel,
)
    requires
        method_named(request.method) is None,
    ensures
        answer(service, format, request) == (ResponseModel {
            id: request.id,
            outcome: Err(ErrorKind::UnknownMethod),
        }),
{
}

} // verus!
