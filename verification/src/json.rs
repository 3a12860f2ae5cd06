//! The JSON encoding, read and written by `serde_json`.
//!
//! A request is one JSON array of its correlation id, the name of its method
//! and the bytes of its serialized arguments: `[7,"add",[91,50,44,51,93]]`.
//! A response is one JSON array of its correlation id, a code and the bytes
//! of the serialized return value: the code is `0` for a return value, and
//! otherwise stands for the kind of failure, with no bytes behind it.
//!
//! The arguments of a call are one JSON array: `["Bob"]` for `hello`,
//! `[2,3]` for `add`. A return value is one JSON value: a string or a
//! number.
//!
//! What `serde_json` reads is not restated here: each reading has a name,
//! and the contracts speak of those names. Of what it writes, the contracts
//! state what the rest of the crate relies on: that writing succeeds, that
//! a message is written without a byte that ends a line, and that what was
//! written reads back as the value that was written. An integer is written
//! in decimal digits, and that is stated in full.

use vstd::prelude::*;
use crate::call::{Call, CallModel, Method, Reply, ReplyModel};
use crate::codec::{code_of, kind_code, kind_of, kind_of_code};
use crate::error::DecodeError;
use crate::message::{Request, RequestModel, Response, ResponseModel};
use crate::wire::no_newline;

verus! {

/// The error of `serde_json`.
#[verifier::external_type_specification]
#[verifier::external_body]
pub struct ExJsonError(serde_json::Error);

/// The pair of 32-bit integers that `serde_json::from_slice` reads from
/// `text`, or `None` where it reports an error.
pub uninterp spec fn json_pair(text: Seq<u8>) -> Option<(i32, i32)>;

/// The string that `serde_json::from_slice` reads from `text` as the only
/// element of a one-element tuple, or `None` where it reports an error.
pub uninterp spec fn json_name(text: Seq<u8>) -> Option<Seq<char>>;

/// The bytes that `serde_json::to_vec` writes for the string `s`.
pub uninterp spec fn json_of_text(s: Seq<char>) -> Seq<u8>;

/// The 32-bit integer that `serde_json::from_slice` reads from `text`, or
/// `None` where it reports an error.
pub uninterp spec fn json_int(text: Seq<u8>) -> Option<i32>;

/// The string that `serde_json::from_slice` reads from `text`, or `None`
/// where it reports an error.
pub uninterp spec fn json_text(text: Seq<u8>) -> Option<Seq<char>>;

/// The bytes that `serde_json::to_vec` writes for the triple of a
/// correlation id, a method name and a payload.
pub uninterp spec fn json_of_request(id: u64, method: Seq<char>, payload: Seq<u8>) -> Seq<u8>;

/// The triple of a correlation id, a method name and a payload that
/// `serde_json::from_slice` reads from `line`, or `None` where it reports an
/// error.
pub uninterp spec fn json_request(line: Seq<u8>) -> Option<(u64, Seq<char>, Seq<u8>)>;

/// The bytes that `serde_json::to_vec` writes for the triple of a
/// correlation id, a code and a payload.
pub uninterp spec fn json_of_response(id: u64, code: u8, payload: Seq<u8>) -> Seq<u8>;

/// The triple of a correlation id, a code and a payload that
/// `serde_json::from_slice` reads from `line`, or `None` where it reports an
/// error.
pub uninterp spec fn json_response(line: Seq<u8>) -> Option<(u64, u8, Seq<u8>)>;

/// The decimal digits of `n`, as ASCII.
pub open spec fn digits(n: nat) -> Seq<u8>
    decreases n,
{
    if n < 10 {
        seq![(48 + n) as u8]
    } else {
        digits(n / 10).push((48 + n % 10) as u8)
    }
}

/// The integer `x` in decimal, with a minus sign in front where it is
/// negative. This is what `serde_json::to_vec` writes for it.
pub open spec fn decimal(x: i32) -> Seq<u8> {
    if x < 0 {
        seq![45u8] + digits((-x) as nat)
    } else {
        digits(x as nat)
    }
}

/// Calls `serde_json::from_slice` for a pair of 32-bit integers. The
/// contract only gives the result its name: the same bytes always read the
/// same way.
#[verifier::external_body]
fn pair_from_json(text: &[u8]) -> (r: Result<(i32, i32), serde_json::Error>)
    ensures
        match r {
            Ok(pair) => json_pair(text@) == Some(pair),
            Err(_) => json_pair(text@) is None,
        },
{
    serde_json::from_slice::<(i32, i32)>(text)
}

/// Calls `serde_json::from_slice` for a one-element tuple of a string and
/// hands out the string. The contract only gives the result its name: the
/// same bytes always read the same way.
#[verifier::external_body]
fn name_from_json(text: &[u8]) -> (r: Result<String, serde_json::Error>)
    ensures
        match r {
            Ok(name) => json_name(text@) == Some(name@),
            Err(_) => json_name(text@) is None,
        },
{
    serde_json::from_slice::<(String,)>(text).map(|one| one.0)
}

/// Calls `serde_json::from_slice` for a 32-bit integer. The contract only
/// gives the result its name: the same bytes always read the same way.
#[verifier::external_body]
fn int_from_json(text: &[u8]) -> (r: Result<i32, serde_json::Error>)
    ensures
        match r {
            Ok(x) => json_int(text@) == Some(x),
            Err(_) => json_int(text@) is None,
        },
{
    serde_json::from_slice::<i32>(text)
}

/// Calls `serde_json::from_slice` for a string. The contract only gives the
/// result its name: the same bytes always read the same way.
#[verifier::external_body]
fn text_from_json(text: &[u8]) -> (r: Result<String, serde_json::Error>)
    ensures
        match r {
            Ok(s) => json_text(text@) == Some(s@),
            Err(_) => json_text(text@) is None,
        },
{
    serde_json::from_slice::<String>(text)
}

/// Calls `serde_json::to_vec` on a 32-bit integer. The serializer writes
/// into a vector, which takes every write, and has no other way to fail; it
/// writes the integer in decimal digits, with a minus sign in front of a
/// negative one. The reader takes a sign and digits that fit in 32 bits as
/// the integer that they spell, so that what was written reads back as `x`.
#[verifier::external_body]
fn int_to_json(x: i32) -> (r: Result<Vec<u8>, serde_json::Error>)
    ensures
        r is Ok,
        r matches Ok(text) ==> text@ == decimal(x) && json_int(text@) == Some(x),
{
    serde_json::to_vec(&x)
}

/// Calls `serde_json::to_vec` on a string. The serializer writes into a
/// vector, which takes every write, and has no other way to fail. The
/// contract gives the text its name: the same string is always written the
/// same way. The serializer puts the string between quotation marks and
/// escapes the quotation mark, the backslash and the control characters;
/// the reader undoes each of these escapes and takes every other byte as it
/// is, so that what was written reads back as `s`.
#[verifier::external_body]
fn text_to_json(s: &str) -> (r: Result<Vec<u8>, serde_json::Error>)
    ensures
        r is Ok,
        r matches Ok(text) ==> text@ == json_of_text(s@) && json_text(text@) == Some(s@),
{
    serde_json::to_vec(s)
}

/// Calls `serde_json::to_vec` on the triple of a correlation id, a method
/// name and a payload. The serializer writes into a vector, which takes
/// every write, and has no other way to fail. It writes brackets, commas,
/// digits and one string, puts no white space between them, and escapes
/// every control character inside the string: the text holds no byte that
/// ends a line. The reader takes an array of three elements as a triple,
/// digits as the number that they spell and an escaped string as the string
/// that was escaped, so that what was written reads back as the triple.
#[verifier::external_body]
fn request_to_json(id: u64, method: &str, payload: &[u8]) -> (r: Result<
    Vec<u8>,
    serde_json::Error,
>)
    ensures
        r is Ok,
        r matches Ok(text) ==> text@ == json_of_request(id, method@, payload@) && no_newline(
            text@,
        ) && json_request(text@) == Some((id, method@, payload@)),
{
    serde_json::to_vec(&(id, method, payload))
}

/// Calls `serde_json::from_slice` for the triple of a correlation id, a
/// method name and a payload. The contract only gives the result its name:
/// the same bytes always read the same way.
#[verifier::external_body]
fn request_from_json(line: &[u8]) -> (r: Result<(u64, String, Vec<u8>), serde_json::Error>)
    ensures
        match r {
            Ok(read) => json_request(line@) == Some((read.0, read.1@, read.2@)),
            Err(_) => json_request(line@) is None,
        },
{
    serde_json::from_slice::<(u64, String, Vec<u8>)>(line)
}

/// Calls `serde_json::to_vec` on the triple of a correlation id, a code and
/// a payload. The serializer writes into a vector, which takes every write,
/// and has no other way to fail. It writes brackets, commas and digits, and
/// puts no white space between them: the text holds no byte that ends a
/// line. The reader takes an array of three elements as a triple and digits
/// as the number that they spell, so that what was written reads back as
/// the triple.
#[verifier::external_body]
fn response_to_json(id: u64, code: u8, payload: &[u8]) -> (r: Result<Vec<u8>, serde_json::Error>)
    ensures
        r is Ok,
        r matches Ok(text) ==> text@ == json_of_response(id, code, payload@) && no_newline(
            text@,
        ) && json_response(text@) == Some((id, code, payload@)),
{
    serde_json::to_vec(&(id, code, payload))
}

/// Calls `serde_json::from_slice` for the triple of a correlation id, a code
/// and a payload. The contract only gives the result its name: the same
/// bytes always read the same way.
#[verifier::external_body]
fn response_from_json(line: &[u8]) -> (r: Result<(u64, u8, Vec<u8>), serde_json::Error>)
    ensures
        match r {
            Ok(read) => json_response(line@) == Some((read.0, read.1, read.2@)),
            Err(_) => json_response(line@) is None,
        },
{
    serde_json::from_slice::<(u64, u8, Vec<u8>)>(line)
}

/// The call of `method` that `text` is read as, if it is read as one.
pub open spec fn parse_call(method: Method, text: Seq<u8>) -> Option<CallModel> {
    match method {
        Method::Hello => match json_name(text) {
            Some(name) => Some(CallModel::Hello { name }),
            None => None,
        },
        Method::Add => match json_pair(text) {
            Some((x, y)) => Some(CallModel::Add { x, y }),
            None => None,
        },
    }
}

/// The bytes that a return value is written as.
pub open spec fn reply_text(reply: ReplyModel) -> Seq<u8> {
    match reply {
        ReplyModel::Text(s) => json_of_text(s),
        ReplyModel::Int(x) => decimal(x),
    }
}

/// The return value of `method` that `text` is read as, if it is read as
/// one.
pub open spec fn read_reply(method: Method, text: Seq<u8>) -> Option<ReplyModel> {
    match method {
        Method::Hello => match json_text(text) {
            Some(s) => Some(ReplyModel::Text(s)),
            None => None,
        },
        Method::Add => match json_int(text) {
            Some(x) => Some(ReplyModel::Int(x)),
            None => None,
        },
    }
}

/// The text of a request.
pub open spec fn request_text(m: RequestModel) -> Seq<u8> {
    json_of_request(m.id, m.method, m.payload)
}

/// The request that `line` is read as, if it is read as one.
pub open spec fn read_request(line: Seq<u8>) -> Option<RequestModel> {
    match json_request(line) {
        Some((id, method, payload)) => Some(RequestModel { id, method, payload }),
        None => None,
    }
}

/// The code of an outcome: `0` for a return value, and otherwise the byte
/// that stands for the kind of failure.
pub open spec fn outcome_code(outcome: Result<Seq<u8>, crate::error::ErrorKind>) -> u8 {
    match outcome {
        Ok(_) => 0,
        Err(kind) => kind_code(kind),
    }
}

/// The payload of an outcome: the serialized return value, or nothing.
pub open spec fn outcome_payload(outcome: Result<Seq<u8>, crate::error::ErrorKind>) -> Seq<u8> {
    match outcome {
        Ok(payload) => payload,
        Err(_) => Seq::empty(),
    }
}

/// The text of a response.
pub open spec fn response_text(m: ResponseModel) -> Seq<u8> {
    json_of_response(m.id, outcome_code(m.outcome), outcome_payload(m.outcome))
}

/// The response that `line` is read as, if it is read as one: the code `0`
/// with any payload, or the code of a kind of failure with none.
pub open spec fn read_response(line: Seq<u8>) -> Option<ResponseModel> {
    match json_response(line) {
        Some((id, code, payload)) => if code == 0 {
            Some(ResponseModel { id, outcome: Ok(payload) })
        } else if payload.len() == 0 {
            match kind_of_code(code) {
                Some(kind) => Some(ResponseModel { id, outcome: Err(kind) }),
                None => None,
            }
        } else {
            None
        },
        None => None,
    }
}

/// Reads the arguments of a call of `method`.
pub fn decode_call(method: Method, text: &[u8]) -> (r: Result<Call, DecodeError>)
    ensures
        match r {
            Ok(call) => parse_call(method, text@) == Some(call@) && call@.method() == method,
            Err(_) => parse_call(method, text@) is None,
        },
{
    match method {
        Method::Hello => match name_from_json(text) {
            Ok(name) => Ok(Call::Hello { name }),
            Err(_) => Err(DecodeError {}),
        },
        Method::Add => match pair_from_json(text) {
            Ok(pair) => Ok(Call::Add { x: pair.0, y: pair.1 }),
            Err(_) => Err(DecodeError {}),
        },
    }
}

/// Reads a return value of `method`.
pub fn decode_reply(method: Method, text: &[u8]) -> (r: Result<Reply, DecodeError>)
    ensures
        match r {
            Ok(reply) => read_reply(method, text@) == Some(reply@) && reply@.answers(method),
            Err(_) => read_reply(method, text@) is None,
        },
{
    match method {
        Method::Hello => match text_from_json(text) {
            Ok(s) => Ok(Reply::Text(s)),
            Err(_) => Err(DecodeError {}),
        },
        Method::Add => match int_from_json(text) {
            Ok(x) => Ok(Reply::Int(x)),
            Err(_) => Err(DecodeError {}),
        },
    }
}

/// Writes a return value. What is written reads back as the value.
pub fn encode_reply(reply: &Reply) -> (text: Vec<u8>)
    ensures
        text@ == reply_text(reply@),
        forall|method: Method|
            reply@.answers(method) ==> read_reply(method, text@) == Some(reply@),
{
    let written = match reply {
        Reply::Text(s) => text_to_json(s.as_str()),
        Reply::Int(x) => int_to_json(*x),
    };
    match written {
        Ok(text) => text,
        // The writers do not fail.
        Err(_) => Vec::new(),
    }
}

/// Writes a request as one text without a byte that ends a line. What is
/// written reads back as the request.
pub fn encode_request(request: &Request) -> (text: Vec<u8>)
    ensures
        text@ == request_text(request@),
        no_newline(text@),
        read_request(text@) == Some(request@),
{
    match request_to_json(request.id, request.method.as_str(), request.payload.as_slice()) {
        Ok(text) => text,
        // The writers do not fail.
        Err(_) => Vec::new(),
    }
}

/// Reads a request.
pub fn decode_request(line: &[u8]) -> (r: Result<Request, DecodeError>)
    ensures
        match r {
            Ok(request) => read_request(line@) == Some(request@),
            Err(_) => read_request(line@) is None,
        },
{
    match request_from_json(line) {
        Ok(read) => Ok(Request { id: read.0, method: read.1, payload: read.2 }),
        Err(_) => Err(DecodeError {}),
    }
}

/// Writes a response as one text without a byte that ends a line. What is
/// written reads back as the response.
pub fn encode_response(response: &Response) -> (text: Vec<u8>)
    ensures
        text@ == response_text(response@),
        no_newline(text@),
        read_response(text@) == Some(response@),
{
    let nothing: Vec<u8> = Vec::new();
    let written = match &response.outcome {
        Ok(payload) => response_to_json(response.id, 0, payload.as_slice()),
        Err(kind) => response_to_json(response.id, code_of(*kind), nothing.as_slice()),
    };
    match written {
        Ok(text) => text,
        // The writers do not fail.
        Err(_) => Vec::new(),
    }
}

/// Reads a response.
pub fn decode_response(line: &[u8]) -> (r: Result<Response, DecodeError>)
    ensures
        match r {
            Ok(response) => read_response(line@) == Some(response@),
            Err(_) => read_response(line@) is None,
        },
{
    match response_from_json(line) {
        Ok(read) => {
            if read.1 == 0 {
                Ok(Response { id: read.0, outcome: Ok(read.2) })
            } else if read.2.len() == 0 {
                match kind_of(read.1) {
                    Some(kind) => Ok(Response { id: read.0, outcome: Err(kind) }),
                    None => Err(DecodeError {}),
                }
            } else {
                Err(DecodeError {})
            }
        },
        Err(_) => Err(DecodeError {}),
    }
}

} // verus!
