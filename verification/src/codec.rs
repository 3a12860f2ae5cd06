//! The binary wire encoding of requests and responses.
//!
//! A request is its correlation id in eight bytes, the method name as a
//! length-prefixed UTF-8 string, and then the argument payload up to the end.
//! A response is its correlation id in eight bytes and a tag byte: `0`
//! followed by the payload, or `1` followed by one byte for the kind of
//! failure.
//!
//! Both start with the correlation id, so that a request that does not
//! decode can still be answered where its frame is long enough to hold one.
//!
//! Each encoding has exactly one decoding and each decoding exactly one
//! encoding: the decoders accept the images of the encoders and nothing else.

use vstd::prelude::*;
use vstd::slice::*;
use vstd::utf8::*;
use crate::error::{DecodeError, ErrorKind};
use crate::message::{Request, RequestModel, Response, ResponseModel};
use crate::wire::{
    field_bytes, find_field, get_text, get_u64, lemma_bytes_of_take_field,
    lemma_take_field_of_bytes, lemma_u64_bytes_of_value, lemma_u64_value_of_bytes, put_bytes,
    put_text, put_u64, take_field, u64_bytes, u64_value,
};

verus! {

/// The byte that stands for a kind of failure.
pub open spec fn kind_code(kind: ErrorKind) -> u8 {
    match kind {
        ErrorKind::UnknownMethod => 1,
        ErrorKind::ArgumentDecode => 2,
        ErrorKind::Handler => 3,
        ErrorKind::Decode => 4,
    }
}

/// The kind of failure that a byte stands for.
pub open spec fn kind_of_code(code: u8) -> Option<ErrorKind> {
    if code == 1 {
        Some(ErrorKind::UnknownMethod)
    } else if code == 2 {
        Some(ErrorKind::ArgumentDecode)
    } else if code == 3 {
        Some(ErrorKind::Handler)
    } else if code == 4 {
        Some(ErrorKind::Decode)
    } else {
        None
    }
}

/// The byte that stands for a kind of failure.
pub fn code_of(kind: ErrorKind) -> (code: u8)
    ensures
        code == kind_code(kind),
        kind_of_code(code) == Some(kind),
        code != 0,
{
    match kind {
        ErrorKind::UnknownMethod => 1,
        ErrorKind::ArgumentDecode => 2,
        ErrorKind::Handler => 3,
        ErrorKind::Decode => 4,
    }
}

/// The kind of failure that a byte stands for.
pub fn kind_of(code: u8) -> (kind: Option<ErrorKind>)
    ensures
        kind == kind_of_code(code),
        kind matches Some(k) ==> kind_code(k) == code,
{
    if code == 1 {
        Some(ErrorKind::UnknownMethod)
    } else if code == 2 {
        Some(ErrorKind::ArgumentDecode)
    } else if code == 3 {
        Some(ErrorKind::Handler)
    } else if code == 4 {
        Some(ErrorKind::Decode)
    } else {
        None
    }
}

/// The encoding of a request.
pub open spec fn request_bytes(m: RequestModel) -> Seq<u8> {
    u64_bytes(m.id) + field_bytes(encode_utf8(m.method)) + m.payload
}

/// The request that `b` encodes, if any.
pub open spec fn parse_request(b: Seq<u8>) -> Option<RequestModel> {
    if b.len() < 8 {
        None
    } else {
        match take_field(b.subrange(8, b.len() as int)) {
            Some((name, payload)) => if valid_utf8(name) {
                Some(RequestModel { id: u64_value(b), method: decode_utf8(name), payload })
            } else {
                None
            },
            None => None,
        }
    }
}

/// The encoding of a response.
pub open spec fn response_bytes(m: ResponseModel) -> Seq<u8> {
    match m.outcome {
        Ok(payload) => u64_bytes(m.id) + seq![0u8] + payload,
        Err(kind) => u64_bytes(m.id) + seq![1u8, kind_code(kind)],
    }
}

/// The response that `b` encodes, if any.
pub open spec fn parse_response(b: Seq<u8>) -> Option<ResponseModel> {
    if b.len() < 9 {
        None
    } else if b[8] == 0 {
        Some(ResponseModel { id: u64_value(b), outcome: Ok(b.subrange(9, b.len() as int)) })
    } else if b[8] == 1 && b.len() == 10 {
        match kind_of_code(b[9]) {
            Some(kind) => Some(ResponseModel { id: u64_value(b), outcome: Err(kind) }),
            None => None,
        }
    } else {
        None
    }
}

/// Decoding the encoding of a request gives the request.
pub proof fn lemma_parse_request_of_bytes(m: RequestModel)
    requires
        m.wf(),
    ensures
        parse_request(request_bytes(m)) == Some(m),
{
    let b = request_bytes(m);
    let name = encode_utf8(m.method);
    lemma_u64_value_of_bytes(m.id);
    assert(u64_value(b) == m.id) by {
        assert(forall|i: int| 0 <= i < 8 ==> b[i] == u64_bytes(m.id)[i]);
    }
    assert(b.subrange(8, b.len() as int) =~= field_bytes(name) + m.payload);
    lemma_take_field_of_bytes(name, m.payload);
    encode_utf8_valid_utf8(m.method);
    encode_utf8_decode_utf8(m.method);
}

/// What decodes to a request is the encoding of that request.
pub proof fn lemma_request_bytes_of_parse(b: Seq<u8>)
    ensures
        parse_request(b) matches Some(m) ==> request_bytes(m) == b && m.wf(),
{
    if let Some(m) = parse_request(b) {
        let tail = b.subrange(8, b.len() as int);
        let (name, payload) = take_field(tail).unwrap();
        lemma_bytes_of_take_field(tail);
        decode_utf8_encode_utf8(name);
        lemma_u64_bytes_of_value(b.subrange(0, 8));
        assert(u64_value(b.subrange(0, 8)) == u64_value(b));
        assert(b =~= b.subrange(0, 8) + tail);
        assert(request_bytes(m) =~= b);
    }
}

/// Decoding the encoding of a response gives the response.
pub proof fn lemma_parse_response_of_bytes(m: ResponseModel)
    ensures
        parse_response(response_bytes(m)) == Some(m),
{
    let b = response_bytes(m);
    lemma_u64_value_of_bytes(m.id);
    assert(u64_value(b) == m.id) by {
        assert(forall|i: int| 0 <= i < 8 ==> b[i] == u64_bytes(m.id)[i]);
    }
    match m.outcome {
        Ok(payload) => {
            assert(b[8] == 0);
            assert(b.subrange(9, b.len() as int) =~= payload);
        },
        Err(kind) => {
            assert(b[8] == 1);
            assert(b[9] == kind_code(kind));
        },
    }
}

/// What decodes to a response is the encoding of that response.
pub proof fn lemma_response_bytes_of_parse(b: Seq<u8>)
    ensures
        parse_response(b) matches Some(m) ==> response_bytes(m) == b,
{
    if let Some(m) = parse_response(b) {
        lemma_u64_bytes_of_value(b.subrange(0, 8));
        assert(u64_value(b.subrange(0, 8)) == u64_value(b));
        assert(response_bytes(m) =~= b);
    }
}

/// Appending to nothing, piece by piece, gives the pieces in a row.
proof fn lemma_pieces<T>(a: Seq<T>, b: Seq<T>, c: Seq<T>)
    ensures
        Seq::<T>::empty() + a + b == a + b,
        Seq::<T>::empty() + a + b + c == a + b + c,
{
    assert(Seq::<T>::empty() + a =~= a);
}

/// Encodes a request.
pub fn encode_request(request: &Request) -> (bytes: Vec<u8>)
    ensures
        request@.wf(),
        bytes@ == request_bytes(request@),
        parse_request(bytes@) == Some(request@),
{
    let mut out: Vec<u8> = Vec::new();
    put_u64(&mut out, request.id);
    put_text(&mut out, request.method.as_str());
    put_bytes(&mut out, request.payload.as_slice());
    proof {
        lemma_pieces(
            u64_bytes(request.id),
            field_bytes(encode_utf8(request.method@)),
            request.payload@,
        );
        lemma_parse_request_of_bytes(request@);
    }
    out
}

/// Decodes a request. It succeeds on the encodings of requests, with the
/// request that was encoded, and fails on every other byte string.
pub fn decode_request(bytes: &[u8]) -> (r: Result<Request, DecodeError>)
    ensures
        match r {
            Ok(request) => parse_request(bytes@) == Some(request@) && request_bytes(request@)
                == bytes@,
            Err(_) => parse_request(bytes@) is None && forall|m: RequestModel|
                m.wf() ==> #[trigger] request_bytes(m) != bytes@,
        },
{
    proof {
        lemma_request_bytes_of_parse(bytes@);
        assert forall|m: RequestModel| m.wf() && #[trigger] request_bytes(m) == bytes@ implies
            parse_request(bytes@) == Some(m) by {
            lemma_parse_request_of_bytes(m);
        }
    }
    if bytes.len() < 8 {
        return Err(DecodeError {});
    }
    let id = get_u64(bytes, 0);
    assert(bytes@.subrange(0, bytes@.len() as int) =~= bytes@);
    match find_field(bytes, 8) {
        None => Err(DecodeError {}),
        Some(end) => match get_text(bytes, 16, end) {
            None => Err(DecodeError {}),
            Some(method) => {
                let payload = slice_to_vec(slice_subrange(bytes, end, bytes.len()));
                Ok(Request { id, method, payload })
            },
        },
    }
}

/// Encodes a response.
pub fn encode_response(response: &Response) -> (bytes: Vec<u8>)
    ensures
        bytes@ == response_bytes(response@),
        parse_response(bytes@) == Some(response@),
{
    let mut out: Vec<u8> = Vec::new();
    put_u64(&mut out, response.id);
    match &response.outcome {
        Ok(payload) => {
            out.push(0u8);
            put_bytes(&mut out, payload.as_slice());
        },
        Err(kind) => {
            out.push(1u8);
            out.push(code_of(*kind));
        },
    }
    proof {
        assert(out@ =~= response_bytes(response@));
        lemma_parse_response_of_bytes(response@);
    }
    out
}

/// Decodes a response. It succeeds on the encodings of responses, with the
/// response that was encoded, and fails on every other byte string.
pub fn decode_response(bytes: &[u8]) -> (r: Result<Response, DecodeError>)
    ensures
        match r {
            Ok(response) => parse_response(bytes@) == Some(response@) && response_bytes(
                response@,
            ) == bytes@,
            Err(_) => parse_response(bytes@) is None && forall|m: ResponseModel| #[trigger]
                response_bytes(m) != bytes@,
        },
{
    proof {
        lemma_response_bytes_of_parse(bytes@);
        assert forall|m: ResponseModel| #[trigger] response_bytes(m) == bytes@ implies
            parse_response(bytes@) == Some(m) by {
            lemma_parse_response_of_bytes(m);
        }
    }
    if bytes.len() < 9 {
        return Err(DecodeError {});
    }
    let id = get_u64(bytes, 0);
    assert(bytes@.subrange(0, bytes@.len() as int) =~= bytes@);
    let tag: u8 = bytes[8];
    if tag == 0 {
        let payload = slice_to_vec(slice_subrange(bytes, 9, bytes.len()));
        Ok(Response { id, outcome: Ok(payload) })
    } else if tag == 1 && bytes.len() == 10 {
        match kind_of(bytes[9]) {
            Some(kind) => Ok(Response { id, outcome: Err(kind) }),
            None => Err(DecodeError {}),
        }
    } else {
        Err(DecodeError {})
    }
}

} // verus!
