//! The binary encoding of arguments and return values.
//!
//! Every value says what it is: an integer is the tag `1` and its four
//! bytes in two's complement, a text is the tag `2` and its UTF-8 bytes as
//! a length-prefixed string. The arguments of a call are its values in a
//! row, and nothing may follow them.

use vstd::prelude::*;
use vstd::utf8::*;
use crate::call::{Call, CallModel, Method, Reply, ReplyModel};
use crate::error::DecodeError;
use crate::wire::{
    field_bytes, find_field, get_i32, get_text, i32_bytes, i32_value, lemma_bytes_of_take_field,
    lemma_i32_bytes_of_value, lemma_i32_value_of_bytes, lemma_take_field_of_bytes, put_i32,
    put_text, take_field,
};

verus! {

/// The tag of an integer.
pub const TAG_INT: u8 = 1;

/// The tag of a text.
pub const TAG_TEXT: u8 = 2;

/// The encoding of an integer.
pub open spec fn int_bytes(x: i32) -> Seq<u8> {
    seq![TAG_INT] + i32_bytes(x)
}

/// The encoding of a text.
pub open spec fn text_bytes(s: Seq<char>) -> Seq<u8> {
    seq![TAG_TEXT] + field_bytes(encode_utf8(s))
}

/// Splits `b` into the integer that it starts with and what follows it.
pub open spec fn take_int(b: Seq<u8>) -> Option<(i32, Seq<u8>)> {
    if b.len() >= 5 && b[0] == TAG_INT {
        Some((i32_value(b.subrange(1, 5)), b.subrange(5, b.len() as int)))
    } else {
        None
    }
}

/// Splits `b` into the text that it starts with and what follows it.
pub open spec fn take_text(b: Seq<u8>) -> Option<(Seq<char>, Seq<u8>)> {
    if b.len() >= 1 && b[0] == TAG_TEXT {
        match take_field(b.subrange(1, b.len() as int)) {
            Some((raw, rest)) => if valid_utf8(raw) {
                Some((decode_utf8(raw), rest))
            } else {
                None
            },
            None => None,
        }
    } else {
        None
    }
}

/// The encoding of the arguments of a call.
pub open spec fn call_bytes(call: CallModel) -> Seq<u8> {
    match call {
        CallModel::Hello { name } => text_bytes(name),
        CallModel::Add { x, y } => int_bytes(x) + int_bytes(y),
    }
}

/// The call of `method` whose arguments `b` encodes, if any.
pub open spec fn parse_call(method: Method, b: Seq<u8>) -> Option<CallModel> {
    match method {
        Method::Hello => match take_text(b) {
            Some((name, rest)) => if rest.len() == 0 {
                Some(CallModel::Hello { name })
            } else {
                None
            },
            None => None,
        },
        Method::Add => match take_int(b) {
            Some((x, rest)) => match take_int(rest) {
                Some((y, rest)) => if rest.len() == 0 {
                    Some(CallModel::Add { x, y })
                } else {
                    None
                },
                None => None,
            },
            None => None,
        },
    }
}

/// The encoding of a return value.
pub open spec fn reply_bytes(reply: ReplyModel) -> Seq<u8> {
    match reply {
        ReplyModel::Text(s) => text_bytes(s),
        ReplyModel::Int(x) => int_bytes(x),
    }
}

/// The return value of `method` that `b` encodes, if any.
pub open spec fn parse_reply(method: Method, b: Seq<u8>) -> Option<ReplyModel> {
    match method {
        Method::Hello => match take_text(b) {
            Some((s, rest)) => if rest.len() == 0 {
                Some(ReplyModel::Text(s))
            } else {
                None
            },
            None => None,
        },
        Method::Add => match take_int(b) {
            Some((x, rest)) => if rest.len() == 0 {
                Some(ReplyModel::Int(x))
            } else {
                None
            },
            None => None,
        },
    }
}

/// An encoded integer followed by anything splits into the integer and
/// what follows.
pub proof fn lemma_take_int_of_bytes(x: i32, rest: Seq<u8>)
    ensures
        take_int(int_bytes(x) + rest) == Some((x, rest)),
{
    let b = int_bytes(x) + rest;
    lemma_i32_value_of_bytes(x);
    assert(b.subrange(1, 5) =~= i32_bytes(x));
    assert(b.subrange(5, b.len() as int) =~= rest);
}

/// What splits into an integer and a rest is that integer, encoded, and
/// that rest.
pub proof fn lemma_bytes_of_take_int(b: Seq<u8>)
    ensures
        take_int(b) matches Some((x, rest)) ==> b == int_bytes(x) + rest,
{
    if let Some((x, rest)) = take_int(b) {
        lemma_i32_bytes_of_value(b.subrange(1, 5));
        assert(b =~= int_bytes(x) + rest);
    }
}

/// An encoded text followed by anything splits into the text and what
/// follows.
pub proof fn lemma_take_text_of_bytes(s: Seq<char>, rest: Seq<u8>)
    requires
        encode_utf8(s).len() <= u64::MAX,
    ensures
        take_text(text_bytes(s) + rest) == Some((s, rest)),
{
    let b = text_bytes(s) + rest;
    let raw = encode_utf8(s);
    assert(b.subrange(1, b.len() as int) =~= field_bytes(raw) + rest);
    lemma_take_field_of_bytes(raw, rest);
    encode_utf8_valid_utf8(s);
    encode_utf8_decode_utf8(s);
}

/// What splits into a text and a rest is that text, encoded, and that rest.
pub proof fn lemma_bytes_of_take_text(b: Seq<u8>)
    ensures
        take_text(b) matches Some((s, rest)) ==> b == text_bytes(s) + rest && encode_utf8(s).len()
            <= u64::MAX,
{
    if let Some((s, rest)) = take_text(b) {
        let tail = b.subrange(1, b.len() as int);
        let (raw, rest) = take_field(tail).unwrap();
        lemma_bytes_of_take_field(tail);
        decode_utf8_encode_utf8(raw);
        assert(b =~= seq![TAG_TEXT] + tail);
        assert(b =~= text_bytes(s) + rest);
    }
}

/// Decoding the encoded arguments of a call gives the call.
pub proof fn lemma_parse_call_of_bytes(call: CallModel)
    requires
        call.wf(),
    ensures
        parse_call(call.method(), call_bytes(call)) == Some(call),
{
    let empty = Seq::<u8>::empty();
    match call {
        CallModel::Hello { name } => {
            lemma_take_text_of_bytes(name, empty);
            assert(text_bytes(name) + empty =~= text_bytes(name));
        },
        CallModel::Add { x, y } => {
            lemma_take_int_of_bytes(x, int_bytes(y));
            lemma_take_int_of_bytes(y, empty);
            assert(int_bytes(y) + empty =~= int_bytes(y));
        },
    }
}

/// What decodes to a call is the encoding of the arguments of that call.
pub proof fn lemma_call_bytes_of_parse(method: Method, b: Seq<u8>)
    ensures
        parse_call(method, b) matches Some(call) ==> call_bytes(call) == b && call.method()
            == method && call.wf(),
{
    if let Some(call) = parse_call(method, b) {
        match method {
            Method::Hello => {
                lemma_bytes_of_take_text(b);
                let (name, rest) = take_text(b).unwrap();
                assert(text_bytes(name) + rest =~= text_bytes(name));
            },
            Method::Add => {
                lemma_bytes_of_take_int(b);
                let (x, rest) = take_int(b).unwrap();
                lemma_bytes_of_take_int(rest);
                let (y, end) = take_int(rest).unwrap();
                assert(int_bytes(y) + end =~= int_bytes(y));
            },
        }
    }
}

/// Decoding an encoded return value gives the value.
pub proof fn lemma_parse_reply_of_bytes(method: Method, reply: ReplyModel)
    requires
        reply.wf(),
        reply.answers(method),
    ensures
        parse_reply(method, reply_bytes(reply)) == Some(reply),
{
    let empty = Seq::<u8>::empty();
    match reply {
        ReplyModel::Text(s) => {
            lemma_take_text_of_bytes(s, empty);
            assert(text_bytes(s) + empty =~= text_bytes(s));
        },
        ReplyModel::Int(x) => {
            lemma_take_int_of_bytes(x, empty);
            assert(int_bytes(x) + empty =~= int_bytes(x));
        },
    }
}

/// What decodes to a return value is the encoding of that value.
pub proof fn lemma_reply_bytes_of_parse(method: Method, b: Seq<u8>)
    ensures
        parse_reply(method, b) matches Some(reply) ==> reply_bytes(reply) == b && reply.answers(
            method,
        ) && reply.wf(),
{
    if let Some(reply) = parse_reply(method, b) {
        match method {
            Method::Hello => {
                lemma_bytes_of_take_text(b);
                let (s, rest) = take_text(b).unwrap();
                assert(text_bytes(s) + rest =~= text_bytes(s));
            },
            Method::Add => {
                lemma_bytes_of_take_int(b);
                let (x, rest) = take_int(b).unwrap();
                assert(int_bytes(x) + rest =~= int_bytes(x));
            },
        }
    }
}

/// Appends the encoding of an integer to `out`.
fn put_int(out: &mut Vec<u8>, x: i32)
    ensures
        final(out)@ == old(out)@ + int_bytes(x),
{
    out.push(TAG_INT);
    put_i32(out, x);
    assert(out@ =~= old(out)@ + int_bytes(x));
}

/// Appends the encoding of a text to `out`.
fn put_text_value(out: &mut Vec<u8>, s: &str)
    ensures
        encode_utf8(s@).len() <= u64::MAX,
        final(out)@ == old(out)@ + text_bytes(s@),
{
    out.push(TAG_TEXT);
    put_text(out, s);
    assert(out@ =~= old(out)@ + text_bytes(s@));
}

/// Reads the integer that starts at `at`: its value and the position just
/// behind it.
fn read_int(bytes: &[u8], at: usize) -> (r: Option<(i32, usize)>)
    requires
        at <= bytes@.len(),
    ensures
        match r {
            Some((x, end)) => at <= end <= bytes@.len() && take_int(
                bytes@.subrange(at as int, bytes@.len() as int),
            ) == Some((x, bytes@.subrange(end as int, bytes@.len() as int))),
            None => take_int(bytes@.subrange(at as int, bytes@.len() as int)) is None,
        },
{
    let ghost tail = bytes@.subrange(at as int, bytes@.len() as int);
    if bytes.len() - at < 5 || bytes[at] != TAG_INT {
        return None;
    }
    let x = get_i32(bytes, at + 1);
    proof {
        let from = bytes@.subrange(at + 1, bytes@.len() as int);
        assert(forall|i: int| 0 <= i < 4 ==> from[i] == tail.subrange(1, 5)[i]);
        assert(tail.subrange(5, tail.len() as int) =~= bytes@.subrange(
            at + 5,
            bytes@.len() as int,
        ));
    }
    Some((x, at + 5))
}

/// Reads the text that starts at `at`: its value and the position just
/// behind it.
fn read_text(bytes: &[u8], at: usize) -> (r: Option<(String, usize)>)
    requires
        at <= bytes@.len(),
    ensures
        match r {
            Some((s, end)) => at <= end <= bytes@.len() && take_text(
                bytes@.subrange(at as int, bytes@.len() as int),
            ) == Some((s@, bytes@.subrange(end as int, bytes@.len() as int))),
            None => take_text(bytes@.subrange(at as int, bytes@.len() as int)) is None,
        },
{
    let ghost tail = bytes@.subrange(at as int, bytes@.len() as int);
    if bytes.len() - at < 1 || bytes[at] != TAG_TEXT {
        return None;
    }
    assert(tail.subrange(1, tail.len() as int) =~= bytes@.subrange(at + 1, bytes@.len() as int));
    match find_field(bytes, at + 1) {
        None => None,
        Some(end) => match get_text(bytes, at + 9, end) {
            None => None,
            Some(s) => Some((s, end)),
        },
    }
}

/// Encodes the arguments of a call.
pub fn encode_call(call: &Call) -> (bytes: Vec<u8>)
    ensures
        call@.wf(),
        bytes@ == call_bytes(call@),
        parse_call(call@.method(), bytes@) == Some(call@),
{
    let mut out: Vec<u8> = Vec::new();
    match call {
        Call::Hello { name } => {
            put_text_value(&mut out, name.as_str());
        },
        Call::Add { x, y } => {
            put_int(&mut out, *x);
            put_int(&mut out, *y);
        },
    }
    proof {
        assert(out@ =~= call_bytes(call@));
        lemma_parse_call_of_bytes(call@);
    }
    out
}

/// Decodes the arguments of a call of `method`. It succeeds on the encoded
/// arguments of such calls, with the call that was encoded, and fails on
/// every other byte string.
pub fn decode_call(method: Method, bytes: &[u8]) -> (r: Result<Call, DecodeError>)
    ensures
        match r {
            Ok(call) => parse_call(method, bytes@) == Some(call@) && call@.method() == method
                && call_bytes(call@) == bytes@,
            Err(_) => parse_call(method, bytes@) is None && forall|c: CallModel|
                c.wf() && c.method() == method ==> #[trigger] call_bytes(c) != bytes@,
        },
{
    proof {
        lemma_call_bytes_of_parse(method, bytes@);
        assert forall|c: CallModel|
            c.wf() && c.method() == method && #[trigger] call_bytes(c) == bytes@ implies parse_call(
            method,
            bytes@,
        ) == Some(c) by {
            lemma_parse_call_of_bytes(c);
        }
        assert(bytes@.subrange(0, bytes@.len() as int) =~= bytes@);
    }
    match method {
        Method::Hello => match read_text(bytes, 0) {
            Some((name, end)) => if end == bytes.len() {
                Ok(Call::Hello { name })
            } else {
                Err(DecodeError {})
            },
            None => Err(DecodeError {}),
        },
        Method::Add => match read_int(bytes, 0) {
            Some((x, mid)) => match read_int(bytes, mid) {
                Some((y, end)) => if end == bytes.len() {
                    Ok(Call::Add { x, y })
                } else {
                    Err(DecodeError {})
                },
                None => Err(DecodeError {}),
            },
            None => Err(DecodeError {}),
        },
    }
}

/// Encodes a return value.
pub fn encode_reply(reply: &Reply) -> (bytes: Vec<u8>)
    ensures
        reply@.wf(),
        bytes@ == reply_bytes(reply@),
{
    let mut out: Vec<u8> = Vec::new();
    match reply {
        Reply::Text(s) => {
            put_text_value(&mut out, s.as_str());
        },
        Reply::Int(x) => {
            put_int(&mut out, *x);
        },
    }
    assert(out@ =~= reply_bytes(reply@));
    out
}

/// Decodes a return value of `method`. It succeeds on the encodings of
/// values of the method's return type, with the value that was encoded, and
/// fails on every other byte string.
pub fn decode_reply(method: Method, bytes: &[u8]) -> (r: Result<Reply, DecodeError>)
    ensures
        match r {
            Ok(reply) => parse_reply(method, bytes@) == Some(reply@) && reply@.answers(method)
                && reply_bytes(reply@) == bytes@,
            Err(_) => parse_reply(method, bytes@) is None && forall|v: ReplyModel|
                v.wf() && v.answers(method) ==> #[trigger] reply_bytes(v) != bytes@,
        },
{
    proof {
        lemma_reply_bytes_of_parse(method, bytes@);
        assert forall|v: ReplyModel|
            v.wf() && v.answers(method) && #[trigger] reply_bytes(v) == bytes@ implies parse_reply(
            method,
            bytes@,
        ) == Some(v) by {
            lemma_parse_reply_of_bytes(method, v);
        }
        assert(bytes@.subrange(0, bytes@.len() as int) =~= bytes@);
    }
    match method {
        Method::Hello => match read_text(bytes, 0) {
            Some((s, end)) => if end == bytes.len() {
                Ok(Reply::Text(s))
            } else {
                Err(DecodeError {})
            },
            None => Err(DecodeError {}),
        },
        Method::Add => match read_int(bytes, 0) {
            Some((x, end)) => if end == bytes.len() {
                Ok(Reply::Int(x))
            } else {
                Err(DecodeError {})
            },
            None => Err(DecodeError {}),
        },
    }
}

} // verus!
