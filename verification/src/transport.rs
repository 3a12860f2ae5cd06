//! The transport of one connection: messages in, messages out.
//!
//! Every message travels in a frame of its own. In the JSON format a frame
//! is a line: the text of the message, then one byte `0x0A`. In the binary
//! format a frame is the encoded message preceded by its length.
//!
//! The transport owns two byte buffers. The program that owns the socket
//! feeds what it has read into the inbound buffer and writes out what it
//! takes from the outbound buffer; it also tells the transport when the peer
//! has closed its side and when the stream has failed. A server receives
//! requests and sends responses; its peer sends requests and receives
//! responses.

use vstd::prelude::*;
use vstd::slice::*;
use crate::codec;
use crate::dispatch::Format;
use crate::error::{DecodeError, TransportError};
use crate::json;
use crate::message::{Request, RequestModel, Response, ResponseModel};
use crate::wire::{
    field_bytes, find_field, find_line, get_u64, lemma_take_field_of_bytes,
    lemma_take_line_of_bytes, line_bytes, no_newline, put_bytes, put_field, put_line, take_field,
    take_line, u64_value,
};

verus! {

/// The transport of one connection.
#[derive(Debug)]
pub struct Transport {
    format: Format,
    inbound: Vec<u8>,
    outbound: Vec<u8>,
    closed: bool,
    broken: bool,
}

/// What a [`Transport`] stands for.
pub struct TransportModel {
    /// How messages are written and framed.
    pub format: Format,
    /// The bytes that have arrived and have not been consumed.
    pub inbound: Seq<u8>,
    /// The bytes that wait to be written to the peer.
    pub outbound: Seq<u8>,
    /// The peer has closed its side: no more bytes will arrive.
    pub closed: bool,
    /// The stream has failed.
    pub broken: bool,
}

impl View for Transport {
    type V = TransportModel;

    closed spec fn view(&self) -> TransportModel {
        TransportModel {
            format: self.format,
            inbound: self.inbound@,
            outbound: self.outbound@,
            closed: self.closed,
            broken: self.broken,
        }
    }
}

/// A body can travel in a frame of `format`: a line holds no byte that ends
/// a line, and a length fits in eight bytes.
pub open spec fn fits(format: Format, body: Seq<u8>) -> bool {
    match format {
        Format::Json => no_newline(body),
        Format::Binary => body.len() <= u64::MAX,
    }
}

/// The frame that carries `body`.
pub open spec fn framed(format: Format, body: Seq<u8>) -> Seq<u8> {
    match format {
        Format::Json => line_bytes(body),
        Format::Binary => field_bytes(body),
    }
}

/// Nothing is left to read in `b`: it is empty, or, where lines are read,
/// it is the one byte `0x0D` that a line ending in `0x0D 0x0A` starts with.
pub open spec fn spent(format: Format, b: Seq<u8>) -> bool {
    b.len() == 0 || (format == Format::Json && b == seq![0x0Du8])
}

/// Splits `b` into the body of its first frame and what follows that frame.
///
/// A line is whole when the byte that ends it has arrived; once the peer
/// has closed, what is left without that byte is the last line. A
/// length-prefixed frame is whole when all its bytes have arrived.
pub open spec fn take_frame(format: Format, b: Seq<u8>, closed: bool) -> Option<
    (Seq<u8>, Seq<u8>),
> {
    match format {
        Format::Json => match take_line(b) {
            Some(split) => Some(split),
            None => if closed && !spent(format, b) {
                Some((b, Seq::empty()))
            } else {
                None
            },
        },
        Format::Binary => take_field(b),
    }
}

/// The body of the frame that carries a request.
pub open spec fn request_body(format: Format, m: RequestModel) -> Seq<u8> {
    match format {
        Format::Json => json::request_text(m),
        Format::Binary => codec::request_bytes(m),
    }
}

/// The request that a body holds, if it holds one.
pub open spec fn read_request(format: Format, body: Seq<u8>) -> Option<RequestModel> {
    match format {
        Format::Json => json::read_request(body),
        Format::Binary => codec::parse_request(body),
    }
}

/// The body of the frame that carries a response.
pub open spec fn response_body(format: Format, m: ResponseModel) -> Seq<u8> {
    match format {
        Format::Json => json::response_text(m),
        Format::Binary => codec::response_bytes(m),
    }
}

/// The response that a body holds, if it holds one.
pub open spec fn read_response(format: Format, body: Seq<u8>) -> Option<ResponseModel> {
    match format {
        Format::Json => json::read_response(body),
        Format::Binary => codec::parse_response(body),
    }
}

/// The correlation id that can be told from a body that holds no message:
/// the first eight bytes of a binary body that is long enough, and none in
/// a line of JSON.
pub open spec fn leading_id(format: Format, body: Seq<u8>) -> Option<u64> {
    if format == Format::Binary && body.len() >= 8 {
        Some(u64_value(body))
    } else {
        None
    }
}

/// The transport after `bytes` have arrived. Bytes that arrive after the
/// peer has closed or the stream has failed are dropped.
pub open spec fn fed(t: TransportModel, bytes: Seq<u8>) -> TransportModel {
    if t.closed || t.broken {
        t
    } else {
        TransportModel { inbound: t.inbound + bytes, ..t }
    }
}

/// The next inbound frame, and the transport once it is taken.
///
/// A failed stream gives `Io`. Otherwise the first frame of the inbound
/// bytes is consumed, whatever its body holds, and what follows it stays.
/// Without a whole frame, the transport waits (`Ok(None)`) while the peer
/// may still send. Once the peer has closed, nothing left to read gives
/// `EndOfStream`, and a piece of a length-prefixed frame is dropped and
/// gives `Decode`.
pub open spec fn taken(t: TransportModel) -> (
    TransportModel,
    Result<Option<Seq<u8>>, TransportError>,
) {
    if t.broken {
        (t, Err(TransportError::Io))
    } else {
        match take_frame(t.format, t.inbound, t.closed) {
            Some((body, rest)) => (TransportModel { inbound: rest, ..t }, Ok(Some(body))),
            None => if !t.closed {
                (t, Ok(None))
            } else if spent(t.format, t.inbound) {
                (t, Err(TransportError::EndOfStream))
            } else {
                (TransportModel { inbound: Seq::empty(), ..t }, Err(TransportError::Decode(None)))
            },
        }
    }
}

/// What `receive` returns, and the transport that it leaves: the next
/// inbound frame is taken, and gives the request that its body holds, or
/// `Decode` where it holds none.
pub open spec fn received(t: TransportModel) -> (
    TransportModel,
    Result<Option<RequestModel>, TransportError>,
) {
    (
        taken(t).0,
        match taken(t).1 {
            Ok(Some(body)) => match read_request(t.format, body) {
                Some(request) => Ok(Some(request)),
                None => Err(TransportError::Decode(leading_id(t.format, body))),
            },
            Ok(None) => Ok(None),
            Err(e) => Err(e),
        },
    )
}

/// What `receive_response` returns, and the transport that it leaves: the
/// next inbound frame is taken, and gives the response that its body holds,
/// or `Decode` where it holds none.
pub open spec fn received_response(t: TransportModel) -> (
    TransportModel,
    Result<Option<ResponseModel>, TransportError>,
) {
    (
        taken(t).0,
        match taken(t).1 {
            Ok(Some(body)) => match read_response(t.format, body) {
                Some(response) => Ok(Some(response)),
                None => Err(TransportError::Decode(leading_id(t.format, body))),
            },
            Ok(None) => Ok(None),
            Err(e) => Err(e),
        },
    )
}

/// The transport with the frame of `body` behind its outbound bytes, or
/// unchanged with `Io` where the stream has failed.
pub open spec fn enqueued(t: TransportModel, body: Seq<u8>) -> (
    TransportModel,
    Result<(), TransportError>,
) {
    if t.broken {
        (t, Err(TransportError::Io))
    } else {
        (TransportModel { outbound: t.outbound + framed(t.format, body), ..t }, Ok(()))
    }
}

/// What `send` returns, and the transport that it leaves: on a failed
/// stream `Io` and no change, otherwise the frame of the response behind the
/// outbound bytes. In the JSON format that frame is the text that
/// `serde_json` writes for the response, then one byte `0x0A`.
pub open spec fn sent(t: TransportModel, response: ResponseModel) -> (
    TransportModel,
    Result<(), TransportError>,
) {
    enqueued(t, response_body(t.format, response))
}

/// What `send_request` returns, and the transport that it leaves.
pub open spec fn sent_request(t: TransportModel, request: RequestModel) -> (
    TransportModel,
    Result<(), TransportError>,
) {
    enqueued(t, request_body(t.format, request))
}

impl Transport {
    /// A transport of an open stream, with nothing in its buffers.
    pub fn new(format: Format) -> (t: Transport)
        ensures
            t@ == (TransportModel {
                format,
                inbound: Seq::empty(),
                outbound: Seq::empty(),
                closed: false,
                broken: false,
            }),
    {
        Transport {
            format,
            inbound: Vec::new(),
            outbound: Vec::new(),
            closed: false,
            broken: false,
        }
    }

    /// How messages are written and framed.
    pub fn format(&self) -> (format: Format)
        ensures
            format == self@.format,
    {
        self.format
    }

    /// Takes in bytes that have arrived from the peer.
    pub fn feed(&mut self, bytes: &[u8])
        ensures
            final(self)@ == fed(old(self)@, bytes@),
    {
        if !self.closed && !self.broken {
            put_bytes(&mut self.inbound, bytes);
        }
    }

    /// Notes that the peer has closed its side cleanly.
    pub fn close(&mut self)
        ensures
            final(self)@ == (TransportModel { closed: true, ..old(self)@ }),
    {
        self.closed = true;
    }

    /// Notes that the stream has failed.
    pub fn fail(&mut self)
        ensures
            final(self)@ == (TransportModel { broken: true, ..old(self)@ }),
    {
        self.broken = true;
    }

    /// Whether the stream has failed.
    pub fn is_broken(&self) -> (b: bool)
        ensures
            b == self@.broken,
    {
        self.broken
    }

    /// Where the first inbound frame lies: the start and the end of its
    /// body, and the end of the frame.
    fn locate(&self) -> (r: Option<(usize, usize, usize)>)
        ensures
            match r {
                Some((from, to, next)) => {
                    &&& from <= to <= next <= self.inbound@.len()
                    &&& take_frame(self.format, self.inbound@, self.closed) == Some(
                        (
                            self.inbound@.subrange(from as int, to as int),
                            self.inbound@.subrange(next as int, self.inbound@.len() as int),
                        ),
                    )
                },
                None => take_frame(self.format, self.inbound@, self.closed) is None,
            },
    {
        let all = self.inbound.as_slice();
        assert(all@.subrange(0, all@.len() as int) =~= all@);
        match self.format {
            Format::Binary => match find_field(all, 0) {
                Some(end) => Some((8, end, end)),
                None => None,
            },
            Format::Json => match find_line(all) {
                Some(end) => {
                    assert(end < all@.len() && all@.len() == all.len());
                    Some((0, end, end + 1))
                },
                None => {
                    let lone = all.len() == 1 && all[0] == 0x0D;
                    assert(lone <==> all@ =~= seq![0x0Du8]);
                    if self.closed && all.len() > 0 && !lone {
                        assert(all@.subrange(all@.len() as int, all@.len() as int) =~= Seq::<
                            u8,
                        >::empty());
                        Some((0, all.len(), all.len()))
                    } else {
                        None
                    }
                },
            },
        }
    }

    /// Takes the next inbound frame.
    fn take(&mut self) -> (r: Result<Option<Vec<u8>>, TransportError>)
        ensures
            final(self)@ == taken(old(self)@).0,
            match r {
                Ok(Some(body)) => taken(old(self)@).1 == Ok::<Option<Seq<u8>>, TransportError>(
                    Some(body@),
                ),
                Ok(None) => taken(old(self)@).1 == Ok::<Option<Seq<u8>>, TransportError>(None),
                Err(e) => taken(old(self)@).1 == Err::<Option<Seq<u8>>, TransportError>(e),
            },
    {
        if self.broken {
            return Err(TransportError::Io);
        }
        match self.locate() {
            Some((from, to, next)) => {
                let rest = self.inbound.split_off(next);
                let body = slice_to_vec(slice_subrange(self.inbound.as_slice(), from, to));
                assert(body@ =~= old(self).inbound@.subrange(from as int, to as int));
                self.inbound = rest;
                Ok(Some(body))
            },
            None => {
                let lone = self.format == Format::Json && self.inbound.len() == 1
                    && self.inbound[0] == 0x0D;
                assert(lone <==> self.format == Format::Json && self.inbound@ =~= seq![0x0Du8]);
                if !self.closed {
                    Ok(None)
                } else if self.inbound.len() == 0 || lone {
                    Err(TransportError::EndOfStream)
                } else {
                    self.inbound = Vec::new();
                    Err(TransportError::Decode(None))
                }
            },
        }
    }

    /// The correlation id that can be told from a body that holds no
    /// message.
    fn id_of(&self, body: &Vec<u8>) -> (id: Option<u64>)
        ensures
            id == leading_id(self@.format, body@),
    {
        match self.format {
            Format::Binary => {
                if body.len() >= 8 {
                    assert(body@.subrange(0, body@.len() as int) =~= body@);
                    Some(get_u64(body.as_slice(), 0))
                } else {
                    None
                }
            },
            Format::Json => None,
        }
    }

    /// Puts the frame of `body` behind the outbound bytes.
    fn enqueue(&mut self, body: &[u8]) -> (r: Result<(), TransportError>)
        ensures
            final(self)@ == enqueued(old(self)@, body@).0,
            r == enqueued(old(self)@, body@).1,
    {
        if self.broken {
            return Err(TransportError::Io);
        }
        match self.format {
            Format::Binary => put_field(&mut self.outbound, body),
            Format::Json => put_line(&mut self.outbound, body),
        }
        Ok(())
    }

    /// Produces the next inbound request.
    pub fn receive(&mut self) -> (r: Result<Option<Request>, TransportError>)
        ensures
            final(self)@ == received(old(self)@).0,
            match r {
                Ok(Some(request)) => received(old(self)@).1 == Ok::<
                    Option<RequestModel>,
                    TransportError,
                >(Some(request@)),
                Ok(None) => received(old(self)@).1 == Ok::<Option<RequestModel>, TransportError>(
                    None,
                ),
                Err(e) => received(old(self)@).1 == Err::<Option<RequestModel>, TransportError>(e),
            },
    {
        match self.take() {
            Ok(Some(body)) => {
                let decoded: Result<Request, DecodeError> = match self.format {
                    Format::Binary => codec::decode_request(body.as_slice()),
                    Format::Json => json::decode_request(body.as_slice()),
                };
                match decoded {
                    Ok(request) => Ok(Some(request)),
                    Err(_) => Err(TransportError::Decode(self.id_of(&body))),
                }
            },
            Ok(None) => Ok(None),
            Err(e) => Err(e),
        }
    }

    /// Produces the next inbound response.
    pub fn receive_response(&mut self) -> (r: Result<Option<Response>, TransportError>)
        ensures
            final(self)@ == received_response(old(self)@).0,
            match r {
                Ok(Some(response)) => received_response(old(self)@).1 == Ok::<
                    Option<ResponseModel>,
                    TransportError,
                >(Some(response@)),
                Ok(None) => received_response(old(self)@).1 == Ok::<
                    Option<ResponseModel>,
                    TransportError,
                >(None),
                Err(e) => received_response(old(self)@).1 == Err::<
                    Option<ResponseModel>,
                    TransportError,
                >(e),
            },
    {
        match self.take() {
            Ok(Some(body)) => {
                let decoded: Result<Response, DecodeError> = match self.format {
                    Format::Binary => codec::decode_response(body.as_slice()),
                    Format::Json => json::decode_response(body.as_slice()),
                };
                match decoded {
                    Ok(response) => Ok(Some(response)),
                    Err(_) => Err(TransportError::Decode(self.id_of(&body))),
                }
            },
            Ok(None) => Ok(None),
            Err(e) => Err(e),
        }
    }

    /// Enqueues a response for transmission. Its frame is one that the peer
    /// takes whole, and the body of that frame reads back as the response.
    pub fn send(&mut self, response: &Response) -> (r: Result<(), TransportError>)
        ensures
            final(self)@ == sent(old(self)@, response@).0,
            r == sent(old(self)@, response@).1,
            fits(old(self)@.format, response_body(old(self)@.format, response@)),
            read_response(old(self)@.format, response_body(old(self)@.format, response@))
                == Some(response@),
    {
        let body = match self.format {
            Format::Binary => codec::encode_response(response),
            Format::Json => json::encode_response(response),
        };
        self.enqueue(body.as_slice())
    }

    /// Enqueues a request for transmission. Its frame is one that the peer
    /// takes whole, and the body of that frame reads back as the request.
    pub fn send_request(&mut self, request: &Request) -> (r: Result<(), TransportError>)
        ensures
            final(self)@ == sent_request(old(self)@, request@).0,
            r == sent_request(old(self)@, request@).1,
            fits(old(self)@.format, request_body(old(self)@.format, request@)),
            read_request(old(self)@.format, request_body(old(self)@.format, request@))
                == Some(request@),
    {
        let body = match self.format {
            Format::Binary => codec::encode_request(request),
            Format::Json => json::encode_request(request),
        };
        self.enqueue(body.as_slice())
    }

    /// Hands out the bytes that wait to be written to the peer, and keeps
    /// none of them.
    pub fn take_outbound(&mut self) -> (bytes: Vec<u8>)
        ensures
            bytes@ == old(self)@.outbound,
            final(self)@ == (TransportModel { outbound: Seq::empty(), ..old(self)@ }),
    {
        let mut bytes: Vec<u8> = Vec::new();
        std::mem::swap(&mut bytes, &mut self.outbound);
        bytes
    }
}

/// The frames of `bodies`, one behind the other.
pub open spec fn framed_all(format: Format, bodies: Seq<Seq<u8>>) -> Seq<u8>
    decreases bodies.len(),
{
    if bodies.len() == 0 {
        Seq::empty()
    } else {
        framed(format, bodies[0]) + framed_all(format, bodies.drop_first())
    }
}

/// The transport after `n` frames have been taken from it.
pub open spec fn after_takes(t: TransportModel, n: nat) -> TransportModel
    decreases n,
{
    if n == 0 {
        t
    } else {
        after_takes(taken(t).0, (n - 1) as nat)
    }
}

/// A frame is taken whole, whatever follows it: the body comes out as it
/// went in, and what follows stays in place.
pub proof fn law_frame_is_taken(t: TransportModel, body: Seq<u8>, rest: Seq<u8>)
    requires
        !t.broken,
        fits(t.format, body),
        t.inbound == framed(t.format, body) + rest,
    ensures
        taken(t) == (
            TransportModel { inbound: rest, ..t },
            Ok::<Option<Seq<u8>>, TransportError>(Some(body)),
        ),
{
    match t.format {
        Format::Json => lemma_take_line_of_bytes(body, rest),
        Format::Binary => lemma_take_field_of_bytes(body, rest),
    }
}

/// Frames that were written one behind the other are taken in that order,
/// one at a time, none lost and none twice; then nothing is left, and once
/// the peer has closed the transport reports the end of the stream.
pub proof fn law_frames_are_taken_in_order(t: TransportModel, bodies: Seq<Seq<u8>>, k: int)
    requires
        !t.broken,
        forall|i: int| 0 <= i < bodies.len() ==> fits(t.format, #[trigger] bodies[i]),
        t.inbound == framed_all(t.format, bodies),
        0 <= k <= bodies.len(),
    ensures
        k < bodies.len() ==> taken(after_takes(t, k as nat)).1 == Ok::<
            Option<Seq<u8>>,
            TransportError,
        >(Some(bodies[k])),
        after_takes(t, bodies.len()).inbound.len() == 0,
        after_takes(t, bodies.len()).closed == t.closed,
        t.closed ==> taken(after_takes(t, bodies.len())).1 == Err::<
            Option<Seq<u8>>,
            TransportError,
        >(TransportError::EndOfStream),
        !t.closed ==> taken(after_takes(t, bodies.len())).1 == Ok::<
            Option<Seq<u8>>,
            TransportError,
        >(None),
    decreases bodies.len(),
{
    if bodies.len() == 0 {
        assert(t.inbound.len() == 0);
        assert(take_frame(t.format, t.inbound, t.closed) is None);
    } else {
        let tail = bodies.drop_first();
        law_frame_is_taken(t, bodies[0], framed_all(t.format, tail));
        let next = taken(t).0;
        assert forall|i: int| 0 <= i < tail.len() implies fits(t.format, #[trigger] tail[i]) by {
            assert(tail[i] == bodies[i + 1]);
        }
        assert(after_takes(t, bodies.len()) == after_takes(next, tail.len()));
        if 0 < k < bodies.len() {
            law_frames_are_taken_in_order(next, tail, k - 1);
            assert(after_takes(t, k as nat) == after_takes(next, (k - 1) as nat));
            assert(tail[k - 1] == bodies[k]);
        } else {
            law_frames_are_taken_in_order(next, tail, 0);
        }
    }
}

/// The transport after the responses have been sent, one after the other.
pub open spec fn sent_all(t: TransportModel, responses: Seq<ResponseModel>) -> TransportModel
    decreases responses.len(),
{
    if responses.len() == 0 {
        t
    } else {
        sent_all(sent(t, responses[0]).0, responses.drop_first())
    }
}

/// The bodies of the frames that carry the responses.
pub open spec fn response_bodies(format: Format, responses: Seq<ResponseModel>) -> Seq<Seq<u8>> {
    responses.map_values(|r: ResponseModel| response_body(format, r))
}

/// Responses that are sent one after the other go out as their frames, one
/// behind the other in the order of sending, behind what waited already.
pub proof fn law_sends_queue_in_order(t: TransportModel, responses: Seq<ResponseModel>)
    requires
        !t.broken,
    ensures
        sent_all(t, responses).outbound == t.outbound + framed_all(
            t.format,
            response_bodies(t.format, responses),
        ),
        sent_all(t, responses) == (TransportModel {
            outbound: sent_all(t, responses).outbound,
            ..t
        }),
    decreases responses.len(),
{
    let bodies = response_bodies(t.format, responses);
    if responses.len() == 0 {
        assert(t.outbound + framed_all(t.format, bodies) =~= t.outbound);
    } else {
        let next = sent(t, responses[0]).0;
        law_sends_queue_in_order(next, responses.drop_first());
        assert(bodies.drop_first() =~= response_bodies(t.format, responses.drop_first()));
        assert(t.outbound + framed(t.format, bodies[0]) + framed_all(t.format, bodies.drop_first())
            =~= t.outbound + framed_all(t.format, bodies));
    }
}

/// A request that the peer sends arrives as what its frame reads as: fed to
/// a working transport of the same format that holds no other inbound
/// bytes, the frame is taken whole, and `receive` produces the request that
/// its body holds.
pub proof fn law_sent_request_is_received(t: TransportModel, request: RequestModel)
    requires
        !t.closed,
        !t.broken,
        t.inbound.len() == 0,
        fits(t.format, request_body(t.format, request)),
    ensures
        received(fed(t, framed(t.format, request_body(t.format, request)))).0 == t,
        received(fed(t, framed(t.format, request_body(t.format, request)))).1 == (match read_request(
            t.format,
            request_body(t.format, request),
        ) {
            Some(read) => Ok::<Option<RequestModel>, TransportError>(Some(read)),
            None => Err::<Option<RequestModel>, TransportError>(
                TransportError::Decode(leading_id(t.format, request_body(t.format, request))),
            ),
        }),
        t.format == Format::Binary && request.wf() ==> read_request(
            t.format,
            request_body(t.format, request),
        ) == Some(request),
{
    let body = request_body(t.format, request);
    let arrived = fed(t, framed(t.format, body));
    assert(arrived.inbound =~= framed(t.format, body) + Seq::<u8>::empty());
    law_frame_is_taken(arrived, body, Seq::empty());
    assert(t.inbound =~= Seq::<u8>::empty());
    if t.format == Format::Binary && request.wf() {
        codec::lemma_parse_request_of_bytes(request);
    }
}

/// A response that is sent goes out as one frame behind what waits
/// already, and the peer takes it whole; in the binary format its body
/// decodes to the response.
pub proof fn law_sent_response_is_readable(t: TransportModel, response: ResponseModel)
    requires
        !t.broken,
        fits(t.format, response_body(t.format, response)),
    ensures
        sent(t, response).1 is Ok,
        sent(t, response).0.outbound == t.outbound + framed(
            t.format,
            response_body(t.format, response),
        ),
        take_frame(t.format, framed(t.format, response_body(t.format, response)), false) == Some(
            (response_body(t.format, response), Seq::<u8>::empty()),
        ),
        t.format == Format::Binary ==> read_response(t.format, response_body(t.format, response))
            == Some(response),
{
    let body = response_body(t.format, response);
    assert(framed(t.format, body) + Seq::<u8>::empty() =~= framed(t.format, body));
    match t.format {
        Format::Json => lemma_take_line_of_bytes(body, Seq::empty()),
        Format::Binary => {
            lemma_take_field_of_bytes(body, Seq::empty());
            codec::lemma_parse_response_of_bytes(response);
        },
    }
}

/// A frame whose body holds no request gives `Decode` and costs only
/// itself: the bytes behind it stay in place, the outbound bytes and the
/// state of the stream are untouched, and the transport goes on to the next
/// frame.
pub proof fn law_malformed_frame_is_skipped(t: TransportModel, body: Seq<u8>, rest: Seq<u8>)
    requires
        !t.broken,
        fits(t.format, body),
        t.inbound == framed(t.format, body) + rest,
        read_request(t.format, body) is None,
    ensures
        received(t) == (
            TransportModel { inbound: rest, ..t },
            Err::<Option<RequestModel>, TransportError>(
                TransportError::Decode(leading_id(t.format, body)),
            ),
        ),
{
    law_frame_is_taken(t, body, rest);
}

/// Puts `body` into a frame.
pub fn frame(format: Format, body: &[u8]) -> (bytes: Vec<u8>)
    ensures
        bytes@ == framed(format, body@),
{
    let mut out: Vec<u8> = Vec::new();
    match format {
        Format::Binary => put_field(&mut out, body),
        Format::Json => put_line(&mut out, body),
    }
    assert(out@ =~= framed(format, body@));
    out
}

} // verus!
