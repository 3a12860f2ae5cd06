//! One connection: its transport, the requests in flight, and its phase.
//!
//! A connection is `Open` while it admits requests, `Closing` while it
//! admits none and waits for those in flight, and `Closed` at the end. The
//! program that owns the socket drives it: it feeds bytes, polls for
//! requests, completes them in any order, and writes out what the transport
//! has to send.

use vstd::prelude::*;
use crate::dispatch::{answer, Dispatcher, Format};
use crate::error::{ErrorKind, TransportError};
use crate::message::{Request, RequestModel, Response, ResponseModel};
use crate::service::Service;
use crate::transport::{fed, received, sent, Transport, TransportModel};

verus! {

/// Where a connection stands in its life.
#[derive(Clone, Copy, Debug, PartialEq, Eq, Structural)]
pub enum Phase {
    /// Requests are admitted.
    Open,
    /// No request is admitted any more; some are still in flight.
    Closing,
    /// Nothing is admitted and nothing is in flight. This is the end.
    Closed,
}

/// What one poll of a connection found.
#[derive(Clone, Copy, Debug, PartialEq, Eq, Structural)]
pub enum Polled {
    /// A request arrived and is now in flight under this correlation id.
    Admitted(u64),
    /// A request arrived under a correlation id that is in flight already.
    /// It was dropped: a response to it could not be told from the other.
    Duplicate(u64),
    /// A frame arrived that holds no request. Where a correlation id could
    /// be told from it and nothing was in flight under that id, it was
    /// answered under that id with `Decode`, and this is the id; otherwise
    /// it was dropped.
    Malformed(Option<u64>),
    /// No whole frame has arrived yet.
    Idle,
    /// The connection admits no more requests.
    Ended,
}

/// What a [`Connection`] stands for.
pub struct ConnectionModel {
    pub transport: TransportModel,
    pub phase: Phase,
    /// The requests in flight, in the order in which they arrived.
    pub pending: Seq<RequestModel>,
}

impl ConnectionModel {
    /// A request is in flight under `id`.
    pub open spec fn holds(self, id: u64) -> bool {
        exists|i: int| 0 <= i < self.pending.len() && (#[trigger] self.pending[i]).id == id
    }

    /// The place of the request in flight under `id`.
    pub open spec fn slot(self, id: u64) -> int {
        choose|i: int| 0 <= i < self.pending.len() && (#[trigger] self.pending[i]).id == id
    }

    /// The request in flight under `id`.
    pub open spec fn request(self, id: u64) -> RequestModel {
        self.pending[self.slot(id)]
    }

    /// No two requests in flight share a correlation id; a closing
    /// connection has requests in flight and a closed one has none; a
    /// connection whose stream has failed is closed.
    pub open spec fn wf(self) -> bool {
        &&& forall|i: int, j: int|
            0 <= i < j < self.pending.len() ==> (#[trigger] self.pending[i]).id != (
            #[trigger] self.pending[j]).id
        &&& self.phase == Phase::Closed ==> self.pending.len() == 0
        &&& self.phase == Phase::Closing ==> self.pending.len() > 0
        &&& self.transport.broken ==> self.phase == Phase::Closed
    }
}

/// The connection once it admits no more requests: closing while requests
/// are in flight, closed otherwise.
pub open spec fn ended(c: ConnectionModel) -> ConnectionModel {
    ConnectionModel {
        phase: if c.pending.len() == 0 {
            Phase::Closed
        } else {
            Phase::Closing
        },
        ..c
    }
}

/// The connection closed at once: the stream counts as failed and the
/// requests in flight are abandoned.
pub open spec fn aborted(c: ConnectionModel) -> ConnectionModel {
    ConnectionModel {
        transport: TransportModel { broken: true, ..c.transport },
        phase: Phase::Closed,
        pending: Seq::empty(),
    }
}

/// The response to a frame that starts with `id` and holds no request.
pub open spec fn undecoded(id: u64) -> ResponseModel {
    ResponseModel { id, outcome: Err(ErrorKind::Decode) }
}

/// What `poll` returns, and the connection that it leaves.
///
/// Only an open connection reads. A request under a fresh correlation id
/// joins those in flight; one under an id in flight is dropped. A frame
/// that holds no request is answered with `Decode` where a correlation id
/// can be told from it and nothing is in flight under that id, so that no
/// request in flight gets a second response; otherwise it is dropped. When
/// the peer has closed and nothing is left to read, the connection ends.
pub open spec fn polled(c: ConnectionModel) -> (ConnectionModel, Polled) {
    if c.phase != Phase::Open {
        (c, Polled::Ended)
    } else {
        let (transport, got) = received(c.transport);
        let read = ConnectionModel { transport, ..c };
        match got {
            Ok(Some(request)) => if c.holds(request.id) {
                (read, Polled::Duplicate(request.id))
            } else {
                (
                    ConnectionModel { pending: c.pending.push(request), ..read },
                    Polled::Admitted(request.id),
                )
            },
            Ok(None) => (read, Polled::Idle),
            Err(TransportError::Decode(Some(id))) => if c.holds(id) {
                (read, Polled::Malformed(None))
            } else {
                (
                    ConnectionModel { transport: sent(transport, undecoded(id)).0, ..c },
                    Polled::Malformed(Some(id)),
                )
            },
            Err(TransportError::Decode(None)) => (read, Polled::Malformed(None)),
            Err(_) => (ended(read), Polled::Ended),
        }
    }
}

/// What `complete` returns, and the connection that it leaves.
///
/// The request in flight under `id` leaves, its response is what the
/// dispatcher answers, and that response is enqueued on the transport. A
/// closing connection closes with its last request. Where nothing is in
/// flight under `id`, nothing happens.
pub open spec fn completed<S: Service>(
    c: ConnectionModel,
    service: &S,
    format: Format,
    id: u64,
) -> (ConnectionModel, Option<ResponseModel>) {
    if !c.holds(id) {
        (c, None)
    } else {
        let response = answer(service, format, c.request(id));
        let pending = c.pending.remove(c.slot(id));
        (
            ConnectionModel {
                transport: sent(c.transport, response).0,
                phase: if c.phase == Phase::Closing && pending.len() == 0 {
                    Phase::Closed
                } else {
                    c.phase
                },
                pending,
            },
            Some(response),
        )
    }
}

/// The models of the requests in `pending`.
pub open spec fn models(pending: Seq<Request>) -> Seq<RequestModel> {
    pending.map_values(|r: Request| r@)
}

/// One connection of the server.
#[derive(Debug)]
pub struct Connection {
    transport: Transport,
    phase: Phase,
    pending: Vec<Request>,
}

impl View for Connection {
    type V = ConnectionModel;

    closed spec fn view(&self) -> ConnectionModel {
        ConnectionModel {
            transport: self.transport@,
            phase: self.phase,
            pending: models(self.pending@),
        }
    }
}

impl Connection {
    /// An open connection over a working stream, with nothing in flight,
    /// whose messages travel in `format`.
    pub fn new(format: Format) -> (c: Connection)
        ensures
            c@.wf(),
            c@ == (ConnectionModel {
                transport: TransportModel {
                    format,
                    inbound: Seq::empty(),
                    outbound: Seq::empty(),
                    closed: false,
                    broken: false,
                },
                phase: Phase::Open,
                pending: Seq::empty(),
            }),
    {
        let c = Connection {
            transport: Transport::new(format),
            phase: Phase::Open,
            pending: Vec::new(),
        };
        assert(models(c.pending@) =~= Seq::empty());
        c
    }

    /// The phase of the connection.
    pub fn phase(&self) -> (p: Phase)
        ensures
            p == self@.phase,
    {
        self.phase
    }

    /// The number of requests in flight.
    pub fn in_flight(&self) -> (n: usize)
        ensures
            n == self@.pending.len(),
    {
        self.pending.len()
    }

    /// Takes in bytes that have arrived from the peer.
    pub fn feed(&mut self, bytes: &[u8])
        requires
            old(self)@.wf(),
        ensures
            final(self)@.wf(),
            final(self)@ == (ConnectionModel {
                transport: fed(old(self)@.transport, bytes@),
                ..old(self)@
            }),
    {
        self.transport.feed(bytes);
    }

    /// Notes that the peer has closed its side cleanly. The connection goes
    /// on until what has arrived is read.
    pub fn peer_closed(&mut self)
        requires
            old(self)@.wf(),
        ensures
            final(self)@.wf(),
            final(self)@ == (ConnectionModel {
                transport: TransportModel { closed: true, ..old(self)@.transport },
                ..old(self)@
            }),
    {
        self.transport.close();
    }

    /// Stops admitting requests. Those in flight can still be completed.
    pub fn shutdown(&mut self)
        requires
            old(self)@.wf(),
        ensures
            final(self)@.wf(),
            final(self)@ == ended(old(self)@),
    {
        if self.pending.len() == 0 {
            self.phase = Phase::Closed;
        } else {
            self.phase = Phase::Closing;
        }
    }

    /// Closes the connection at once, because its stream has failed or
    /// because it has taken too long to drain. The requests in flight are
    /// abandoned and nothing more is sent.
    pub fn abort(&mut self)
        ensures
            final(self)@.wf(),
            final(self)@ == aborted(old(self)@),
    {
        self.transport.fail();
        self.phase = Phase::Closed;
        self.pending = Vec::new();
        assert(models(self.pending@) =~= Seq::empty());
    }

    /// Hands out the bytes that wait to be written to the peer, and keeps
    /// none of them.
    pub fn take_outbound(&mut self) -> (bytes: Vec<u8>)
        requires
            old(self)@.wf(),
        ensures
            final(self)@.wf(),
            bytes@ == old(self)@.transport.outbound,
            final(self)@ == (ConnectionModel {
                transport: TransportModel { outbound: Seq::empty(), ..old(self)@.transport },
                ..old(self)@
            }),
    {
        self.transport.take_outbound()
    }

    /// The place of the request in flight under `id`, if there is one.
    fn find(&self, id: u64) -> (r: Option<usize>)
        ensures
            match r {
                Some(i) => i < self.pending@.len() && self.pending@[i as int].id == id,
                None => forall|j: int| 0 <= j < self.pending@.len() ==> self.pending@[j].id != id,
            },
    {
        let mut i: usize = 0;
        while i < self.pending.len()
            invariant
                i <= self.pending@.len(),
                forall|j: int| 0 <= j < i ==> self.pending@[j].id != id,
            decreases self.pending@.len() - i,
        {
            if self.pending[i].id == id {
                return Some(i);
            }
            i += 1;
        }
        None
    }

    /// Reads the next request, if one has arrived, and puts it in flight.
    pub fn poll(&mut self) -> (r: Polled)
        requires
            old(self)@.wf(),
        ensures
            final(self)@.wf(),
            final(self)@ == polled(old(self)@).0,
            r == polled(old(self)@).1,
    {
        if self.phase != Phase::Open {
            return Polled::Ended;
        }
        match self.transport.receive() {
            Ok(Some(request)) => {
                let id = request.id;
                let ghost before = self.pending@;
                match self.find(id) {
                    Some(i) => {
                        assert(models(before)[i as int].id == id);
                        Polled::Duplicate(id)
                    },
                    None => {
                        assert(!old(self)@.holds(id)) by {
                            assert(forall|j: int|
                                0 <= j < before.len() ==> models(before)[j].id == before[j].id);
                        }
                        self.pending.push(request);
                        assert(models(self.pending@) =~= models(before).push(request@));
                        Polled::Admitted(id)
                    },
                }
            },
            Ok(None) => Polled::Idle,
            Err(TransportError::Decode(Some(id))) => {
                let ghost before = self.pending@;
                match self.find(id) {
                    Some(i) => {
                        assert(models(before)[i as int].id == id);
                        Polled::Malformed(None)
                    },
                    None => {
                        assert(!old(self)@.holds(id)) by {
                            assert(forall|j: int|
                                0 <= j < before.len() ==> models(before)[j].id == before[j].id);
                        }
                        let _ = self.transport.send(&Response::failure(id, ErrorKind::Decode));
                        Polled::Malformed(Some(id))
                    },
                }
            },
            Err(TransportError::Decode(None)) => Polled::Malformed(None),
            Err(_) => {
                if self.pending.len() == 0 {
                    self.phase = Phase::Closed;
                } else {
                    self.phase = Phase::Closing;
                }
                Polled::Ended
            },
        }
    }

    /// Completes the request in flight under `id`: runs it through the
    /// dispatcher, enqueues the response on the transport, and hands the
    /// response out. Requests may be completed in any order.
    pub fn complete<S: Service>(&mut self, dispatcher: &Dispatcher<S>, id: u64) -> (r: Option<
        Response,
    >)
        requires
            old(self)@.wf(),
        ensures
            final(self)@.wf(),
            final(self)@ == completed(old(self)@, &dispatcher.service, dispatcher.format, id).0,
            match r {
                Some(response) => completed(
                    old(self)@,
                    &dispatcher.service,
                    dispatcher.format,
                    id,
                ).1 == Some(response@),
                None => completed(old(self)@, &dispatcher.service, dispatcher.format, id).1
                    is None,
            },
    {
        let ghost before = self.pending@;
        assert(forall|j: int| 0 <= j < before.len() ==> models(before)[j].id == before[j].id);
        match self.find(id) {
            None => None,
            Some(i) => {
                assert(models(before)[i as int].id == id);
                assert(old(self)@.slot(id) == i);
                let request = self.pending.remove(i);
                assert(models(self.pending@) =~= models(before).remove(i as int));
                let response = dispatcher.dispatch(&request);
                let _ = self.transport.send(&response);
                if self.phase == Phase::Closing && self.pending.len() == 0 {
                    self.phase = Phase::Closed;
                }
                Some(response)
            },
        }
    }
}

/// Completing the requests under the ids of `order`, one after the other:
/// the connection at the end, and the responses in the order in which they
/// were produced.
pub open spec fn drained<S: Service>(
    c: ConnectionModel,
    service: &S,
    format: Format,
    order: Seq<u64>,
) -> (ConnectionModel, Seq<ResponseModel>)
    decreases order.len(),
{
    if order.len() == 0 {
        (c, Seq::empty())
    } else {
        let (next, response) = completed(c, service, format, order[0]);
        let (last, responses) = drained(next, service, format, order.drop_first());
        (
            last,
            match response {
                Some(r) => seq![r] + responses,
                None => responses,
            },
        )
    }
}

/// Completing one request in flight takes that request out and leaves the
/// others as they are.
proof fn lemma_completed_one<S: Service>(
    c: ConnectionModel,
    service: &S,
    format: Format,
    id: u64,
)
    requires
        c.wf(),
        c.holds(id),
    ensures
        ({
            let (next, response) = completed(c, service, format, id);
            &&& next.wf()
            &&& response == Some(answer(service, format, c.request(id)))
            &&& c.request(id).id == id
            &&& next.pending.len() == c.pending.len() - 1
            &&& next.phase == if c.phase == Phase::Closing && next.pending.len() == 0 {
                Phase::Closed
            } else {
                c.phase
            }
            &&& forall|other: u64| next.holds(other) <==> c.holds(other) && other != id
            &&& forall|other: u64|
                c.holds(other) && other != id ==> next.request(other) == c.request(other)
        }),
{
    let at = c.slot(id);
    let next = completed(c, service, format, id).0;
    assert(next.pending =~= c.pending.remove(at));
    assert forall|j: int| 0 <= j < next.pending.len() implies #[trigger] next.pending[j]
        == c.pending[if j < at {
        j
    } else {
        j + 1
    }] by {}
    assert forall|other: u64| next.holds(other) implies c.holds(other) && other != id by {
        let j = next.slot(other);
        let i = if j < at {
            j
        } else {
            j + 1
        };
        assert(c.pending[i].id == other);
    }
    assert forall|other: u64| c.holds(other) && other != id implies next.holds(other)
        && next.request(other) == c.request(other) by {
        let i = c.slot(other);
        let j = if i < at {
            i
        } else {
            i - 1
        };
        assert(next.pending[j].id == other);
        let k = next.slot(other);
        let back = if k < at {
            k
        } else {
            k + 1
        };
        assert(c.pending[back].id == other);
        assert(back == i);
    }
}

/// Requests in flight under distinct correlation ids can be completed in
/// any order: every one of them gets exactly one response, the response
/// carries the correlation id of its request and is what the dispatcher
/// answers to that request, and the requests that were not completed stay
/// in flight. A closing connection is closed once none is left.
pub proof fn law_responses_match_requests<S: Service>(
    c: ConnectionModel,
    service: &S,
    format: Format,
    order: Seq<u64>,
)
    requires
        c.wf(),
        order.no_duplicates(),
        forall|k: int| 0 <= k < order.len() ==> c.holds(#[trigger] order[k]),
    ensures
        ({
            let (last, responses) = drained(c, service, format, order);
            &&& last.wf()
            &&& responses.len() == order.len()
            &&& forall|k: int|
                0 <= k < order.len() ==> (#[trigger] responses[k]).id == order[k] && responses[k]
                    == answer(service, format, c.request(order[k]))
            &&& forall|id: u64| last.holds(id) <==> c.holds(id) && !order.contains(id)
            &&& last.pending.len() == c.pending.len() - order.len()
            &&& last.phase == if c.phase == Phase::Closing && last.pending.len() == 0 {
                Phase::Closed
            } else {
                c.phase
            }
        }),
    decreases order.len(),
{
    if order.len() > 0 {
        let first = order[0];
        let rest = order.drop_first();
        let (next, response) = completed(c, service, format, first);
        lemma_completed_one(c, service, format, first);
        assert forall|k: int| 0 <= k < rest.len() implies next.holds(#[trigger] rest[k]) by {
            assert(rest[k] == order[k + 1]);
            assert(c.holds(order[k + 1]));
        }
        assert(rest.no_duplicates()) by {
            assert forall|a: int, b: int| 0 <= a < rest.len() && 0 <= b < rest.len() && a != b
                implies rest[a] != rest[b] by {
                assert(rest[a] == order[a + 1] && rest[b] == order[b + 1]);
            }
        }
        law_responses_match_requests(next, service, format, rest);
        let (last, tail) = drained(next, service, format, rest);
        let responses = drained(c, service, format, order).1;
        assert(responses =~= seq![response.unwrap()] + tail);
        assert forall|k: int| 0 <= k < order.len() implies (#[trigger] responses[k]).id
            == order[k] && responses[k] == answer(service, format, c.request(order[k])) by {
            if k > 0 {
                assert(responses[k] == tail[k - 1]);
                assert(rest[k - 1] == order[k]);
                assert(order[k] != first);
            }
        }
        assert forall|id: u64| last.holds(id) <==> c.holds(id) && !order.contains(id) by {
            if order.contains(id) && id != first {
                let k = choose|k: int| 0 <= k < order.len() && order[k] == id;
                assert(rest[k - 1] == id);
            }
            if rest.contains(id) {
                let k = choose|k: int| 0 <= k < rest.len() && rest[k] == id;
                assert(order[k + 1] == id);
            }
        }
    }
}

/// Failures that concern one request leave the connection open. A frame
/// that holds no request puts nothing in flight and takes nothing out; a
/// request can be completed whatever its answer is, an error included, and
/// the connection then still admits requests.
pub proof fn law_request_failures_keep_connection_open<S: Service>(
    c: ConnectionModel,
    service: &S,
    format: Format,
    id: u64,
)
    requires
        c.wf(),
        c.phase == Phase::Open,
    ensures
        polled(c).1 is Malformed ==> polled(c).0.phase == Phase::Open && polled(c).0.pending
            == c.pending && !polled(c).0.transport.broken,
        completed(c, service, format, id).0.phase == Phase::Open,
{
}

/// A connection that is not open admits nothing, and a connection that has
/// been told to stop is not open: it closes with its last request in
/// flight, or at once where it is aborted.
pub proof fn law_shutdown_admits_nothing(c: ConnectionModel)
    requires
        c.wf(),
    ensures
        ended(c).wf(),
        ended(c).phase != Phase::Open,
        polled(ended(c)) == (ended(c), Polled::Ended),
        aborted(c).wf(),
        aborted(c).phase == Phase::Closed,
        aborted(c).pending.len() == 0,
        polled(aborted(c)) == (aborted(c), Polled::Ended),
{
}

} // verus!
