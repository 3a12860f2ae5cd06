//! The accepting endpoint: when connections are admitted, and how the
//! server comes to a stop.
//!
//! The server is a state machine. The program that owns the listening
//! socket reports what happens (the endpoint is bound, a connection comes
//! in, a connection has closed, a shutdown is asked for, time passes) and
//! does what the machine answers. Time is a count of milliseconds on a
//! clock that does not go back.

use vstd::prelude::*;
use crate::error::BindError;

verus! {

/// Where the server stands in its life.
#[derive(Clone, Copy, Debug, PartialEq, Eq, Structural)]
pub enum Stage {
    /// The listening endpoint is not bound yet.
    Starting,
    /// Connections are admitted.
    Accepting,
    /// A shutdown is under way: no connection is admitted, and those that
    /// live have until the deadline to finish.
    Draining,
    /// The server has stopped. This is the end.
    Stopped,
    /// The listening endpoint could not be bound. This is the end.
    Failed,
}

/// What the program reports to the server.
#[derive(Clone, Copy, Debug, PartialEq, Eq, Structural)]
pub enum Event {
    /// The listening endpoint is bound.
    Bound,
    /// The listening endpoint could not be bound.
    BindFailed,
    /// A connection has come in.
    Incoming,
    /// A connection that was admitted has closed.
    ConnectionClosed,
    /// A shutdown is asked for, at the time `now`.
    Shutdown { now: u64 },
    /// The time is `now`.
    Tick { now: u64 },
}

/// What the server tells the program to do.
#[derive(Clone, Copy, Debug, PartialEq, Eq, Structural)]
pub enum Action {
    /// Serve the connection that has come in.
    Admit,
    /// Close the connection that has come in without serving it.
    Refuse,
    /// Stop listening, tell every connection to shut down, and report the
    /// time until `deadline` has passed.
    Drain { deadline: u64 },
    /// Stop listening and close every connection at once.
    ForceClose,
    /// Stop listening; no connection is left.
    Stop,
    /// Give up and report the failure to the caller.
    Fatal(BindError),
    /// Carry on.
    Nothing,
}

/// What a [`Server`] stands for.
pub struct ServerModel {
    pub stage: Stage,
    /// The number of connections that were admitted and have not closed.
    pub active: nat,
    /// The milliseconds that connections are given to finish after a
    /// shutdown is asked for. With none, they are closed at once.
    pub drain_timeout: u64,
    /// While draining: the time at which the connections that still live
    /// are closed.
    pub deadline: u64,
}

impl ServerModel {
    /// A draining server has connections to wait for; a server that has not
    /// started or has come to its end has none; the count fits its type.
    pub open spec fn wf(self) -> bool {
        &&& self.active <= u64::MAX
        &&& self.stage == Stage::Draining ==> self.active > 0
        &&& self.stage == Stage::Starting || self.stage == Stage::Stopped || self.stage
            == Stage::Failed ==> self.active == 0
    }
}

/// The time `timeout` milliseconds after `now`, or the end of time where
/// that lies beyond it.
pub open spec fn deadline_after(now: u64, timeout: u64) -> u64 {
    if now + timeout > u64::MAX {
        u64::MAX
    } else {
        (now + timeout) as u64
    }
}

/// The server after an event, and what it tells the program to do.
///
/// Binding decides between accepting and failing for good. A connection is
/// admitted while the server accepts, and refused otherwise. A shutdown
/// stops the server at once where no connection lives or no time is given
/// to drain, and otherwise starts draining. Draining ends when the last
/// connection has closed or when the deadline has passed, whichever comes
/// first.
pub open spec fn next(s: ServerModel, event: Event) -> (ServerModel, Action) {
    match event {
        Event::Bound => if s.stage == Stage::Starting {
            (ServerModel { stage: Stage::Accepting, ..s }, Action::Nothing)
        } else {
            (s, Action::Nothing)
        },
        Event::BindFailed => if s.stage == Stage::Starting {
            (ServerModel { stage: Stage::Failed, ..s }, Action::Fatal(BindError {  }))
        } else {
            (s, Action::Nothing)
        },
        Event::Incoming => if s.stage == Stage::Accepting && s.active < u64::MAX {
            (ServerModel { active: s.active + 1, ..s }, Action::Admit)
        } else {
            (s, Action::Refuse)
        },
        Event::ConnectionClosed => if s.active == 0 {
            (s, Action::Nothing)
        } else if s.stage == Stage::Draining && s.active == 1 {
            (ServerModel { stage: Stage::Stopped, active: 0, ..s }, Action::Stop)
        } else {
            (ServerModel { active: (s.active - 1) as nat, ..s }, Action::Nothing)
        },
        Event::Shutdown { now } => if s.stage == Stage::Starting || s.stage == Stage::Accepting {
            if s.active == 0 {
                (ServerModel { stage: Stage::Stopped, ..s }, Action::Stop)
            } else if s.drain_timeout == 0 {
                (ServerModel { stage: Stage::Stopped, active: 0, ..s }, Action::ForceClose)
            } else {
                (
                    ServerModel {
                        stage: Stage::Draining,
                        deadline: deadline_after(now, s.drain_timeout),
                        ..s
                    },
                    Action::Drain { deadline: deadline_after(now, s.drain_timeout) },
                )
            }
        } else {
            (s, Action::Nothing)
        },
        Event::Tick { now } => if s.stage == Stage::Draining && now >= s.deadline {
            (ServerModel { stage: Stage::Stopped, active: 0, ..s }, Action::ForceClose)
        } else {
            (s, Action::Nothing)
        },
    }
}

/// The server after a run of events.
pub open spec fn run(s: ServerModel, events: Seq<Event>) -> ServerModel
    decreases events.len(),
{
    if events.len() == 0 {
        s
    } else {
        run(next(s, events[0]).0, events.drop_first())
    }
}

/// The accepting endpoint of the server.
#[derive(Debug)]
pub struct Server {
    stage: Stage,
    active: u64,
    drain_timeout: u64,
    deadline: u64,
}

impl View for Server {
    type V = ServerModel;

    closed spec fn view(&self) -> ServerModel {
        ServerModel {
            stage: self.stage,
            active: self.active as nat,
            drain_timeout: self.drain_timeout,
            deadline: self.deadline,
        }
    }
}

impl Server {
    /// A server that has not bound its endpoint yet.
    pub fn new(drain_timeout: u64) -> (s: Server)
        ensures
            s@.wf(),
            s@ == (ServerModel { stage: Stage::Starting, active: 0, drain_timeout, deadline: 0 }),
    {
        Server { stage: Stage::Starting, active: 0, drain_timeout, deadline: 0 }
    }

    /// The stage of the server.
    pub fn stage(&self) -> (stage: Stage)
        ensures
            stage == self@.stage,
    {
        self.stage
    }

    /// The number of connections that were admitted and have not closed.
    pub fn active(&self) -> (n: u64)
        ensures
            n == self@.active,
    {
        self.active
    }

    /// Takes an event in and says what to do.
    pub fn step(&mut self, event: Event) -> (action: Action)
        requires
            old(self)@.wf(),
        ensures
            final(self)@.wf(),
            final(self)@ == next(old(self)@, event).0,
            action == next(old(self)@, event).1,
    {
        match event {
            Event::Bound => {
                if self.stage == Stage::Starting {
                    self.stage = Stage::Accepting;
                }
                Action::Nothing
            },
            Event::BindFailed => {
                if self.stage == Stage::Starting {
                    self.stage = Stage::Failed;
                    Action::Fatal(BindError {  })
                } else {
                    Action::Nothing
                }
            },
            Event::Incoming => {
                if self.stage == Stage::Accepting && self.active < u64::MAX {
                    self.active = self.active + 1;
                    Action::Admit
                } else {
                    Action::Refuse
                }
            },
            Event::ConnectionClosed => {
                if self.active == 0 {
                    Action::Nothing
                } else if self.stage == Stage::Draining && self.active == 1 {
                    self.stage = Stage::Stopped;
                    self.active = 0;
                    Action::Stop
                } else {
                    self.active = self.active - 1;
                    Action::Nothing
                }
            },
            Event::Shutdown { now } => {
                if self.stage == Stage::Starting || self.stage == Stage::Accepting {
                    if self.active == 0 {
                        self.stage = Stage::Stopped;
                        Action::Stop
                    } else if self.drain_timeout == 0 {
                        self.stage = Stage::Stopped;
                        self.active = 0;
                        Action::ForceClose
                    } else {
                        let deadline: u64 = if now > u64::MAX - self.drain_timeout {
                            u64::MAX
                        } else {
                            now + self.drain_timeout
                        };
                        self.stage = Stage::Draining;
                        self.deadline = deadline;
                        Action::Drain { deadline }
                    }
                } else {
                    Action::Nothing
                }
            },
            Event::Tick { now } => {
                if self.stage == Stage::Draining && now >= self.deadline {
                    self.stage = Stage::Stopped;
                    self.active = 0;
                    Action::ForceClose
                } else {
                    Action::Nothing
                }
            },
        }
    }
}

/// Once a shutdown is asked for, the server does not accept again.
spec fn shut(s: ServerModel) -> bool {
    s.stage == Stage::Draining || s.stage == Stage::Stopped || s.stage == Stage::Failed
}

proof fn lemma_shut_stays_shut(s: ServerModel, events: Seq<Event>)
    requires
        s.wf(),
        shut(s),
    ensures
        run(s, events).wf(),
        shut(run(s, events)),
    decreases events.len(),
{
    if events.len() > 0 {
        lemma_shut_stays_shut(next(s, events[0]).0, events.drop_first());
    }
}

/// After a shutdown has been asked for, no connection is admitted, whatever
/// happens in between.
pub proof fn law_no_admission_after_shutdown(s: ServerModel, now: u64, later: Seq<Event>)
    requires
        s.wf(),
    ensures
        next(run(next(s, Event::Shutdown { now }).0, later), Event::Incoming).1 == Action::Refuse,
        run(next(s, Event::Shutdown { now }).0, later).stage != Stage::Accepting,
{
    lemma_shut_stays_shut(next(s, Event::Shutdown { now }).0, later);
}

/// A server whose endpoint could not be bound has failed for good: it
/// reports the failure, admits nothing, and no event brings it back.
pub proof fn law_bind_failure_is_fatal(drain_timeout: u64, later: Seq<Event>)
    ensures
        ({
            let fresh = ServerModel { stage: Stage::Starting, active: 0, drain_timeout, deadline: 0 };
            let (failed, action) = next(fresh, Event::BindFailed);
            &&& action == Action::Fatal(BindError {  })
            &&& run(failed, later).stage == Stage::Failed
            &&& next(run(failed, later), Event::Incoming).1 == Action::Refuse
        }),
{
    let fresh = ServerModel { stage: Stage::Starting, active: 0, drain_timeout, deadline: 0 };
    lemma_failed_stays_failed(next(fresh, Event::BindFailed).0, later);
}

proof fn lemma_failed_stays_failed(s: ServerModel, events: Seq<Event>)
    requires
        s.wf(),
        s.stage == Stage::Failed,
    ensures
        run(s, events).stage == Stage::Failed,
        run(s, events).wf(),
    decreases events.len(),
{
    if events.len() > 0 {
        lemma_failed_stays_failed(next(s, events[0]).0, events.drop_first());
    }
}

/// `n` connections closing, one after the other.
pub open spec fn closings(n: nat) -> Seq<Event> {
    Seq::new(n, |i: int| Event::ConnectionClosed)
}

/// Draining ends in one of two ways. Where every live connection closes,
/// the server stops with the last of them. Where the deadline passes
/// first, the server stops there and has the connections that are left
/// closed by force. Before the deadline, time alone changes nothing.
pub proof fn law_draining_ends(s: ServerModel, now: u64)
    requires
        s.wf(),
        s.stage == Stage::Draining,
    ensures
        run(s, closings(s.active)).stage == Stage::Stopped,
        now >= s.deadline ==> next(s, Event::Tick { now }) == (
            ServerModel { stage: Stage::Stopped, active: 0, ..s },
            Action::ForceClose,
        ),
        now < s.deadline ==> next(s, Event::Tick { now }) == (s, Action::Nothing),
    decreases s.active,
{
    let events = closings(s.active);
    let after = next(s, events[0]).0;
    assert(events.drop_first() =~= closings(after.active)) by {
        if s.active > 1 {
            assert(after.active == s.active - 1);
        }
    }
    if s.active > 1 {
        law_draining_ends(after, now);
    } else {
        assert(run(after, events.drop_first()) == after);
    }
}

/// A shutdown gives the live connections exactly the configured time: the
/// deadline lies `drain_timeout` milliseconds after the request, or at the
/// end of time; with no time given or no connection alive, the server stops
/// at once.
pub proof fn law_shutdown_sets_deadline(s: ServerModel, now: u64)
    requires
        s.wf(),
        s.stage == Stage::Accepting,
    ensures
        s.active > 0 && s.drain_timeout > 0 ==> next(s, Event::Shutdown { now }).0.stage
            == Stage::Draining && next(s, Event::Shutdown { now }).0.deadline == deadline_after(
            now,
            s.drain_timeout,
        ),
        s.active == 0 || s.drain_timeout == 0 ==> next(s, Event::Shutdown { now }).0.stage
            == Stage::Stopped,
{
}

} // verus!
