//! The decisions of the HTTP/1 dispatch loop of one connection: a state
//! machine from the current phase and an event to the next phase and the
//! action that the loop performs.
use vstd::prelude::*;
use crate::message::ConnectionType;

verus! {

/// Where a connection stands in its request/response cycle.
#[derive(Clone, Copy, PartialEq, Eq, Debug, Structural)]
pub enum Phase {
    /// Waiting for the next request head.
    ReadHead,
    /// The expect service holds the current request.
    AwaitExpect,
    /// The main service holds the current request.
    AwaitService,
    /// A response is being written.
    WriteBody,
    /// The connection is over.
    Closed,
    /// The connection was handed to the upgrade service.
    Upgraded,
}

/// The state of the dispatch loop.
#[derive(Clone, Copy, PartialEq, Eq, Debug, Structural)]
pub struct DispatchState {
    pub phase: Phase,
    /// Requests handed to the main service.
    pub invoked: u64,
    /// Response heads written for requests that the main service got.
    pub answered: u64,
    /// The connection closes once the current response is written.
    pub force_close: bool,
    /// An upgrade service is configured.
    pub has_upgrade: bool,
    /// A pipelined request head that arrived while another request was
    /// being served, and whether it asks for `100 Continue`.
    pub queued: Option<bool>,
}

/// What happened since the last decision.
#[derive(Clone, Copy, PartialEq, Eq, Debug, Structural)]
pub enum Event {
    /// A request head was decoded; it may ask for `100 Continue`.
    HeadDecoded { expect_continue: bool },
    /// The request head could not be parsed.
    ParseFailed,
    /// The peer closed its side of the connection.
    ReadEof,
    ExpectAccepted,
    ExpectFailed,
    ServiceResponded,
    ServiceFailed,
    /// The whole response was written; the codec's disposition is `ctype`.
    BodyDone { ctype: ConnectionType },
    /// A timer ran out.
    Timeout(TimeoutKind),
    /// Reading or writing the socket failed.
    IoFailed,
}

/// The timers of a connection.
#[derive(Clone, Copy, PartialEq, Eq, Debug, Structural)]
pub enum TimeoutKind {
    /// No complete request head arrived in time after accept.
    ClientHead,
    /// The connection stayed idle between requests too long.
    KeepAlive,
    /// A graceful close took too long.
    Shutdown,
}

/// Why a connection ended with an error.
#[derive(Clone, Copy, PartialEq, Eq, Debug, Structural)]
pub enum DispatchError {
    Timeout(TimeoutKind),
    /// Reading or writing the socket failed.
    Io,
}

/// The error that an event which ends a connection at once stands for.
pub open spec fn terminal_error(e: Event) -> DispatchError {
    match e {
        Event::Timeout(k) => DispatchError::Timeout(k),
        _ => DispatchError::Io,
    }
}

/// What the dispatch loop does next.
#[derive(Clone, Copy, PartialEq, Eq, Debug, Structural)]
pub enum Action {
    /// Hand the request to the expect service.
    CallExpect,
    /// Write `HTTP/1.1 100 Continue`, then hand the request to the main service.
    ContinueThenCallService,
    /// Hand the request to the main service.
    CallService,
    /// Encode the service's response head, then its body.
    EncodeResponse,
    /// Encode an error response with this status.
    EncodeError(u16),
    /// Encode the response that the expect service's error converts to.
    EncodeExpectError,
    /// Reset the per-request state, rearm the keep-alive timer, read on.
    ReadNext,
    /// Flush and shut the write half down.
    Shutdown,
    /// Hand the request and the framed transport to the upgrade service.
    HandOver,
    /// Terminate at once: cleanly, or with the error that ends the connection.
    Stop(Option<DispatchError>),
    /// Nothing to do.
    Wait,
}

pub open spec fn is_live(p: Phase) -> bool {
    !(p is Closed) && !(p is Upgraded)
}

/// Starting on a request head: through the expect service where it asks
/// for `100 Continue`, else straight to the main service.
pub open spec fn start_request(s: DispatchState, expect_continue: bool) -> (DispatchState, Action) {
    if expect_continue {
        (DispatchState { phase: Phase::AwaitExpect, ..s }, Action::CallExpect)
    } else {
        (
            DispatchState { phase: Phase::AwaitService, invoked: (s.invoked + 1) as u64, ..s },
            Action::CallService,
        )
    }
}

/// The next state and action of the dispatch loop. A request head that
/// arrives while another request is served waits until that response is
/// written whole: responses go out in request order.
pub open spec fn dispatch_next(s: DispatchState, e: Event) -> (DispatchState, Action) {
    match e {
        Event::Timeout(_) | Event::IoFailed => if is_live(s.phase) {
            (DispatchState { phase: Phase::Closed, ..s }, Action::Stop(Some(terminal_error(e))))
        } else {
            (s, Action::Wait)
        },
        Event::HeadDecoded { expect_continue } => if s.phase is ReadHead {
            start_request(s, expect_continue)
        } else if is_live(s.phase) && s.queued is None {
            (DispatchState { queued: Some(expect_continue), ..s }, Action::Wait)
        } else {
            (s, Action::Wait)
        },
        Event::ParseFailed => if s.phase is ReadHead {
            (DispatchState { phase: Phase::WriteBody, force_close: true, ..s }, Action::EncodeError(400))
        } else {
            (s, Action::Wait)
        },
        Event::ReadEof => match s.phase {
            Phase::ReadHead => (DispatchState { phase: Phase::Closed, ..s }, Action::Stop(None)),
            Phase::AwaitExpect | Phase::AwaitService | Phase::WriteBody => (
                DispatchState { force_close: true, ..s },
                Action::Wait,
            ),
            _ => (s, Action::Wait),
        },
        Event::ExpectAccepted => if s.phase is AwaitExpect {
            (
                DispatchState { phase: Phase::AwaitService, invoked: (s.invoked + 1) as u64, ..s },
                Action::ContinueThenCallService,
            )
        } else {
            (s, Action::Wait)
        },
        Event::ExpectFailed => if s.phase is AwaitExpect {
            (DispatchState { phase: Phase::WriteBody, force_close: true, ..s }, Action::EncodeExpectError)
        } else {
            (s, Action::Wait)
        },
        Event::ServiceResponded => if s.phase is AwaitService {
            (
                DispatchState { phase: Phase::WriteBody, answered: (s.answered + 1) as u64, ..s },
                Action::EncodeResponse,
            )
        } else {
            (s, Action::Wait)
        },
        Event::ServiceFailed => if s.phase is AwaitService {
            (
                DispatchState { phase: Phase::WriteBody, answered: (s.answered + 1) as u64, ..s },
                Action::EncodeError(500),
            )
        } else {
            (s, Action::Wait)
        },
        Event::BodyDone { ctype } => if s.phase is WriteBody {
            if s.force_close || ctype == ConnectionType::Close {
                (DispatchState { phase: Phase::Closed, force_close: false, ..s }, Action::Shutdown)
            } else if ctype == ConnectionType::KeepAlive {
                match s.queued {
                    Some(expect_continue) => start_request(DispatchState { queued: None, ..s }, expect_continue),
                    None => (DispatchState { phase: Phase::ReadHead, ..s }, Action::ReadNext),
                }
            } else if s.has_upgrade {
                (DispatchState { phase: Phase::Upgraded, ..s }, Action::HandOver)
            } else {
                (DispatchState { phase: Phase::Closed, ..s }, Action::Shutdown)
            }
        } else {
            (s, Action::Wait)
        },
    }
}

/// Every request that the main service got has had its response head
/// written, but for the one that it holds now.
pub open spec fn dispatch_inv(s: DispatchState) -> bool {
    s.answered + (if s.phase is AwaitService { 1int } else { 0int }) == s.invoked
}

fn start_request_exec(s: DispatchState, expect_continue: bool) -> (r: (DispatchState, Action))
    requires
        s.invoked < u64::MAX,
    ensures
        r == start_request(s, expect_continue),
{
    if expect_continue {
        (DispatchState { phase: Phase::AwaitExpect, ..s }, Action::CallExpect)
    } else {
        (DispatchState { phase: Phase::AwaitService, invoked: s.invoked + 1, ..s }, Action::CallService)
    }
}

impl DispatchState {
    /// Whether the counts agree with the phase (which every state that
    /// `new` and `step` reach satisfies).
    pub fn is_consistent(&self) -> (r: bool)
        ensures
            r == dispatch_inv(*self),
    {
        let pending: u64 = if self.phase == Phase::AwaitService { 1 } else { 0 };
        self.answered <= self.invoked && self.invoked - self.answered == pending
    }

    /// The state of a fresh connection.
    pub fn new(has_upgrade: bool) -> (r: DispatchState)
        ensures
            r == (DispatchState {
                phase: Phase::ReadHead,
                invoked: 0,
                answered: 0,
                force_close: false,
                has_upgrade,
                queued: None,
            }),
            dispatch_inv(r),
    {
        DispatchState {
            phase: Phase::ReadHead,
            invoked: 0,
            answered: 0,
            force_close: false,
            has_upgrade,
            queued: None,
        }
    }

    /// Decides on event `e`: updates the state and returns the action.
    pub fn step(&mut self, e: Event) -> (a: Action)
        requires
            dispatch_inv(*old(self)),
            old(self).invoked < u64::MAX,
        ensures
            (*final(self), a) == dispatch_next(*old(self), e),
    {
        let s = *self;
        let (n, a) = match e {
            Event::Timeout(k) => match s.phase {
                Phase::Closed | Phase::Upgraded => (s, Action::Wait),
                _ => (DispatchState { phase: Phase::Closed, ..s }, Action::Stop(Some(DispatchError::Timeout(k)))),
            },
            Event::IoFailed => match s.phase {
                Phase::Closed | Phase::Upgraded => (s, Action::Wait),
                _ => (DispatchState { phase: Phase::Closed, ..s }, Action::Stop(Some(DispatchError::Io))),
            },
            Event::HeadDecoded { expect_continue } => if s.phase == Phase::ReadHead {
                start_request_exec(s, expect_continue)
            } else if s.phase != Phase::Closed && s.phase != Phase::Upgraded && s.queued.is_none() {
                (DispatchState { queued: Some(expect_continue), ..s }, Action::Wait)
            } else {
                (s, Action::Wait)
            },
            Event::ParseFailed => if s.phase == Phase::ReadHead {
                (DispatchState { phase: Phase::WriteBody, force_close: true, ..s }, Action::EncodeError(400))
            } else {
                (s, Action::Wait)
            },
            Event::ReadEof => match s.phase {
                Phase::ReadHead => (DispatchState { phase: Phase::Closed, ..s }, Action::Stop(None)),
                Phase::AwaitExpect | Phase::AwaitService | Phase::WriteBody => (
                    DispatchState { force_close: true, ..s },
                    Action::Wait,
                ),
                _ => (s, Action::Wait),
            },
            Event::ExpectAccepted => if s.phase == Phase::AwaitExpect {
                (
                    DispatchState { phase: Phase::AwaitService, invoked: s.invoked + 1, ..s },
                    Action::ContinueThenCallService,
                )
            } else {
                (s, Action::Wait)
            },
            Event::ExpectFailed => if s.phase == Phase::AwaitExpect {
                (DispatchState { phase: Phase::WriteBody, force_close: true, ..s }, Action::EncodeExpectError)
            } else {
                (s, Action::Wait)
            },
            Event::ServiceResponded => if s.phase == Phase::AwaitService {
                (DispatchState { phase: Phase::WriteBody, answered: s.answered + 1, ..s }, Action::EncodeResponse)
            } else {
                (s, Action::Wait)
            },
            Event::ServiceFailed => if s.phase == Phase::AwaitService {
                (DispatchState { phase: Phase::WriteBody, answered: s.answered + 1, ..s }, Action::EncodeError(500))
            } else {
                (s, Action::Wait)
            },
            Event::BodyDone { ctype } => if s.phase == Phase::WriteBody {
                if s.force_close || ctype == ConnectionType::Close {
                    (DispatchState { phase: Phase::Closed, force_close: false, ..s }, Action::Shutdown)
                } else if ctype == ConnectionType::KeepAlive {
                    match s.queued {
                        Some(expect_continue) => start_request_exec(DispatchState { queued: None, ..s }, expect_continue),
                        None => (DispatchState { phase: Phase::ReadHead, ..s }, Action::ReadNext),
                    }
                } else if s.has_upgrade {
                    (DispatchState { phase: Phase::Upgraded, ..s }, Action::HandOver)
                } else {
                    (DispatchState { phase: Phase::Closed, ..s }, Action::Shutdown)
                }
            } else {
                (s, Action::Wait)
            },
        };
        *self = n;
        a
    }
}

/// Each decision keeps the count of requests that the main service got in
/// step with the count of response heads written for them; whenever no
/// request is with the main service, the two are equal. A timeout or a
/// socket failure while the main service holds a request abandons that
/// request, so those events are left out there.
pub proof fn lemma_dispatch_counts(s: DispatchState, e: Event)
    requires
        dispatch_inv(s),
        s.invoked < u64::MAX,
        s.phase is AwaitService ==> !(e is Timeout || e is IoFailed),
    ensures
        dispatch_inv(dispatch_next(s, e).0),
        !(dispatch_next(s, e).0.phase is AwaitService) ==> dispatch_next(s, e).0.answered
            == dispatch_next(s, e).0.invoked,
{
}

/// The main service gets a request only when no response is in progress:
/// from a connection waiting for a head, from the expect service, or once
/// the previous response has been written whole.
pub proof fn lemma_service_after_response(s: DispatchState, e: Event)
    requires
        dispatch_next(s, e).1 == Action::CallService || dispatch_next(s, e).1
            == Action::ContinueThenCallService,
    ensures
        s.phase is ReadHead || s.phase is AwaitExpect || (s.phase is WriteBody && e is BodyDone),
{
}

/// The bytes of the interim response that lets a client send its body.
pub open spec fn continue_response() -> Seq<u8> {
    crate::lits::version_11() + seq![32u8, 49, 48, 48, 32, 67, 111, 110, 116, 105, 110, 117, 101, 13, 10, 13, 10]
}

/// `HTTP/1.1 100 Continue` and the blank line.
pub fn continue_bytes() -> (r: Vec<u8>)
    ensures
        r@ == continue_response(),
{
    let mut r = crate::lits::version_11_bytes();
    let tail: Vec<u8> = vec![32u8, 49, 48, 48, 32, 67, 111, 110, 116, 105, 110, 117, 101, 13, 10, 13, 10];
    let mut i: usize = 0;
    let ghost start = r@;
    while i < tail.len()
        invariant
            i <= tail@.len(),
            r@ == start + tail@.subrange(0, i as int),
        decreases tail@.len() - i,
    {
        r.push(tail[i]);
        i = i + 1;
        assert(r@ =~= start + tail@.subrange(0, i as int));
    }
    assert(tail@.subrange(0, tail@.len() as int) =~= tail@);
    assert(r@ =~= continue_response());
    r
}

/// A timer that runs out on a live connection ends it at once with the
/// error of that timer, and writes no response.
pub proof fn lemma_timeout_is_terminal(s: DispatchState, k: TimeoutKind)
    requires
        is_live(s.phase),
    ensures
        dispatch_next(s, Event::Timeout(k)) == (
            DispatchState { phase: Phase::Closed, ..s },
            Action::Stop(Some(DispatchError::Timeout(k))),
        ),
{
}

} // verus!
