use crate::id::{parse_name, DecodeError, Id};
use crate::proto::Addr;
use crate::topology::Peer;
use vstd::prelude::*;

verus! {

/// The state of the tentative link.
#[derive(Debug, PartialEq, Eq, Structural, Copy, Clone)]
pub enum State {
    /// No negotiation; when the link was last seen, if ever.
    Disconnected(Option<u64>),
    /// Open since the given time; the peer's id is awaited.
    Connected(u64),
    /// Negotiating with the node at this address.
    Locked(Addr),
    /// An offer went out at the given time; an answer is awaited.
    Waiting(u64),
}

/// Why a negotiation message does not fit the state of the link.
#[derive(Debug, PartialEq, Eq, Structural, Copy, Clone)]
pub enum Violation {
    /// The link is not negotiating with anyone.
    NotLocked,
    /// The link is negotiating with another address.
    LockedElsewhere,
    /// The link is already open.
    AlreadyConnected,
    /// A negotiation is already under way.
    NotDisconnected,
    /// The link is not open.
    NotConnected,
}

/// Why a step of the negotiation failed.
#[derive(Debug, PartialEq, Eq, Structural, Copy, Clone)]
pub enum LinkError {
    /// The message does not fit the state; nothing changed.
    ProtocolViolation(Violation),
    /// A transport was needed and none was given; nothing changed.
    MissingTransport,
    /// The peer announced an id that cannot be read; nothing changed.
    Decode(DecodeError),
}

impl Violation {
    /// A short description for the user.
    pub fn describe(&self) -> (r: &'static str)
        ensures
            *self == Violation::NotLocked ==> r@ == "not locked"@,
            *self == Violation::LockedElsewhere ==> r@ == "locked with another address"@,
            *self == Violation::AlreadyConnected ==> r@ == "already connected"@,
            *self == Violation::NotDisconnected ==> r@ == "a negotiation is under way"@,
            *self == Violation::NotConnected ==> r@ == "not connected"@,
    {
        match self {
            Violation::NotLocked => "not locked",
            Violation::LockedElsewhere => "locked with another address",
            Violation::AlreadyConnected => "already connected",
            Violation::NotDisconnected => "a negotiation is under way",
            Violation::NotConnected => "not connected",
        }
    }
}

/// The single tentative link of a node: its state and its transport, which
/// is there exactly when the state is not `Disconnected`.
pub struct Pstream<H> {
    state: State,
    socket: Option<H>,
}

/// Whether a state is `Disconnected`.
pub open spec fn is_idle(s: State) -> bool {
    s is Disconnected
}

/// The state after an offer from `from`, where `has_transport` tells
/// whether a transport is at hand (held, or given fresh).
pub open spec fn offer_step(s: State, has_transport: bool, from: Addr) -> Result<State, LinkError> {
    match s {
        State::Connected(_) => Err(LinkError::ProtocolViolation(Violation::AlreadyConnected)),
        State::Locked(a) => if a == from {
            Ok(State::Locked(from))
        } else {
            Err(LinkError::ProtocolViolation(Violation::LockedElsewhere))
        },
        _ => if has_transport {
            Ok(State::Locked(from))
        } else {
            Err(LinkError::MissingTransport)
        },
    }
}

/// The state after an answer from `from`.
pub open spec fn answer_step(s: State, from: Addr) -> Result<State, LinkError> {
    match s {
        State::Waiting(_) => Ok(State::Locked(from)),
        State::Locked(a) => if a == from {
            Ok(State::Locked(from))
        } else {
            Err(LinkError::ProtocolViolation(Violation::LockedElsewhere))
        },
        State::Connected(_) => Err(LinkError::ProtocolViolation(Violation::AlreadyConnected)),
        State::Disconnected(_) => Err(LinkError::ProtocolViolation(Violation::NotLocked)),
    }
}

/// Whether a candidate from `from` is accepted.
pub open spec fn candidate_check(s: State, from: Addr) -> Result<(), LinkError> {
    match s {
        State::Locked(a) => if a == from {
            Ok(())
        } else {
            Err(LinkError::ProtocolViolation(Violation::LockedElsewhere))
        },
        _ => Err(LinkError::ProtocolViolation(Violation::NotLocked)),
    }
}

/// A link locked to one address refuses an answer or a candidate from any
/// other address, and a refused answer leaves the state as it was.
pub proof fn lemma_locked_refuses(a: Addr, b: Addr)
    requires
        a != b,
    ensures
        answer_step(State::Locked(a), b) == Err::<State, LinkError>(
            LinkError::ProtocolViolation(Violation::LockedElsewhere),
        ),
        candidate_check(State::Locked(a), b) == Err::<(), LinkError>(
            LinkError::ProtocolViolation(Violation::LockedElsewhere),
        ),
{
}

impl<H> Pstream<H> {
    /// The state of the link.
    pub closed spec fn st(self) -> State {
        self.state
    }

    /// The transport of the link.
    pub closed spec fn sock(self) -> Option<H> {
        self.socket
    }

    /// A transport is held exactly while the link is not disconnected.
    pub open spec fn wf(self) -> bool {
        self.sock().is_some() == !is_idle(self.st())
    }

    pub fn new() -> (r: Self)
        ensures
            r.wf(),
            r.st() == State::Disconnected(None),
    {
        Pstream { state: State::Disconnected(None), socket: None }
    }

    pub fn state(&self) -> (r: State)
        ensures
            r == self.st(),
    {
        self.state
    }

    pub fn socket(&self) -> (r: Option<&H>)
        ensures
            r.is_some() == self.sock().is_some(),
            r.is_some() ==> *r.unwrap() == self.sock().unwrap(),
    {
        match &self.socket {
            Some(s) => Some(s),
            None => None,
        }
    }

    pub fn is_connected(&self) -> (r: bool)
        ensures
            r == self.st() is Connected,
    {
        match self.state {
            State::Connected(_) => true,
            _ => false,
        }
    }

    pub fn is_disconnected(&self) -> (r: bool)
        ensures
            r == self.st() is Disconnected,
    {
        match self.state {
            State::Disconnected(_) => true,
            _ => false,
        }
    }

    pub fn is_waiting(&self) -> (r: bool)
        ensures
            r == self.st() is Waiting,
    {
        match self.state {
            State::Waiting(_) => true,
            _ => false,
        }
    }

    /// Whether the link is locked: to `paddr` where one is given, to any
    /// address otherwise.
    pub fn is_locked(&self, paddr: Option<Addr>) -> (r: bool)
        ensures
            r == match (paddr, self.st()) {
                (Some(p), State::Locked(a)) => p == a,
                (None, State::Locked(_)) => true,
                _ => false,
            },
    {
        match (paddr, self.state) {
            (Some(p), State::Locked(a)) => p == a,
            (None, State::Locked(_)) => true,
            _ => false,
        }
    }

    /// Starts a negotiation from a disconnected link with a fresh
    /// transport, whose offer then goes to the relay as a rendezvous request.
    pub fn initiate(&mut self, socket: H, now: u64) -> (r: Result<(), LinkError>)
        requires
            old(self).wf(),
        ensures
            final(self).wf(),
            is_idle(old(self).st()) ==> r is Ok && final(self).st() == State::Waiting(now)
                && final(self).sock() == Some(socket),
            !is_idle(old(self).st()) ==> r == Err::<(), LinkError>(
                LinkError::ProtocolViolation(Violation::NotDisconnected),
            ) && *final(self) == *old(self),
    {
        match self.state {
            State::Disconnected(_) => {
                self.state = State::Waiting(now);
                self.socket = Some(socket);
                Ok(())
            },
            _ => Err(LinkError::ProtocolViolation(Violation::NotDisconnected)),
        }
    }

    /// An offer came from `from`: unless the link is open or negotiating
    /// with another address, it locks to `from`, keeping its transport or
    /// taking `fresh` where it has none. The answer then goes back to `from`.
    pub fn on_offer(&mut self, from: Addr, fresh: Option<H>) -> (r: Result<(), LinkError>)
        requires
            old(self).wf(),
        ensures
            final(self).wf(),
            match offer_step(old(self).st(), old(self).sock() is Some || fresh is Some, from) {
                Ok(ns) => r is Ok && final(self).st() == ns && final(self).sock() == if old(self).sock() is Some {
                    old(self).sock()
                } else {
                    fresh
                },
                Err(e) => r == Err::<(), LinkError>(e) && *final(self) == *old(self),
            },
    {
        match self.state {
            State::Connected(_) => {
                return Err(LinkError::ProtocolViolation(Violation::AlreadyConnected));
            },
            State::Locked(a) => {
                if a != from {
                    return Err(LinkError::ProtocolViolation(Violation::LockedElsewhere));
                }
            },
            _ => {},
        }
        if self.socket.is_none() {
            match fresh {
                Some(s) => {
                    self.socket = Some(s);
                },
                None => {
                    return Err(LinkError::MissingTransport);
                },
            }
        }
        self.state = State::Locked(from);
        Ok(())
    }

    /// An answer to this node's offer came from `from`: a waiting link locks
    /// to it. The answer is then applied to the transport.
    pub fn on_answer(&mut self, from: Addr) -> (r: Result<(), LinkError>)
        requires
            old(self).wf(),
        ensures
            final(self).wf(),
            match answer_step(old(self).st(), from) {
                Ok(ns) => r is Ok && final(self).st() == ns && final(self).sock() == old(self).sock(),
                Err(e) => r == Err::<(), LinkError>(e) && *final(self) == *old(self),
            },
    {
        match self.state {
            State::Waiting(_) => {
                self.state = State::Locked(from);
                Ok(())
            },
            State::Locked(a) => if a == from {
                Ok(())
            } else {
                Err(LinkError::ProtocolViolation(Violation::LockedElsewhere))
            },
            State::Connected(_) => Err(LinkError::ProtocolViolation(Violation::AlreadyConnected)),
            State::Disconnected(_) => Err(LinkError::ProtocolViolation(Violation::NotLocked)),
        }
    }

    /// A connectivity candidate came from `from`: it is accepted only while
    /// the link is locked to exactly that address, and then goes to the
    /// transport. The state never changes.
    pub fn on_ice_candidate(&self, from: Addr) -> (r: Result<(), LinkError>)
        ensures
            r == candidate_check(self.st(), from),
    {
        match self.state {
            State::Locked(a) => if a == from {
                Ok(())
            } else {
                Err(LinkError::ProtocolViolation(Violation::LockedElsewhere))
            },
            _ => Err(LinkError::ProtocolViolation(Violation::NotLocked)),
        }
    }

    /// The transport reports the link open: a locked link becomes connected
    /// at `now`, and each side then sends its own id as the first payload.
    pub fn on_open(&mut self, now: u64) -> (r: Result<(), LinkError>)
        requires
            old(self).wf(),
        ensures
            final(self).wf(),
            final(self).sock() == old(self).sock(),
            old(self).st() is Locked ==> r is Ok && final(self).st() == State::Connected(now),
            !(old(self).st() is Locked) ==> r == Err::<(), LinkError>(
                LinkError::ProtocolViolation(Violation::NotLocked),
            ) && *final(self) == *old(self),
    {
        match self.state {
            State::Locked(_) => {
                self.state = State::Connected(now);
                Ok(())
            },
            _ => Err(LinkError::ProtocolViolation(Violation::NotLocked)),
        }
    }

    /// The first payload of an open link names the peer: the link is handed
    /// over as a peer with that id and the slot goes back to disconnected.
    pub fn promote(&mut self, name: &str) -> (r: Result<Peer<H>, LinkError>)
        requires
            old(self).wf(),
        ensures
            final(self).wf(),
            !(old(self).st() is Connected) ==> r == Err::<Peer<H>, LinkError>(
                LinkError::ProtocolViolation(Violation::NotConnected),
            ),
            old(self).st() is Connected ==> match parse_name(name@) {
                Ok(id) => r == Ok::<Peer<H>, LinkError>(
                    Peer { id, socket: old(self).sock().unwrap() },
                ) && final(self).st() == State::Disconnected(None),
                Err(e) => r == Err::<Peer<H>, LinkError>(LinkError::Decode(e)),
            },
            r is Err ==> *final(self) == *old(self),
    {
        match self.state {
            State::Connected(_) => {},
            _ => {
                return Err(LinkError::ProtocolViolation(Violation::NotConnected));
            },
        }
        let id = match Id::from_name(name) {
            Ok(id) => id,
            Err(e) => {
                return Err(LinkError::Decode(e));
            },
        };
        match self.socket.take() {
            Some(socket) => {
                self.state = State::Disconnected(None);
                Ok(Peer { id, socket })
            },
            None => Err(LinkError::MissingTransport),
        }
    }

    /// The transport reports the link closed, or the link is torn down:
    /// back to disconnected (last seen at `now`), handing back the transport
    /// for disposal.
    pub fn close(&mut self, now: Option<u64>) -> (r: Option<H>)
        ensures
            final(self).wf(),
            final(self).st() == State::Disconnected(now),
            r == old(self).sock(),
    {
        self.state = State::Disconnected(now);
        self.socket.take()
    }
}

} // verus!
