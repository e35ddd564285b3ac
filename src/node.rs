use crate::id::{parse_name, Id};
use crate::link::{answer_step, candidate_check, offer_step, LinkError, Pstream, State, Violation};
use crate::proto::{Addr, IceCandidateStruct, RTCContent, RTCData, WebSocketData};
use crate::topology::{except, placed, removed, routes, Network, Peer, Placement, Routing};
use vstd::prelude::*;

verus! {

/// What the transport has to do after a relay message was accepted.
#[derive(Debug)]
pub enum Command {
    /// Apply the remote offer, create an answer and send it to the address.
    Answer(String, Addr),
    /// Apply the remote answer to this node's offer.
    ApplyAnswer(String),
    /// Hand the candidate to the transport.
    AddCandidate(IceCandidateStruct),
    /// The relay assigned this id; the node has joined.
    Joined(Id),
    /// Nothing to do.
    Nothing,
}

/// Why an event could not be handled.
#[derive(Debug, PartialEq, Eq, Structural, Copy, Clone)]
pub enum NodeError {
    /// The negotiation refused it.
    Link(LinkError),
    /// The node has no id yet, so no neighbour table.
    NoNetwork,
    /// A relay message that a node does not expect.
    Unexpected,
    /// The new peer's id is already a neighbour.
    Duplicate(Id),
}

/// A node's side of the overlay: its tentative link and, once the relay has
/// given it an id, its neighbour table.
pub struct Sockets<H> {
    pub tmp: Pstream<H>,
    pub network: Option<Network<H>>,
}

impl<H> Sockets<H> {
    pub open spec fn wf(self) -> bool {
        &&& self.tmp.wf()
        &&& self.network matches Some(n) ==> n.wf()
    }

    /// A node with a disconnected link and no id yet.
    pub fn default() -> (r: Self)
        ensures
            r.wf(),
            r.tmp.st() == State::Disconnected(None),
            r.network is None,
    {
        Sockets { tmp: Pstream::new(), network: None }
    }

    /// Handles a message from the relay. An offer with its origin locks the
    /// link to that origin (taking `fresh` as transport where it has none);
    /// an answer locks a waiting link; a candidate must come from the
    /// address the link is locked to; an id creates the neighbour table if
    /// there is none yet. Anything else is unexpected.
    pub fn on_server_message(&mut self, msg: WebSocketData, fresh: Option<H>) -> (r: Result<
        Command,
        NodeError,
    >)
        requires
            old(self).wf(),
        ensures
            final(self).wf(),
            r is Err ==> final(self).tmp == old(self).tmp && final(self).network == old(self).network,
            match msg {
                WebSocketData::OfferSDP(sdp, Some(a)) => match offer_step(
                    old(self).tmp.st(),
                    old(self).tmp.sock() is Some || fresh is Some,
                    a,
                ) {
                    Ok(ns) => r == Ok::<Command, NodeError>(Command::Answer(sdp, a))
                        && final(self).tmp.st() == ns,
                    Err(e) => r == Err::<Command, NodeError>(NodeError::Link(e)),
                },
                WebSocketData::AnswerSDP(sdp, a) => match answer_step(old(self).tmp.st(), a) {
                    Ok(ns) => r == Ok::<Command, NodeError>(Command::ApplyAnswer(sdp))
                        && final(self).tmp.st() == ns,
                    Err(e) => r == Err::<Command, NodeError>(NodeError::Link(e)),
                },
                WebSocketData::IceCandidate(c, a) => match candidate_check(old(self).tmp.st(), a) {
                    Ok(_) => r == Ok::<Command, NodeError>(Command::AddCandidate(c))
                        && final(self).tmp == old(self).tmp,
                    Err(e) => r == Err::<Command, NodeError>(NodeError::Link(e)),
                },
                WebSocketData::Id(Some(id)) => final(self).tmp == old(self).tmp && if old(self).network is None {
                    r == Ok::<Command, NodeError>(Command::Joined(id)) && final(self).network
                        is Some && final(self).network.unwrap().self_id() == id
                } else {
                    r == Ok::<Command, NodeError>(Command::Nothing) && final(self).network == old(self).network
                },
                _ => r == Err::<Command, NodeError>(NodeError::Unexpected),
            },
    {
        match msg {
            WebSocketData::OfferSDP(sdp, Some(a)) => match self.tmp.on_offer(a, fresh) {
                Ok(()) => Ok(Command::Answer(sdp, a)),
                Err(e) => Err(NodeError::Link(e)),
            },
            WebSocketData::AnswerSDP(sdp, a) => match self.tmp.on_answer(a) {
                Ok(()) => Ok(Command::ApplyAnswer(sdp)),
                Err(e) => Err(NodeError::Link(e)),
            },
            WebSocketData::IceCandidate(c, a) => match self.tmp.on_ice_candidate(a) {
                Ok(()) => Ok(Command::AddCandidate(c)),
                Err(e) => Err(NodeError::Link(e)),
            },
            WebSocketData::Id(Some(id)) => {
                if self.network.is_none() {
                    self.network = Some(Network::new(id));
                    Ok(Command::Joined(id))
                } else {
                    Ok(Command::Nothing)
                }
            },
            _ => Err(NodeError::Unexpected),
        }
    }

    /// The open link announced its peer's id as `name`: the link is promoted
    /// and filed in the neighbour table.
    pub fn on_peer_id(&mut self, name: &str) -> (r: Result<Placement, NodeError>)
        requires
            old(self).wf(),
        ensures
            final(self).wf(),
            old(self).network is None ==> r == Err::<Placement, NodeError>(NodeError::NoNetwork)
                && *final(self) == *old(self),
            old(self).network is Some && !(old(self).tmp.st() is Connected) ==> r == Err::<
                Placement,
                NodeError,
            >(NodeError::Link(LinkError::ProtocolViolation(Violation::NotConnected)))
                && *final(self) == *old(self),
            old(self).network is Some && old(self).tmp.st() is Connected ==> match parse_name(
                name@,
            ) {
                Err(e) => r == Err::<Placement, NodeError>(NodeError::Link(LinkError::Decode(e)))
                    && *final(self) == *old(self),
                Ok(id) => final(self).tmp.st() == State::Disconnected(None) && final(self).network is Some && if old(self).network.unwrap().holds(id) {
                    r == Err::<Placement, NodeError>(NodeError::Duplicate(id)) && final(self).network == old(self).network
                } else {
                    match r {
                        Ok(pl) => placed(
                            old(self).network.unwrap(),
                            final(self).network.unwrap(),
                            Peer { id, socket: old(self).tmp.sock().unwrap() },
                            pl,
                        ),
                        Err(_) => false,
                    }
                },
            },
    {
        if self.network.is_none() {
            return Err(NodeError::NoNetwork);
        }
        let peer = match self.tmp.promote(name) {
            Ok(p) => p,
            Err(e) => {
                return Err(NodeError::Link(e));
            },
        };
        let Peer { id, socket } = peer;
        match &mut self.network {
            Some(n) => match n.insert(socket, id) {
                Ok(pl) => Ok(pl),
                Err(_) => Err(NodeError::Duplicate(id)),
            },
            None => Err(NodeError::NoNetwork),
        }
    }

    /// Once connected to the relay, a node with a disconnected link starts a
    /// negotiation with a fresh transport `socket`; its offer then goes to
    /// the relay as a rendezvous request.
    pub fn join(&mut self, socket: H, now: u64) -> (r: Result<(), NodeError>)
        requires
            old(self).wf(),
        ensures
            final(self).wf(),
            final(self).network == old(self).network,
            old(self).tmp.st() is Disconnected ==> r is Ok && final(self).tmp.st() == State::Waiting(
                now,
            ) && final(self).tmp.sock() == Some(socket),
            !(old(self).tmp.st() is Disconnected) ==> r == Err::<(), NodeError>(
                NodeError::Link(LinkError::ProtocolViolation(Violation::NotDisconnected)),
            ) && final(self).tmp == old(self).tmp,
    {
        match self.tmp.initiate(socket, now) {
            Ok(()) => Ok(()),
            Err(e) => Err(NodeError::Link(e)),
        }
    }

    /// The transport reports the link open at `now`.
    pub fn on_link_open(&mut self, now: u64) -> (r: Result<(), NodeError>)
        requires
            old(self).wf(),
        ensures
            final(self).wf(),
            final(self).network == old(self).network,
            old(self).tmp.st() is Locked ==> r is Ok && final(self).tmp.st() == State::Connected(
                now,
            ) && final(self).tmp.sock() == old(self).tmp.sock(),
            !(old(self).tmp.st() is Locked) ==> r == Err::<(), NodeError>(
                NodeError::Link(LinkError::ProtocolViolation(Violation::NotLocked)),
            ) && final(self).tmp == old(self).tmp,
    {
        match self.tmp.on_open(now) {
            Ok(()) => Ok(()),
            Err(e) => Err(NodeError::Link(e)),
        }
    }

    /// The transport reports the tentative link closed: it goes back to
    /// disconnected, and its transport is handed back for disposal.
    pub fn on_link_closed(&mut self) -> (r: Option<H>)
        requires
            old(self).wf(),
        ensures
            final(self).wf(),
            final(self).network == old(self).network,
            final(self).tmp.st() == State::Disconnected(None),
            r == old(self).tmp.sock(),
    {
        self.tmp.close(None)
    }

    /// A neighbour with id `from` relayed `data`.
    pub fn on_peer_message(&self, data: &RTCData, from: Id) -> (r: Result<Routing, NodeError>)
        requires
            self.wf(),
        ensures
            self.network is None ==> r is Err,
            self.network is Some ==> match r {
                Ok(rt) => routes(self.network.unwrap(), data, from, rt),
                Err(_) => false,
            },
    {
        match &self.network {
            Some(n) => Ok(n.process(data, from)),
            None => Err(NodeError::NoNetwork),
        }
    }

    /// The neighbour with id `id` went away; returns it if it was filed.
    pub fn on_peer_disconnect(&mut self, id: Id) -> (r: Result<Option<Peer<H>>, NodeError>)
        requires
            old(self).wf(),
        ensures
            final(self).wf(),
            final(self).tmp == old(self).tmp,
            old(self).network is None ==> r == Err::<Option<Peer<H>>, NodeError>(
                NodeError::NoNetwork,
            ) && final(self).network is None,
            old(self).network is Some ==> match r {
                Ok(p) => final(self).network is Some && removed(
                    old(self).network.unwrap(),
                    final(self).network.unwrap(),
                    id,
                    p,
                ),
                Err(_) => false,
            },
    {
        match &mut self.network {
            Some(n) => Ok(n.remove(id)),
            None => Err(NodeError::NoNetwork),
        }
    }

    /// A public text typed by the local user: the message to send, signed
    /// with this node's id, and the neighbours it goes to.
    pub fn say(&self, text: String) -> (r: Result<(RTCData, Vec<Id>), NodeError>)
        requires
            self.wf(),
        ensures
            self.network is None ==> r is Err,
            self.network matches Some(n) ==> match r {
                Ok((m, to)) => m == (RTCData {
                    id: 0,
                    timestamp: 0,
                    from: n.self_id(),
                    content: RTCContent::Message(text),
                    to: None,
                }) && to@ == except(n.ids(), n.self_id(), n.self_id()),
                Err(_) => false,
            },
    {
        match &self.network {
            Some(n) => {
                let me = n.id();
                let m = RTCData {
                    id: 0,
                    timestamp: 0,
                    from: me,
                    content: RTCContent::Message(text),
                    to: None,
                };
                Ok((m, n.broadcast(me, me)))
            },
            None => Err(NodeError::NoNetwork),
        }
    }
}

} // verus!
