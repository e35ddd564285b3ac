use crate::id::Id;
use vstd::prelude::*;

verus! {

/// A transport-level endpoint that the relay knows a connection by: an IP
/// address (an IPv4 address is held in its IPv4-mapped IPv6 form, with `v6`
/// false) and a port.
#[derive(Debug, PartialEq, Eq, Structural, Copy, Clone, Hash)]
pub struct Addr {
    pub ip: u128,
    pub port: u16,
    pub v6: bool,
}

/// A connectivity candidate produced by a node's transport.
#[derive(Debug)]
pub struct IceCandidateStruct {
    pub candidate: String,
    pub sdp_mid: Option<String>,
    pub sdp_m_line_index: Option<u16>,
}

/// The messages exchanged between a node and the relay.
#[derive(Debug)]
pub enum WebSocketData {
    /// A session offer; without a target it asks the relay for a rendezvous,
    /// with one it names the offering node's address.
    OfferSDP(String, Option<Addr>),
    /// A session answer, and the address it goes to (or comes from).
    AnswerSDP(String, Addr),
    /// A connectivity candidate, and the address it goes to (or comes from).
    IceCandidate(IceCandidateStruct, Addr),
    /// A text broadcast to every other connection of the relay.
    Message(String),
    /// A request for (or the announcement of) the node's own id.
    Id(Option<Id>),
}

/// The payload of a message between two nodes.
#[derive(Debug)]
pub enum RTCContent {
    /// A chat text, private when the message has a target.
    Message(String),
    /// The acknowledgement of a message: its sequence number and timestamp.
    Received(u32, u32),
    /// The nearest peer does not know the target.
    NotFound,
}

/// A message between two nodes.
#[derive(Debug)]
pub struct RTCData {
    /// Sequence number chosen by the author.
    pub id: u32,
    pub timestamp: u32,
    /// The author.
    pub from: Id,
    pub content: RTCContent,
    /// The node it is meant for; `None` for a public broadcast.
    pub to: Option<Id>,
}

} // verus!
