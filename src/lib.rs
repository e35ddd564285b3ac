//! A geometric peer-to-peer overlay: node identities on a plane, the
//! signaling messages exchanged with a relay, the per-link negotiation state
//! machine, the directional neighbour table and the relay's decisions.

pub mod id;
pub mod proto;
pub mod relay;
pub mod topology;
pub mod link;
pub mod node;
