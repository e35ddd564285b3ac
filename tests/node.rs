use p2p_mesh::id::Id;
use p2p_mesh::link::{LinkError, State, Violation};
use p2p_mesh::node::{Command, NodeError, Sockets};
use p2p_mesh::proto::{Addr, RTCContent, WebSocketData};
use p2p_mesh::topology::{Placement, Show};
use p2p_mesh::id::Axe;

fn addr(port: u16) -> Addr {
    Addr { ip: 1, port, v6: true }
}

#[test]
fn node_joins_and_files_peer() {
    let mut s: Sockets<u8> = Sockets::default();
    assert_eq!(s.on_peer_id("b").err(), Some(NodeError::NoNetwork));
    let me = Id::new(0, 0);
    assert!(matches!(s.on_server_message(WebSocketData::Id(Some(me)), None), Ok(Command::Joined(i)) if i == me));
    assert!(matches!(s.on_server_message(WebSocketData::Id(Some(Id::new(1, 1))), None), Ok(Command::Nothing)));
    assert!(matches!(
        s.on_server_message(WebSocketData::OfferSDP("o".to_string(), Some(addr(4))), Some(3)),
        Ok(Command::Answer(ref sdp, a)) if sdp == "o" && a == addr(4)
    ));
    assert_eq!(s.tmp.state(), State::Locked(addr(4)));
    s.on_link_open(10).unwrap();
    let peer = Id::new(0, 6);
    assert_eq!(s.on_peer_id(&peer.to_name()), Ok(Placement::Slot(Axe::Top)));
    assert!(s.tmp.is_disconnected());
    let n = s.network.as_ref().unwrap();
    assert_eq!(n.slot_id(Axe::Top), Some(peer));
    assert_eq!(n.peer(peer), Some(&3));

    let (m, to) = s.say("hello".to_string()).ok().unwrap();
    assert_eq!(m.from, me);
    assert!(matches!(m.content, RTCContent::Message(ref t) if t == "hello"));
    assert_eq!(to, vec![peer]);

    let r = s.on_peer_message(&m, peer).ok().unwrap();
    assert_eq!(r.show, Show::Public);
    assert!(r.forward.is_empty());

    let gone = s.on_peer_disconnect(peer).ok().unwrap().unwrap();
    assert_eq!(gone.socket, 3);
}

#[test]
fn node_refuses_out_of_order_messages() {
    let mut s: Sockets<u8> = Sockets::default();
    let r = s.on_server_message(WebSocketData::AnswerSDP("a".to_string(), addr(1)), None);
    assert_eq!(r.err(), Some(NodeError::Link(LinkError::ProtocolViolation(Violation::NotLocked))));
    assert_eq!(s.tmp.state(), State::Disconnected(None));
    let r = s.on_server_message(WebSocketData::OfferSDP("o".to_string(), None), Some(1));
    assert_eq!(r.err(), Some(NodeError::Unexpected));
    assert!(s.tmp.is_disconnected());
    assert_eq!(s.on_link_closed(), None);
}

#[test]
fn node_join_then_answer() {
    let mut s: Sockets<u8> = Sockets::default();
    s.join(2, 50).unwrap();
    assert_eq!(s.tmp.state(), State::Waiting(50));
    assert_eq!(s.join(3, 51).err(), Some(NodeError::Link(LinkError::ProtocolViolation(Violation::NotDisconnected))));
    assert!(matches!(
        s.on_server_message(WebSocketData::AnswerSDP("a".to_string(), addr(9)), None),
        Ok(Command::ApplyAnswer(ref sdp)) if sdp == "a"
    ));
    assert_eq!(s.tmp.state(), State::Locked(addr(9)));
    let c = p2p_mesh::proto::IceCandidateStruct { candidate: "c".to_string(), sdp_mid: None, sdp_m_line_index: None };
    let r = s.on_server_message(WebSocketData::IceCandidate(c, addr(8)), None);
    assert_eq!(r.err(), Some(NodeError::Link(LinkError::ProtocolViolation(Violation::LockedElsewhere))));
    assert_eq!(s.on_link_closed(), Some(2));
}
