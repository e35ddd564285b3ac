use p2p_mesh::id::{DecodeError, Id};
use p2p_mesh::link::{LinkError, Pstream, State, Violation};
use p2p_mesh::proto::Addr;

fn addr(port: u16) -> Addr {
    Addr { ip: 0xffff_7f00_0001, port, v6: false }
}

#[test]
fn answer_while_disconnected_is_refused() {
    let mut p: Pstream<u8> = Pstream::new();
    let r = p.on_answer(addr(1));
    assert_eq!(r, Err(LinkError::ProtocolViolation(Violation::NotLocked)));
    assert_eq!(Violation::NotLocked.describe(), "not locked");
    assert_eq!(p.state(), State::Disconnected(None));
    assert!(p.socket().is_none());
}

#[test]
fn locked_link_refuses_other_address() {
    let mut p: Pstream<u8> = Pstream::new();
    p.initiate(7, 100).unwrap();
    assert_eq!(p.state(), State::Waiting(100));
    p.on_answer(addr(1)).unwrap();
    assert_eq!(p.state(), State::Locked(addr(1)));
    assert_eq!(p.on_answer(addr(2)), Err(LinkError::ProtocolViolation(Violation::LockedElsewhere)));
    assert_eq!(p.on_ice_candidate(addr(2)), Err(LinkError::ProtocolViolation(Violation::LockedElsewhere)));
    assert_eq!(p.state(), State::Locked(addr(1)));
    assert_eq!(p.on_ice_candidate(addr(1)), Ok(()));
    assert!(p.is_locked(Some(addr(1))));
    assert!(!p.is_locked(Some(addr(2))));
    assert!(p.is_locked(None));
}

#[test]
fn offer_locks_and_takes_transport() {
    let mut p: Pstream<u8> = Pstream::new();
    assert_eq!(p.on_offer(addr(3), None), Err(LinkError::MissingTransport));
    assert!(p.is_disconnected());
    p.on_offer(addr(3), Some(9)).unwrap();
    assert_eq!(p.state(), State::Locked(addr(3)));
    assert_eq!(p.socket(), Some(&9));
    assert_eq!(p.on_offer(addr(4), Some(1)), Err(LinkError::ProtocolViolation(Violation::LockedElsewhere)));
    assert_eq!(p.socket(), Some(&9));
}

#[test]
fn offer_while_waiting_keeps_transport() {
    let mut p: Pstream<u8> = Pstream::new();
    p.initiate(5, 1).unwrap();
    assert!(p.is_waiting());
    assert_eq!(p.initiate(6, 2), Err(LinkError::ProtocolViolation(Violation::NotDisconnected)));
    p.on_offer(addr(8), Some(6)).unwrap();
    assert_eq!(p.socket(), Some(&5));
}

#[test]
fn open_then_promote() {
    let mut p: Pstream<u8> = Pstream::new();
    assert_eq!(p.on_open(1), Err(LinkError::ProtocolViolation(Violation::NotLocked)));
    p.on_offer(addr(3), Some(4)).unwrap();
    assert!(matches!(p.promote("b"), Err(LinkError::ProtocolViolation(Violation::NotConnected))));
    p.on_open(42).unwrap();
    assert!(p.is_connected());
    assert_eq!(p.on_offer(addr(3), None), Err(LinkError::ProtocolViolation(Violation::AlreadyConnected)));
    assert!(matches!(p.promote("b!"), Err(LinkError::Decode(DecodeError::InvalidLetter))));
    assert_eq!(p.state(), State::Connected(42));
    let id = Id::new(3, -8);
    let peer = p.promote(&id.to_name()).ok().unwrap();
    assert_eq!(peer.id, id);
    assert_eq!(peer.socket, 4);
    assert_eq!(p.state(), State::Disconnected(None));
    assert!(p.socket().is_none());
}

#[test]
fn close_from_any_state() {
    let mut p: Pstream<u8> = Pstream::new();
    p.initiate(3, 10).unwrap();
    assert_eq!(p.close(Some(11)), Some(3));
    assert_eq!(p.state(), State::Disconnected(Some(11)));
    assert_eq!(p.close(None), None);
}
