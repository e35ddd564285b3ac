use p2p_mesh::id::Id;
use p2p_mesh::proto::{Addr, IceCandidateStruct, WebSocketData};
use p2p_mesh::relay::Registry;

fn addr(port: u16) -> Addr {
    Addr { ip: 0xffff_0a00_0001, port, v6: false }
}

#[test]
fn rendezvous_with_single_peer_sends_nothing() {
    let mut r: Registry<u8> = Registry::new();
    r.insert(addr(1), Id::new(0, 0), 1);
    let out = r.process(addr(1), WebSocketData::OfferSDP("sdp".to_string(), None));
    assert!(out.reply.is_none());
    assert!(out.outgoing.is_none());
}

#[test]
fn rendezvous_picks_nearest() {
    let mut r: Registry<u8> = Registry::new();
    r.insert(addr(1), Id::new(0, 0), 1);
    r.insert(addr(2), Id::new(10, 0), 2);
    r.insert(addr(3), Id::new(0, 10), 3);
    r.insert(addr(4), Id::new(0, 30), 4);
    assert_eq!(r.closest_peer(addr(1)), Some(addr(2)));
    let out = r.process(addr(1), WebSocketData::OfferSDP("sdp".to_string(), None));
    assert!(out.reply.is_none());
    let o = out.outgoing.unwrap();
    assert_eq!(o.targets, vec![addr(2)]);
    match o.message {
        WebSocketData::OfferSDP(s, Some(a)) => {
            assert_eq!(s, "sdp");
            assert_eq!(a, addr(1));
        }
        m => panic!("unexpected {:?}", m),
    }
    assert_eq!(r.closest_peer(addr(4)), Some(addr(3)));
    assert_eq!(r.closest_peer(addr(9)), None);
}

#[test]
fn rendezvous_strictly_nearest() {
    let mut r: Registry<u8> = Registry::new();
    r.insert(addr(1), Id::new(0, 0), 1);
    r.insert(addr(2), Id::new(10, 0), 2);
    r.insert(addr(3), Id::new(0, 4), 3);
    assert_eq!(r.closest_peer(addr(1)), Some(addr(3)));
}

#[test]
fn answer_and_candidate_are_proxied() {
    let mut r: Registry<u8> = Registry::new();
    r.insert(addr(1), Id::new(0, 0), 1);
    r.insert(addr(2), Id::new(1, 1), 2);
    let out = r.process(addr(1), WebSocketData::AnswerSDP("ans".to_string(), addr(2)));
    let o = out.outgoing.unwrap();
    assert_eq!(o.targets, vec![addr(2)]);
    assert!(matches!(o.message, WebSocketData::AnswerSDP(ref s, a) if s == "ans" && a == addr(1)));

    let c = IceCandidateStruct { candidate: "cand".to_string(), sdp_mid: Some("0".to_string()), sdp_m_line_index: Some(0) };
    let out = r.process(addr(2), WebSocketData::IceCandidate(c, addr(1)));
    let o = out.outgoing.unwrap();
    assert_eq!(o.targets, vec![addr(1)]);
    assert!(matches!(o.message, WebSocketData::IceCandidate(ref c, a) if c.candidate == "cand" && a == addr(2)));

    let out = r.process(addr(1), WebSocketData::AnswerSDP("ans".to_string(), addr(7)));
    assert!(out.outgoing.is_none() && out.reply.is_none());
}

#[test]
fn text_goes_to_all_others() {
    let mut r: Registry<u8> = Registry::new();
    r.insert(addr(1), Id::new(0, 0), 1);
    r.insert(addr(2), Id::new(1, 1), 2);
    r.insert(addr(3), Id::new(2, 2), 3);
    let out = r.process(addr(2), WebSocketData::Message("hello".to_string()));
    assert_eq!(out.outgoing.unwrap().targets, vec![addr(1), addr(3)]);
}

#[test]
fn id_request_is_answered() {
    let mut r: Registry<u8> = Registry::new();
    let id = r.connect(addr(5), 5);
    assert_eq!(r.id_of(addr(5)), Some(id));
    let out = r.process(addr(5), WebSocketData::Id(None));
    assert!(matches!(out.reply, Some(WebSocketData::Id(Some(i))) if i == id));
    let out = r.process(addr(6), WebSocketData::Id(None));
    assert!(out.reply.is_none());
}

#[test]
fn registry_insert_replace_remove() {
    let mut r: Registry<u8> = Registry::new();
    r.insert(addr(1), Id::new(0, 0), 1);
    r.insert(addr(1), Id::new(3, 3), 9);
    assert_eq!(r.len(), 1);
    assert_eq!(r.id_of(addr(1)), Some(Id::new(3, 3)));
    assert_eq!(r.channel(addr(1)), Some(&9));
    assert_eq!(r.remove(addr(1)), Some(9));
    assert_eq!(r.remove(addr(1)), None);
    assert_eq!(r.len(), 0);
}

#[test]
fn rendezvous_three_peers() {
    let mut r: Registry<u8> = Registry::new();
    r.insert(addr(1), Id::new(0, 0), 1);
    r.insert(addr(2), Id::new(10, 0), 2);
    r.insert(addr(3), Id::new(0, 10), 3);
    let out = r.process(addr(1), WebSocketData::OfferSDP("s".to_string(), None));
    let targets = out.outgoing.unwrap().targets;
    // both are at distance 10: the first registered is chosen
    assert_eq!(targets, vec![addr(2)]);
}
