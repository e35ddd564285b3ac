use p2p_mesh::id::{Axe, Id};
use p2p_mesh::proto::{RTCContent, RTCData};
use p2p_mesh::topology::{Network, Placement, Show};

fn table() -> Network<&'static str> {
    Network::new(Id::new(0, 0))
}

#[test]
fn insert_nearer_takes_slot() {
    let mut n = table();
    let a = Id::new(0, 5);
    let b = Id::new(0, 3);
    assert!(matches!(n.insert("a", a), Ok(Placement::Slot(Axe::Top))));
    assert_eq!(n.slot_id(Axe::Top), Some(a));
    assert!(matches!(n.insert("b", b), Ok(Placement::Slot(Axe::Top))));
    assert_eq!(n.slot_id(Axe::Top), Some(b));
    assert_eq!(n.cache_list(), vec![a]);
    assert_eq!(n.peer(a), Some(&"a"));
    assert_eq!(n.peer(b), Some(&"b"));
}

#[test]
fn insert_farther_goes_to_cache() {
    let mut n = table();
    let near = Id::new(3, 0);
    let far = Id::new(9, 0);
    assert!(matches!(n.insert("near", near), Ok(Placement::Slot(Axe::Right))));
    assert!(matches!(n.insert("far", far), Ok(Placement::Cache)));
    assert_eq!(n.slot_id(Axe::Right), Some(near));
    assert_eq!(n.cache_list(), vec![far]);
    // equal distance: the slot keeps its peer
    let tie = Id::new(0, -3);
    assert_eq!(n.id().get_axe(tie), Axe::Right);
    assert!(matches!(n.insert("tie", tie), Ok(Placement::Cache)));
    assert_eq!(n.slot_id(Axe::Right), Some(near));
    assert_eq!(n.cache_list(), vec![far, tie]);
}

#[test]
fn insert_duplicate_is_refused() {
    let mut n = table();
    let a = Id::new(-4, 0);
    assert!(matches!(n.insert("a", a), Ok(Placement::Slot(Axe::Left))));
    match n.insert("again", a) {
        Err(p) => {
            assert_eq!(p.id, a);
            assert_eq!(p.socket, "again");
        }
        Ok(_) => panic!("a duplicate id was filed"),
    }
    assert_eq!(n.slot_id(Axe::Left), Some(a));
    assert!(n.cache_list().is_empty());
}

#[test]
fn remove_checks_every_place() {
    let mut n = table();
    let top = Id::new(0, 4);
    let right = Id::new(4, 0);
    let left = Id::new(-4, 0);
    let cached = Id::new(0, 9);
    n.insert("top", top).ok().unwrap();
    n.insert("right", right).ok().unwrap();
    n.insert("left", left).ok().unwrap();
    n.insert("cached", cached).ok().unwrap();
    // the top slot is occupied, yet the right slot is still searched
    let p = n.remove(right).unwrap();
    assert_eq!((p.id, p.socket), (right, "right"));
    assert_eq!(n.slot_id(Axe::Right), None);
    assert_eq!(n.slot_id(Axe::Top), Some(top));
    let p = n.remove(left).unwrap();
    assert_eq!(p.id, left);
    assert_eq!(n.slot_id(Axe::Left), None);
    let p = n.remove(cached).unwrap();
    assert_eq!(p.id, cached);
    assert!(n.cache_list().is_empty());
    assert!(n.remove(Id::new(1, 1)).is_none());
    assert!(n.contains(top));
    assert!(!n.contains(cached));
}

#[test]
fn broadcast_skips_relay_and_author() {
    let mut n = table();
    let top = Id::new(0, 4);
    let right = Id::new(4, 0);
    let left = Id::new(-4, 0);
    let cached = Id::new(0, 9);
    for (s, id) in [("t", top), ("r", right), ("l", left), ("c", cached)] {
        n.insert(s, id).ok().unwrap();
    }
    assert_eq!(n.broadcast(Id::new(7, 7), Id::new(8, 8)), vec![top, right, left, cached]);
    assert_eq!(n.broadcast(right, cached), vec![top, left]);
    assert_eq!(n.broadcast(top, top), vec![right, left, cached]);
}

fn text(from: Id, to: Option<Id>) -> RTCData {
    RTCData { id: 1, timestamp: 2, from, content: RTCContent::Message("hi".to_string()), to }
}

#[test]
fn process_routes_by_target() {
    let mut n = table();
    let a = Id::new(0, 4);
    let b = Id::new(4, 0);
    n.insert("a", a).ok().unwrap();
    n.insert("b", b).ok().unwrap();
    let author = Id::new(50, 50);

    let public = n.process(&text(author, None), a);
    assert_eq!(public.show, Show::Public);
    assert_eq!(public.forward, vec![b]);

    let mine = n.process(&text(author, Some(Id::new(0, 0))), a);
    assert_eq!(mine.show, Show::Private);
    assert!(mine.forward.is_empty());

    let other = n.process(&text(author, Some(Id::new(9, 9))), b);
    assert_eq!(other.show, Show::Nothing);
    assert_eq!(other.forward, vec![a]);

    let ack = RTCData { id: 1, timestamp: 2, from: author, content: RTCContent::Received(1, 2), to: None };
    let r = n.process(&ack, a);
    assert_eq!(r.show, Show::Nothing);
    assert!(r.forward.is_empty());
    let nf = RTCData { id: 1, timestamp: 2, from: author, content: RTCContent::NotFound, to: None };
    assert!(n.process(&nf, a).forward.is_empty());
}
