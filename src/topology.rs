use crate::id::{dist, sector, Axe, Id};
use crate::proto::{RTCContent, RTCData};
use vstd::prelude::*;

verus! {

/// An established link to another node, and that node's id.
pub struct Peer<H> {
    pub id: Id,
    pub socket: H,
}

/// Where `insert` put the new peer.
#[derive(Debug, PartialEq, Eq, Structural, Copy, Clone)]
pub enum Placement {
    /// It took the directional slot of its sector; a peer that held the slot
    /// went to the cache.
    Slot(Axe),
    /// The slot of its sector kept a nearer peer; it went to the cache.
    Cache,
}

/// How a message that arrived over a link is shown to the local user.
#[derive(Debug, PartialEq, Eq, Structural, Copy, Clone)]
pub enum Show {
    Nothing,
    /// A public broadcast.
    Public,
    /// A message addressed to this node.
    Private,
}

/// What to do with a message that arrived over a link: how to show it, and
/// the peers to forward it to.
pub struct Routing {
    pub show: Show,
    pub forward: Vec<Id>,
}

/// A node's neighbours: at most one peer in each of the three directions
/// and a cache of the others. No id is held in two places.
pub struct Network<H> {
    id: Id,
    top: Option<Peer<H>>,
    left: Option<Peer<H>>,
    right: Option<Peer<H>>,
    peer_cache: Vec<Peer<H>>,
}

/// The id of an occupied slot, as a sequence of zero or one ids.
pub open spec fn slot_ids<H>(p: Option<Peer<H>>) -> Seq<Id> {
    match p {
        Some(p) => seq![p.id],
        None => Seq::empty(),
    }
}

/// `s` without `a` and `b`, in order.
pub open spec fn except(s: Seq<Id>, a: Id, b: Id) -> Seq<Id>
    decreases s.len(),
{
    if s.len() == 0 {
        Seq::empty()
    } else if s.last() == a || s.last() == b {
        except(s.drop_last(), a, b)
    } else {
        except(s.drop_last(), a, b).push(s.last())
    }
}

/// A broadcast leaves out the peer that relayed the message and its author,
/// and reaches every other neighbour.
pub proof fn lemma_except(s: Seq<Id>, a: Id, b: Id)
    ensures
        !except(s, a, b).contains(a),
        !except(s, a, b).contains(b),
        forall|x: Id| s.contains(x) && x != a && x != b ==> except(s, a, b).contains(x),
        forall|x: Id| except(s, a, b).contains(x) ==> s.contains(x),
    decreases s.len(),
{
    if s.len() > 0 {
        let t = s.drop_last();
        lemma_except(t, a, b);
        let e = except(s, a, b);
        let et = except(t, a, b);
        assert forall|x: Id| s.contains(x) && x != a && x != b implies e.contains(x) by {
            let i = choose|i: int| 0 <= i < s.len() && s[i] == x;
            if i < s.len() - 1 {
                assert(t[i] == x);
                assert(t.contains(x));
                assert(et.contains(x));
                let k = choose|k: int| 0 <= k < et.len() && et[k] == x;
                if !(s.last() == a || s.last() == b) {
                    assert(e[k] == x);
                } else {
                    assert(e == et);
                }
            } else {
                assert(e[e.len() - 1] == x);
            }
        }
        assert forall|x: Id| e.contains(x) implies s.contains(x) by {
            let k = choose|k: int| 0 <= k < e.len() && e[k] == x;
            if k < et.len() {
                assert(et[k] == x);
                assert(et.contains(x));
                assert(t.contains(x));
                let i = choose|i: int| 0 <= i < t.len() && t[i] == x;
                assert(s[i] == x);
            } else {
                assert(e != et);
                assert(s[s.len() - 1] == x);
            }
        }
        if !(s.last() == a || s.last() == b) {
            assert forall|x: Id| e.contains(x) implies x != a && x != b by {
                let k = choose|k: int| 0 <= k < e.len() && e[k] == x;
                if k < et.len() {
                    assert(et[k] == x);
                    assert(et.contains(x));
                }
            }
        }
    }
}

/// Whether an optional slot holds `id`.
pub open spec fn holds_in<H>(p: Option<Peer<H>>, id: Id) -> bool {
    p is Some && p.unwrap().id == id
}

/// How `insert` changes a table that does not hold the new peer yet: the
/// peer goes to the slot of its sector if that slot is empty or holds a
/// farther peer, which then goes to the cache; otherwise the new peer goes to
/// the cache. Nothing else changes.
pub open spec fn placed<H>(old: Network<H>, new: Network<H>, p: Peer<H>, r: Placement) -> bool {
    let a = sector(old.self_id(), p.id);
    &&& new.self_id() == old.self_id()
    &&& forall|b: Axe| b != a ==> #[trigger] new.slot(b) == old.slot(b)
    &&& match old.slot(a) {
        None => new.slot(a) == Some(p) && new.cache() == old.cache() && r == Placement::Slot(a),
        Some(o) => if dist(old.self_id(), o.id) > dist(old.self_id(), p.id) {
            new.slot(a) == Some(p) && new.cache() == old.cache().push(o) && r == Placement::Slot(
                a,
            )
        } else {
            new.slot(a) == old.slot(a) && new.cache() == old.cache().push(p) && r
                == Placement::Cache
        },
    }
}

/// How `remove` changes a table: each slot that held `id` is cleared, the
/// cache entry with `id` is taken out, and the peer that held it is returned;
/// a table that does not hold `id` stays as it is.
pub open spec fn removed<H>(old: Network<H>, new: Network<H>, id: Id, r: Option<Peer<H>>) -> bool {
    &&& new.self_id() == old.self_id()
    &&& forall|a: Axe|
        #[trigger] new.slot(a) == if holds_in(old.slot(a), id) {
            None
        } else {
            old.slot(a)
        }
    &&& old.cache_ids().contains(id) ==> new.cache() == old.cache().remove(old.cache_index(id))
    &&& !old.cache_ids().contains(id) ==> new.cache() == old.cache()
    &&& r.is_some() == old.holds(id)
    &&& r.is_some() ==> r.unwrap().id == id
    &&& !new.holds(id)
}

/// How a message `data` that the neighbour `from` relayed is handled: a
/// text for this node is shown as private and goes no further; a public
/// text is shown and broadcast on; a text for another node is broadcast on
/// towards it. Acknowledgements and not-found notices are neither shown nor
/// forwarded.
pub open spec fn routes<H>(n: Network<H>, data: &RTCData, from: Id, r: Routing) -> bool {
    match data.content {
        RTCContent::Message(_) => match data.to {
            Some(t) => if t == n.self_id() {
                r.show == Show::Private && r.forward@.len() == 0
            } else {
                r.show == Show::Nothing && r.forward@ == except(n.ids(), from, data.from)
            },
            None => r.show == Show::Public && r.forward@ == except(n.ids(), from, data.from),
        },
        _ => r.show == Show::Nothing && r.forward@.len() == 0,
    }
}

/// Filing a peer in a sector whose slot is taken leaves the slot to the one
/// of the two nearer to this node (the one already there on a tie) and puts
/// the other at the end of the cache.
pub proof fn lemma_nearer_keeps_slot<H>(old: Network<H>, new: Network<H>, p: Peer<H>, r: Placement)
    requires
        placed(old, new, p, r),
        old.slot(sector(old.self_id(), p.id)) is Some,
    ensures
        ({
            let a = sector(old.self_id(), p.id);
            let o = old.slot(a).unwrap();
            let me = old.self_id();
            &&& new.slot(a) is Some
            &&& new.cache().len() == old.cache().len() + 1
            &&& dist(me, new.slot(a).unwrap().id) <= dist(me, new.cache().last().id)
            &&& (new.slot(a) == Some(p) && new.cache().last() == o) || (new.slot(a) == Some(o)
                && new.cache().last() == p)
        }),
{
}

/// In a well-formed table an id held by a slot is held by no other slot and
/// not by the cache, and an id of the cache appears there once.
pub proof fn lemma_one_place<H>(n: Network<H>, id: Id)
    requires
        n.wf(),
    ensures
        forall|a: Axe, b: Axe|
            #![trigger n.slot(a), n.slot(b)]
            holds_in(n.slot(a), id) && holds_in(n.slot(b), id) ==> a == b,
        forall|a: Axe| #[trigger] holds_in(n.slot(a), id) ==> !n.cache_ids().contains(id),
        forall|i: int, j: int|
            0 <= i < n.cache_ids().len() && 0 <= j < n.cache_ids().len() && n.cache_ids()[i] == id
                && n.cache_ids()[j] == id ==> i == j,
{
}

/// Puts `peer` in `slot` if the slot is empty or holds a peer farther from
/// `origin`, which then goes to `cache`; otherwise puts `peer` in `cache`.
fn settle<H>(origin: Id, slot: &mut Option<Peer<H>>, cache: &mut Vec<Peer<H>>, peer: Peer<H>) -> (took:
    bool)
    ensures
        match *old(slot) {
            None => *final(slot) == Some(peer) && final(cache)@ == old(cache)@ && took,
            Some(o) => if dist(origin, o.id) > dist(origin, peer.id) {
                *final(slot) == Some(peer) && final(cache)@ == old(cache)@.push(o) && took
            } else {
                *final(slot) == *old(slot) && final(cache)@ == old(cache)@.push(peer) && !took
            },
        },
{
    let farther = match slot {
        Some(o) => origin.distance(&o.id) > origin.distance(&peer.id),
        None => true,
    };
    if farther {
        match slot.take() {
            Some(o) => cache.push(o),
            None => {},
        }
        *slot = Some(peer);
        true
    } else {
        cache.push(peer);
        false
    }
}

impl<H> Network<H> {
    /// This node's own id.
    pub closed spec fn self_id(self) -> Id {
        self.id
    }

    /// The peer in the slot of a direction.
    pub closed spec fn slot(self, a: Axe) -> Option<Peer<H>> {
        match a {
            Axe::Top => self.top,
            Axe::Left => self.left,
            Axe::Right => self.right,
        }
    }

    /// The peers of the cache, in the order they came in.
    pub closed spec fn cache(self) -> Seq<Peer<H>> {
        self.peer_cache@
    }

    /// The ids of the cache.
    pub open spec fn cache_ids(self) -> Seq<Id> {
        self.cache().map_values(|p: Peer<H>| p.id)
    }

    /// The ids of all neighbours: top, right, left, then the cache.
    pub open spec fn ids(self) -> Seq<Id> {
        slot_ids(self.slot(Axe::Top)) + slot_ids(self.slot(Axe::Right)) + slot_ids(
            self.slot(Axe::Left),
        ) + self.cache_ids()
    }

    /// Whether `id` is held by a slot or by the cache.
    pub open spec fn holds(self, id: Id) -> bool {
        holds_in(self.slot(Axe::Top), id) || holds_in(self.slot(Axe::Left), id) || holds_in(
            self.slot(Axe::Right),
            id,
        ) || self.cache_ids().contains(id)
    }

    /// No id is held in two places: the three slots hold different ids, none
    /// of them is in the cache, and the cache holds each id once.
    pub open spec fn wf(self) -> bool {
        &&& self.cache_ids().no_duplicates()
        &&& forall|a: Axe|
            #![trigger self.slot(a)]
            self.slot(a) is Some ==> !self.cache_ids().contains(self.slot(a).unwrap().id)
        &&& forall|a: Axe, b: Axe|
            #![trigger self.slot(a), self.slot(b)]
            a != b && self.slot(a) is Some && self.slot(b) is Some ==> self.slot(a).unwrap().id
                != self.slot(b).unwrap().id
    }

    /// Where `id` is in the cache.
    pub open spec fn cache_index(self, id: Id) -> int {
        choose|i: int| 0 <= i < self.cache_ids().len() && self.cache_ids()[i] == id
    }

    pub fn new(id: Id) -> (r: Self)
        ensures
            r.wf(),
            r.self_id() == id,
            r.slot(Axe::Top) is None,
            r.slot(Axe::Left) is None,
            r.slot(Axe::Right) is None,
            r.cache().len() == 0,
    {
        let r = Network { id, top: None, left: None, right: None, peer_cache: Vec::new() };
        assert(r.cache_ids() =~= Seq::<Id>::empty());
        r
    }

    /// This node's own id.
    pub fn id(&self) -> (r: Id)
        ensures
            r == self.self_id(),
    {
        self.id
    }

    /// Where `id` is in the cache, if it is there.
    fn cache_position(&self, id: Id) -> (r: Option<usize>)
        requires
            self.wf(),
        ensures
            r.is_some() == self.cache_ids().contains(id),
            r.is_some() ==> r.unwrap() == self.cache_index(id) && self.cache_ids()[r.unwrap() as int]
                == id,
    {
        let mut i: usize = 0;
        while i < self.peer_cache.len()
            invariant
                self.wf(),
                i <= self.peer_cache@.len(),
                self.cache_ids().len() == self.peer_cache@.len(),
                forall|j: int| 0 <= j < i ==> #[trigger] self.cache_ids()[j] != id,
            decreases self.peer_cache@.len() - i,
        {
            if self.peer_cache[i].id == id {
                proof {
                    let c = self.cache_ids();
                    assert(c[i as int] == id);
                    let k = self.cache_index(id);
                    assert(c[k] == id);
                }
                return Some(i);
            }
            i = i + 1;
        }
        None
    }

    /// Whether a slot or the cache holds `id`.
    pub fn contains(&self, id: Id) -> (r: bool)
        requires
            self.wf(),
        ensures
            r == self.holds(id),
    {
        let in_slot = match &self.top {
            Some(p) => p.id == id,
            None => false,
        } || match &self.left {
            Some(p) => p.id == id,
            None => false,
        } || match &self.right {
            Some(p) => p.id == id,
            None => false,
        };
        in_slot || self.cache_position(id).is_some()
    }

    /// Files a new link: in the slot of its sector when that slot is empty or
    /// holds a farther peer (which moves to the cache), in the cache
    /// otherwise. A peer whose id is already held is handed back unfiled.
    pub fn insert(&mut self, socket: H, id: Id) -> (r: Result<Placement, Peer<H>>)
        requires
            old(self).wf(),
        ensures
            final(self).wf(),
            old(self).holds(id) ==> r == Err::<Placement, Peer<H>>(Peer { id, socket })
                && *final(self) == *old(self),
            !old(self).holds(id) ==> match r {
                Ok(pl) => placed(*old(self), *final(self), Peer { id, socket }, pl),
                Err(_) => false,
            },
    {
        let peer = Peer { id, socket };
        if self.contains(id) {
            return Err(peer);
        }
        let ghost before = *self;
        let axe = self.id.get_axe(id);
        let took = match axe {
            Axe::Top => settle(self.id, &mut self.top, &mut self.peer_cache, peer),
            Axe::Left => settle(self.id, &mut self.left, &mut self.peer_cache, peer),
            Axe::Right => settle(self.id, &mut self.right, &mut self.peer_cache, peer),
        };
        let r = if took {
            Placement::Slot(axe)
        } else {
            Placement::Cache
        };
        proof {
            let old_ids = before.cache_ids();
            let new_ids = self.cache_ids();
            assert(forall|b: Axe| b != axe ==> #[trigger] self.slot(b) == before.slot(b));
            if new_ids.len() > old_ids.len() {
                let x = new_ids.last();
                assert(new_ids =~= old_ids.push(x));
                assert(!old_ids.contains(x));
                assert forall|i: int, j: int|
                    0 <= i < j < new_ids.len() implies new_ids[i] != new_ids[j] by {
                    if j == new_ids.len() - 1 {
                        assert(old_ids[i] == new_ids[i]);
                    }
                }
                assert forall|a: Axe| #![trigger self.slot(a)] self.slot(a) is Some implies !new_ids.contains(self.slot(a).unwrap().id) by {
                    let y = self.slot(a).unwrap().id;
                    if new_ids.contains(y) {
                        let k = choose|k: int| 0 <= k < new_ids.len() && new_ids[k] == y;
                        if k < old_ids.len() {
                            assert(old_ids[k] == y);
                        }
                    }
                }
            } else {
                assert(new_ids =~= old_ids);
            }
        }
        Ok(r)
    }

    /// Clears every slot that holds `id` and takes it out of the cache;
    /// each place is checked on its own. Returns the peer that held `id`, or
    /// `None`, with nothing changed, when no place held it.
    pub fn remove(&mut self, id: Id) -> (r: Option<Peer<H>>)
        requires
            old(self).wf(),
        ensures
            final(self).wf(),
            removed(*old(self), *final(self), id, r),
    {
        let ghost before = *self;
        let mut r: Option<Peer<H>> = None;
        let top_has = match &self.top {
            Some(p) => p.id == id,
            None => false,
        };
        if top_has {
            r = self.top.take();
        }
        let right_has = match &self.right {
            Some(p) => p.id == id,
            None => false,
        };
        if right_has {
            r = self.right.take();
        }
        let left_has = match &self.left {
            Some(p) => p.id == id,
            None => false,
        };
        if left_has {
            r = self.left.take();
        }
        match self.cache_position(id) {
            Some(i) => {
                r = Some(self.peer_cache.remove(i));
                proof {
                    let old_ids = before.cache_ids();
                    let new_ids = self.cache_ids();
                    assert(new_ids =~= old_ids.remove(i as int));
                    assert forall|j: int, k: int|
                        0 <= j < k < new_ids.len() implies new_ids[j] != new_ids[k] by {
                        if j >= i {
                            assert(new_ids[j] == old_ids[j + 1]);
                        } else {
                            assert(new_ids[j] == old_ids[j]);
                        }
                        if k >= i {
                            assert(new_ids[k] == old_ids[k + 1]);
                        } else {
                            assert(new_ids[k] == old_ids[k]);
                        }
                    }
                    assert forall|x: Id| new_ids.contains(x) implies old_ids.contains(x) && x
                        != id by {
                        let k = choose|k: int| 0 <= k < new_ids.len() && new_ids[k] == x;
                        if k >= i {
                            assert(new_ids[k] == old_ids[k + 1]);
                            assert(old_ids[i as int] != old_ids[k + 1]);
                        } else {
                            assert(new_ids[k] == old_ids[k]);
                            assert(old_ids[k] != old_ids[i as int]);
                        }
                    }
                }
            },
            None => {
                proof {
                    assert(self.cache_ids() =~= before.cache_ids());
                }
            },
        }
        proof {
            assert(forall|a: Axe| #[trigger] self.slot(a) == if holds_in(before.slot(a), id) {
                None
            } else {
                before.slot(a)
            });
        }
        r
    }

    /// The neighbours that a broadcast goes to: every occupied slot (top,
    /// right, left) and every cache entry, except the peer that relayed the
    /// message and its author.
    pub fn broadcast(&self, relayed_by: Id, author: Id) -> (r: Vec<Id>)
        ensures
            r@ == except(self.ids(), relayed_by, author),
    {
        let mut r: Vec<Id> = Vec::new();
        let ghost mut seen: Seq<Id> = Seq::empty();
        assert(r@ =~= except(seen, relayed_by, author));
        match &self.top {
            Some(p) => {
                if p.id != relayed_by && p.id != author {
                    r.push(p.id);
                }
                proof {
                    assert(seen.push(p.id).drop_last() =~= seen);
                    seen = seen.push(p.id);
                }
                assert(r@ == except(seen, relayed_by, author));
            },
            None => {},
        }
        match &self.right {
            Some(p) => {
                if p.id != relayed_by && p.id != author {
                    r.push(p.id);
                }
                proof {
                    assert(seen.push(p.id).drop_last() =~= seen);
                    seen = seen.push(p.id);
                }
                assert(r@ == except(seen, relayed_by, author));
            },
            None => {},
        }
        match &self.left {
            Some(p) => {
                if p.id != relayed_by && p.id != author {
                    r.push(p.id);
                }
                proof {
                    assert(seen.push(p.id).drop_last() =~= seen);
                    seen = seen.push(p.id);
                }
                assert(r@ == except(seen, relayed_by, author));
            },
            None => {},
        }
        let ghost slots = seen;
        assert(slots =~= slot_ids(self.slot(Axe::Top)) + slot_ids(self.slot(Axe::Right))
            + slot_ids(self.slot(Axe::Left)));
        assert(slots + self.cache_ids().take(0) =~= slots);
        let mut i: usize = 0;
        while i < self.peer_cache.len()
            invariant
                i <= self.peer_cache@.len(),
                self.cache_ids().len() == self.peer_cache@.len(),
                r@ == except(slots + self.cache_ids().take(i as int), relayed_by, author),
            decreases self.peer_cache@.len() - i,
        {
            let x = self.peer_cache[i].id;
            assert((slots + self.cache_ids().take(i + 1)).drop_last() =~= slots
                + self.cache_ids().take(i as int));
            if x != relayed_by && x != author {
                r.push(x);
            }
            i = i + 1;
        }
        assert(slots + self.cache_ids().take(i as int) =~= self.ids());
        r
    }

    /// Decides what to do with a message that a neighbour with id `from`
    /// relayed: a text for this node is shown as private and goes no
    /// further; a public text is shown and broadcast on; a text for another
    /// node is broadcast on towards it. Acknowledgements and not-found
    /// notices are neither shown nor forwarded.
    pub fn process(&self, data: &RTCData, from: Id) -> (r: Routing)
        ensures
            routes(*self, data, from, r),
    {
        match &data.content {
            RTCContent::Message(_) => match data.to {
                Some(t) => if t == self.id {
                    Routing { show: Show::Private, forward: Vec::new() }
                } else {
                    Routing { show: Show::Nothing, forward: self.broadcast(from, data.from) }
                },
                None => Routing { show: Show::Public, forward: self.broadcast(from, data.from) },
            },
            _ => Routing { show: Show::Nothing, forward: Vec::new() },
        }
    }

    /// The id of the peer in the slot of a direction.
    pub fn slot_id(&self, a: Axe) -> (r: Option<Id>)
        ensures
            r == match self.slot(a) {
                Some(p) => Some(p.id),
                None => None::<Id>,
            },
    {
        let p = match a {
            Axe::Top => &self.top,
            Axe::Left => &self.left,
            Axe::Right => &self.right,
        };
        match p {
            Some(p) => Some(p.id),
            None => None,
        }
    }

    /// The ids of the cache, in order.
    pub fn cache_list(&self) -> (r: Vec<Id>)
        ensures
            r@ == self.cache_ids(),
    {
        let mut r: Vec<Id> = Vec::new();
        let mut i: usize = 0;
        while i < self.peer_cache.len()
            invariant
                i <= self.peer_cache@.len(),
                self.cache_ids().len() == self.peer_cache@.len(),
                r@ == self.cache_ids().take(i as int),
            decreases self.peer_cache@.len() - i,
        {
            r.push(self.peer_cache[i].id);
            assert(r@ =~= self.cache_ids().take(i + 1));
            i = i + 1;
        }
        assert(r@ =~= self.cache_ids());
        r
    }

    /// The link of the neighbour with id `id`, wherever it is filed.
    pub fn peer(&self, id: Id) -> (r: Option<&H>)
        requires
            self.wf(),
        ensures
            r.is_some() == self.holds(id),
            forall|a: Axe|
                #[trigger] holds_in(self.slot(a), id) ==> r == Some(&self.slot(a).unwrap().socket),
            self.cache_ids().contains(id) ==> r == Some(&self.cache()[self.cache_index(id)].socket),
    {
        match &self.top {
            Some(p) => if p.id == id {
                return Some(&p.socket);
            },
            None => {},
        }
        match &self.left {
            Some(p) => if p.id == id {
                return Some(&p.socket);
            },
            None => {},
        }
        match &self.right {
            Some(p) => if p.id == id {
                return Some(&p.socket);
            },
            None => {},
        }
        match self.cache_position(id) {
            Some(i) => Some(&self.peer_cache[i].socket),
            None => None,
        }
    }
}

} // verus!
