use crate::id::{dist, Id};
use crate::proto::{Addr, WebSocketData};
use vstd::prelude::*;

verus! {

/// A connection known to the relay: its address, the id assigned to it and
/// the channel that messages for it are handed to.
pub struct Member<C> {
    pub addr: Addr,
    pub id: Id,
    pub channel: C,
}

/// The relay's registry of connections, in the order they registered. No
/// address appears twice.
pub struct Registry<C> {
    members: Vec<Member<C>>,
}

/// A message to hand to the channels of some connections.
pub struct Outgoing {
    pub message: WebSocketData,
    pub targets: Vec<Addr>,
}

/// What the relay does with a message: the reply to its sender, if any, and
/// the message it forwards to other connections, if any.
pub struct Relayed {
    pub reply: Option<WebSocketData>,
    pub outgoing: Option<Outgoing>,
}

/// No address is registered twice.
pub open spec fn distinct_addrs(s: Seq<(Addr, Id)>) -> bool {
    forall|i: int, j: int| 0 <= i < j < s.len() ==> #[trigger] s[i].0 != #[trigger] s[j].0
}

/// Whether an address is registered.
pub open spec fn has_addr(s: Seq<(Addr, Id)>, a: Addr) -> bool {
    exists|i: int| 0 <= i < s.len() && #[trigger] s[i].0 == a
}

/// Where an address is registered.
pub open spec fn index_of(s: Seq<(Addr, Id)>, a: Addr) -> int {
    choose|i: int| 0 <= i < s.len() && #[trigger] s[i].0 == a
}

/// The id registered for an address.
pub open spec fn id_at(s: Seq<(Addr, Id)>, a: Addr) -> Id {
    s[index_of(s, a)].1
}

/// The registry after `a` registers with `id`: an existing entry for `a` is
/// replaced in place, otherwise the entry is appended.
pub open spec fn register(s: Seq<(Addr, Id)>, a: Addr, id: Id) -> Seq<(Addr, Id)> {
    if has_addr(s, a) {
        s.update(index_of(s, a), (a, id))
    } else {
        s.push((a, id))
    }
}

/// Entry `i` is, among the connections other than `from`, one nearest to
/// `origin`, and the first such in registration order.
pub open spec fn is_nearest(s: Seq<(Addr, Id)>, from: Addr, origin: Id, i: int) -> bool {
    &&& 0 <= i < s.len()
    &&& s[i].0 != from
    &&& forall|j: int|
        0 <= j < s.len() && #[trigger] s[j].0 != from ==> dist(origin, s[i].1) <= dist(
            origin,
            s[j].1,
        )
    &&& forall|j: int|
        0 <= j < i && #[trigger] s[j].0 != from ==> dist(origin, s[i].1) < dist(origin, s[j].1)
}

/// The addresses other than `from`, in registration order.
pub open spec fn others(s: Seq<(Addr, Id)>, from: Addr) -> Seq<Addr>
    decreases s.len(),
{
    if s.len() == 0 {
        Seq::empty()
    } else if s.last().0 == from {
        others(s.drop_last(), from)
    } else {
        others(s.drop_last(), from).push(s.last().0)
    }
}

/// `r` forwards exactly `m` to exactly the addresses `t`.
pub open spec fn forwards(r: Relayed, m: WebSocketData, t: Seq<Addr>) -> bool {
    r.outgoing.is_some() && r.outgoing.unwrap().message == m && r.outgoing.unwrap().targets@ == t
}

/// What the relay owes for each message that a registered or unregistered
/// address `from` sends.
pub open spec fn relays(s: Seq<(Addr, Id)>, from: Addr, msg: WebSocketData, r: Relayed) -> bool {
    match msg {
        WebSocketData::OfferSDP(sdp, None) => r.reply is None && if s.len() >= 2 && has_addr(
            s,
            from,
        ) {
            exists|i: int|
                is_nearest(s, from, id_at(s, from), i) && forwards(
                    r,
                    WebSocketData::OfferSDP(sdp, Some(from)),
                    seq![s[i].0],
                )
        } else {
            r.outgoing is None
        },
        WebSocketData::OfferSDP(sdp, Some(t)) => r.reply is None && if s.len() >= 2 && has_addr(
            s,
            t,
        ) {
            forwards(r, WebSocketData::OfferSDP(sdp, Some(from)), seq![t])
        } else {
            r.outgoing is None
        },
        WebSocketData::AnswerSDP(sdp, t) => r.reply is None && if has_addr(s, t) {
            forwards(r, WebSocketData::AnswerSDP(sdp, from), seq![t])
        } else {
            r.outgoing is None
        },
        WebSocketData::IceCandidate(c, t) => r.reply is None && if has_addr(s, t) {
            forwards(r, WebSocketData::IceCandidate(c, from), seq![t])
        } else {
            r.outgoing is None
        },
        WebSocketData::Message(text) => r.reply is None && forwards(
            r,
            WebSocketData::Message(text),
            others(s, from),
        ),
        WebSocketData::Id(_) => r.outgoing is None && if has_addr(s, from) {
            r.reply == Some(WebSocketData::Id(Some(id_at(s, from))))
        } else {
            r.reply is None
        },
    }
}

/// With fewer than two connections registered, a rendezvous request is
/// neither forwarded nor answered.
pub proof fn lemma_lonely_rendezvous(s: Seq<(Addr, Id)>, from: Addr, sdp: String, r: Relayed)
    requires
        s.len() < 2,
        relays(s, from, WebSocketData::OfferSDP(sdp, None), r),
    ensures
        r.outgoing is None,
        r.reply is None,
{
}

/// A rendezvous request from a registered address, with at least one other
/// connection registered, is forwarded to exactly one connection: another
/// one, and none of the others is nearer to the requester.
pub proof fn lemma_rendezvous_nearest(s: Seq<(Addr, Id)>, from: Addr, sdp: String, r: Relayed)
    requires
        distinct_addrs(s),
        s.len() >= 2,
        has_addr(s, from),
        relays(s, from, WebSocketData::OfferSDP(sdp, None), r),
    ensures
        r.outgoing is Some,
        r.outgoing.unwrap().targets@.len() == 1,
        r.outgoing.unwrap().message == WebSocketData::OfferSDP(sdp, Some(from)),
        ({
            let t = r.outgoing.unwrap().targets@[0];
            &&& t != from
            &&& has_addr(s, t)
            &&& forall|j: int|
                0 <= j < s.len() && #[trigger] s[j].0 != from ==> dist(id_at(s, from), id_at(s, t))
                    <= dist(id_at(s, from), s[j].1)
        }),
{
    let i = choose|i: int|
        is_nearest(s, from, id_at(s, from), i) && forwards(
            r,
            WebSocketData::OfferSDP(sdp, Some(from)),
            seq![s[i].0],
        );
    lemma_index_of(s, i);
}

/// Relies on rand::random: draws an `i32`; nothing is promised of its value.
#[verifier::external_body]
fn random_coordinate() -> i32 {
    rand::random::<i32>()
}

proof fn lemma_index_of(s: Seq<(Addr, Id)>, i: int)
    requires
        distinct_addrs(s),
        0 <= i < s.len(),
    ensures
        has_addr(s, s[i].0),
        index_of(s, s[i].0) == i,
{
    let a = s[i].0;
    assert(has_addr(s, a));
    let k = index_of(s, a);
    if k != i {
        if k < i {
            assert(s[k].0 != s[i].0);
        } else {
            assert(s[i].0 != s[k].0);
        }
    }
}

/// At most one entry is the nearest other connection, so the target of a
/// rendezvous is fully determined by the registry.
pub proof fn lemma_nearest_unique(s: Seq<(Addr, Id)>, from: Addr, origin: Id, i: int, j: int)
    requires
        is_nearest(s, from, origin, i),
        is_nearest(s, from, origin, j),
    ensures
        i == j,
{
    if i < j {
        assert(s[i].0 != from);
    } else if j < i {
        assert(s[j].0 != from);
    }
}

impl<C> View for Registry<C> {
    type V = Seq<(Addr, Id)>;

    closed spec fn view(&self) -> Seq<(Addr, Id)> {
        self.members@.map_values(|m: Member<C>| (m.addr, m.id))
    }
}

impl<C> Registry<C> {
    /// Every address is registered once.
    pub open spec fn wf(&self) -> bool {
        distinct_addrs(self@)
    }

    /// The channel of entry `i`.
    pub closed spec fn channel_at(&self, i: int) -> C {
        self.members@[i].channel
    }

    pub fn new() -> (r: Self)
        ensures
            r@ == Seq::<(Addr, Id)>::empty(),
            r.wf(),
    {
        let r = Registry { members: Vec::new() };
        assert(r@ =~= Seq::<(Addr, Id)>::empty());
        r
    }

    pub fn len(&self) -> (r: usize)
        ensures
            r == self@.len(),
    {
        self.members.len()
    }

    /// Where `addr` is registered, if it is.
    pub fn position(&self, addr: Addr) -> (r: Option<usize>)
        requires
            self.wf(),
        ensures
            r.is_some() == has_addr(self@, addr),
            r.is_some() ==> r.unwrap() == index_of(self@, addr) && self@[r.unwrap() as int].0
                == addr,
    {
        let mut i: usize = 0;
        while i < self.members.len()
            invariant
                self.wf(),
                i <= self.members@.len(),
                self@.len() == self.members@.len(),
                forall|j: int| 0 <= j < i ==> #[trigger] self@[j].0 != addr,
            decreases self.members@.len() - i,
        {
            if self.members[i].addr == addr {
                proof {
                    lemma_index_of(self@, i as int);
                }
                return Some(i);
            }
            i = i + 1;
        }
        None
    }

    /// The id assigned to `addr`, if it is registered.
    pub fn id_of(&self, addr: Addr) -> (r: Option<Id>)
        requires
            self.wf(),
        ensures
            r.is_some() == has_addr(self@, addr),
            r.is_some() ==> r.unwrap() == id_at(self@, addr),
    {
        match self.position(addr) {
            Some(i) => Some(self.members[i].id),
            None => None,
        }
    }

    /// The channel of `addr`, if it is registered.
    pub fn channel(&self, addr: Addr) -> (r: Option<&C>)
        requires
            self.wf(),
        ensures
            r.is_some() == has_addr(self@, addr),
            r.is_some() ==> *r.unwrap() == self.channel_at(index_of(self@, addr)),
    {
        match self.position(addr) {
            Some(i) => Some(&self.members[i].channel),
            None => None,
        }
    }

    /// Registers `addr` with `id` and `channel`, replacing an earlier entry of
    /// the same address.
    pub fn insert(&mut self, addr: Addr, id: Id, channel: C)
        requires
            old(self).wf(),
        ensures
            final(self).wf(),
            final(self)@ == register(old(self)@, addr, id),
            final(self).channel_at(index_of(final(self)@, addr)) == channel,
    {
        let ghost s = self@;
        match self.position(addr) {
            Some(i) => {
                self.members.set(i, Member { addr, id, channel });
                assert(self@ =~= s.update(i as int, (addr, id)));
                proof {
                    lemma_index_of(self@, i as int);
                }
            },
            None => {
                self.members.push(Member { addr, id, channel });
                assert(self@ =~= s.push((addr, id)));
                proof {
                    lemma_index_of(self@, s.len() as int);
                }
            },
        }
    }

    /// Registers a new connection under a freshly drawn random id, and
    /// returns that id.
    pub fn connect(&mut self, addr: Addr, channel: C) -> (r: Id)
        requires
            old(self).wf(),
        ensures
            final(self).wf(),
            final(self)@ == register(old(self)@, addr, r),
            final(self).channel_at(index_of(final(self)@, addr)) == channel,
    {
        let id = Id::new(random_coordinate(), random_coordinate());
        self.insert(addr, id, channel);
        id
    }

    /// Forgets a connection; returns its channel if it was registered.
    pub fn remove(&mut self, addr: Addr) -> (r: Option<C>)
        requires
            old(self).wf(),
        ensures
            final(self).wf(),
            r.is_some() == has_addr(old(self)@, addr),
            has_addr(old(self)@, addr) ==> final(self)@ == old(self)@.remove(
                index_of(old(self)@, addr),
            ) && r.unwrap() == old(self).channel_at(index_of(old(self)@, addr)),
            !has_addr(old(self)@, addr) ==> final(self)@ == old(self)@,
            !has_addr(final(self)@, addr),
    {
        let ghost s = self@;
        match self.position(addr) {
            Some(i) => {
                let m = self.members.remove(i);
                assert(self@ =~= s.remove(i as int));
                assert forall|j: int| 0 <= j < self@.len() implies #[trigger] self@[j].0 != addr by {
                    if j < i {
                        assert(s[j].0 != s[i as int].0);
                    } else {
                        assert(self@[j] == s[j + 1]);
                        assert(s[i as int].0 != s[j + 1].0);
                    }
                }
                Some(m.channel)
            },
            None => None,
        }
    }

    /// Among the connections other than `addr`, the first registered of
    /// those nearest to `addr`'s id; `None` where `addr` is not registered or
    /// is alone.
    pub fn closest_peer(&self, addr: Addr) -> (r: Option<Addr>)
        requires
            self.wf(),
        ensures
            !has_addr(self@, addr) ==> r is None,
            has_addr(self@, addr) ==> (r is None <==> self@.len() < 2),
            r.is_some() ==> exists|i: int|
                is_nearest(self@, addr, id_at(self@, addr), i) && r == Some(self@[i].0),
    {
        let k = match self.position(addr) {
            Some(k) => k,
            None => return None,
        };
        let origin = self.members[k].id;
        let mut best: Option<usize> = None;
        let mut best_dist: u64 = 0;
        let mut i: usize = 0;
        while i < self.members.len()
            invariant
                self.wf(),
                i <= self.members@.len(),
                self@.len() == self.members@.len(),
                k < self@.len(),
                self@[k as int].0 == addr,
                origin == self@[k as int].1,
                best is None ==> forall|j: int| 0 <= j < i ==> #[trigger] self@[j].0 == addr,
                best is Some ==> {
                    let b = best.unwrap() as int;
                    &&& b < i
                    &&& self@[b].0 != addr
                    &&& best_dist == dist(origin, self@[b].1)
                    &&& forall|j: int|
                        0 <= j < i && #[trigger] self@[j].0 != addr ==> dist(origin, self@[b].1)
                            <= dist(origin, self@[j].1)
                    &&& forall|j: int|
                        0 <= j < b && #[trigger] self@[j].0 != addr ==> dist(origin, self@[b].1)
                            < dist(origin, self@[j].1)
                },
            decreases self.members@.len() - i,
        {
            let m = &self.members[i];
            if m.addr != addr {
                let d = origin.distance(&m.id);
                if best.is_none() || d < best_dist {
                    best = Some(i);
                    best_dist = d;
                }
            }
            i = i + 1;
        }
        proof {
            lemma_index_of(self@, k as int);
        }
        match best {
            Some(b) => {
                proof {
                    assert(is_nearest(self@, addr, id_at(self@, addr), b as int));
                    if self@.len() < 2 {
                        assert(self@[b as int].0 != self@[k as int].0);
                    }
                }
                Some(self.members[b].addr)
            },
            None => {
                proof {
                    if self@.len() >= 2 {
                        let o: int = if k == 0 { 1 } else { 0 };
                        assert(self@[o].0 == addr);
                        if o < k {
                            assert(self@[o].0 != self@[k as int].0);
                        } else {
                            assert(self@[k as int].0 != self@[o].0);
                        }
                    }
                }
                None
            },
        }
    }

    /// The addresses of all connections other than `from`.
    fn others_of(&self, from: Addr) -> (r: Vec<Addr>)
        ensures
            r@ == others(self@, from),
    {
        let mut r: Vec<Addr> = Vec::new();
        let mut i: usize = 0;
        while i < self.members.len()
            invariant
                i <= self.members@.len(),
                self@.len() == self.members@.len(),
                r@ == others(self@.take(i as int), from),
            decreases self.members@.len() - i,
        {
            assert(self@.take(i + 1).drop_last() =~= self@.take(i as int));
            if self.members[i].addr != from {
                r.push(self.members[i].addr);
            }
            i = i + 1;
        }
        assert(self@.take(i as int) =~= self@);
        r
    }

    /// Decides what the relay does with `msg` from the connection at `from`:
    /// a rendezvous request goes to the nearest other connection, answers and
    /// candidates go to the address they name with `from` as their origin,
    /// a text goes to every other connection, and an id request is answered
    /// with the sender's id. A message for an unknown address is dropped.
    pub fn process(&self, from: Addr, msg: WebSocketData) -> (r: Relayed)
        requires
            self.wf(),
        ensures
            relays(self@, from, msg, r),
    {
        let none = Relayed { reply: None, outgoing: None };
        match msg {
            WebSocketData::OfferSDP(sdp, target) => {
                if self.members.len() < 2 {
                    return none;
                }
                let to = match target {
                    Some(t) => if self.position(t).is_some() {
                        Some(t)
                    } else {
                        None
                    },
                    None => self.closest_peer(from),
                };
                match to {
                    Some(t) => {
                        let r = Relayed {
                            reply: None,
                            outgoing: Some(
                                Outgoing {
                                    message: WebSocketData::OfferSDP(sdp, Some(from)),
                                    targets: vec![t],
                                },
                            ),
                        };
                        assert(r.outgoing.unwrap().targets@ =~= seq![t]);
                        r
                    },
                    None => none,
                }
            },
            WebSocketData::AnswerSDP(sdp, t) => {
                if self.position(t).is_some() {
                    let r = Relayed {
                        reply: None,
                        outgoing: Some(
                            Outgoing { message: WebSocketData::AnswerSDP(sdp, from), targets: vec![t] },
                        ),
                    };
                    assert(r.outgoing.unwrap().targets@ =~= seq![t]);
                    r
                } else {
                    none
                }
            },
            WebSocketData::IceCandidate(c, t) => {
                if self.position(t).is_some() {
                    let r = Relayed {
                        reply: None,
                        outgoing: Some(
                            Outgoing { message: WebSocketData::IceCandidate(c, from), targets: vec![t] },
                        ),
                    };
                    assert(r.outgoing.unwrap().targets@ =~= seq![t]);
                    r
                } else {
                    none
                }
            },
            WebSocketData::Message(text) => {
                let targets = self.others_of(from);
                Relayed {
                    reply: None,
                    outgoing: Some(Outgoing { message: WebSocketData::Message(text), targets }),
                }
            },
            WebSocketData::Id(_) => match self.id_of(from) {
                Some(id) => Relayed { reply: Some(WebSocketData::Id(Some(id))), outgoing: None },
                None => none,
            },
        }
    }
}

} // verus!
