//! Peer identities, the distance between them, and the node's picture of the
//! peers it knows.

use vstd::prelude::*;

verus! {

/// Identifier of a node in the overlay network.
#[derive(Clone, Copy, Debug, PartialEq, Eq, Structural, Hash)]
pub struct NodeId {
    pub value: u128,
}

impl NodeId {
    /// The XOR metric: the distance between two identifiers is the bitwise
    /// exclusive-or of their values, read as an unsigned number.
    pub open spec fn spec_distance(self, other: NodeId) -> u128 {
        self.value ^ other.value
    }

    pub fn new(value: u128) -> (id: NodeId)
        ensures
            id.value == value,
    {
        NodeId { value }
    }

    /// Distance from `self` to `other` under the XOR metric.
    pub fn distance(&self, other: &NodeId) -> (d: u128)
        ensures
            d == self.spec_distance(*other),
    {
        self.value ^ other.value
    }
}

/// Two different identifiers never lie at the same distance from a third.
pub proof fn law_distance_tells_peers_apart(a: NodeId, b: NodeId, from: NodeId)
    requires
        a != b,
    ensures
        from.spec_distance(a) != from.spec_distance(b),
{
    let x = a.value;
    let y = b.value;
    let l = from.value;
    assert(l ^ x == l ^ y ==> x == y) by (bit_vector);
}

/// What the node knows of one peer.
#[derive(Clone, Copy, Debug, PartialEq, Eq, Structural)]
pub struct Peer {
    pub node_id: NodeId,
    /// Whether the peer can be reached right now.
    pub reachable: bool,
}

/// Some peer of `s` has the identifier `id`.
pub open spec fn knows(s: Seq<Peer>, id: NodeId) -> bool {
    exists|i: int| 0 <= i < s.len() && (#[trigger] s[i]).node_id == id
}

/// Position of the peer with identifier `id`, where there is one.
pub open spec fn place_of(s: Seq<Peer>, id: NodeId) -> int {
    choose|i: int| 0 <= i < s.len() && (#[trigger] s[i]).node_id == id
}

/// The peer `id` is known and can be reached.
pub open spec fn reachable_in(s: Seq<Peer>, id: NodeId) -> bool {
    knows(s, id) && s[place_of(s, id)].reachable
}

/// No identifier occurs twice.
pub open spec fn distinct_peers(s: Seq<Peer>) -> bool {
    forall|i: int, j: int|
        0 <= i < j < s.len() ==> (#[trigger] s[i]).node_id != (#[trigger] s[j]).node_id
}

/// The identifiers of the peers, in their order.
pub open spec fn ids_of(s: Seq<Peer>) -> Seq<NodeId> {
    Seq::new(s.len(), |i: int| s[i].node_id)
}

/// The directory after `id` is recorded as reachable or not: a known peer is
/// updated in place, an unknown one is added at the end.
pub open spec fn recorded(s: Seq<Peer>, id: NodeId, reachable: bool) -> Seq<Peer> {
    if knows(s, id) {
        s.update(place_of(s, id), Peer { node_id: id, reachable })
    } else {
        s.push(Peer { node_id: id, reachable })
    }
}

/// The directory after `id` is forgotten.
pub open spec fn forgotten(s: Seq<Peer>, id: NodeId) -> Seq<Peer> {
    if knows(s, id) {
        s.remove(place_of(s, id))
    } else {
        s
    }
}

/// With a witness at hand, `place_of` is that witness.
pub proof fn lemma_place_of(s: Seq<Peer>, id: NodeId, i: int)
    requires
        distinct_peers(s),
        0 <= i < s.len(),
        s[i].node_id == id,
    ensures
        knows(s, id),
        place_of(s, id) == i,
        reachable_in(s, id) == s[i].reachable,
{
    let j = place_of(s, id);
    assert(0 <= j < s.len() && s[j].node_id == id);
    if j < i {
        assert(s[j].node_id != s[i].node_id);
    } else if i < j {
        assert(s[i].node_id != s[j].node_id);
    }
}

/// A snapshot of the peers the node knows, each with its reachability.
pub struct PeerDirectory {
    peers: Vec<Peer>,
}

impl View for PeerDirectory {
    type V = Seq<Peer>;

    closed spec fn view(&self) -> Seq<Peer> {
        self.peers@
    }
}

impl PeerDirectory {
    /// The directory's invariant: every peer is listed once.
    pub open spec fn wf(&self) -> bool {
        distinct_peers(self@)
    }

    /// A directory without peers.
    pub fn new() -> (dir: PeerDirectory)
        ensures
            dir.wf(),
            dir@ == Seq::<Peer>::empty(),
    {
        PeerDirectory { peers: Vec::new() }
    }

    /// Number of peers known.
    pub fn len(&self) -> (n: usize)
        ensures
            n == self@.len(),
    {
        self.peers.len()
    }

    pub fn is_empty(&self) -> (b: bool)
        ensures
            b == (self@.len() == 0),
    {
        self.peers.len() == 0
    }

    /// The peer at position `i`.
    pub fn peer_at(&self, i: usize) -> (p: Peer)
        requires
            i < self@.len(),
        ensures
            p == self@[i as int],
    {
        self.peers[i]
    }

    /// Position of the peer `id`, or the number of peers when it is unknown.
    fn find(&self, id: NodeId) -> (i: usize)
        requires
            self.wf(),
        ensures
            i <= self@.len(),
            i < self@.len() ==> knows(self@, id) && place_of(self@, id) == i,
            i == self@.len() ==> !knows(self@, id),
    {
        let n = self.peers.len();
        let mut i: usize = 0;
        while i < n && self.peers[i].node_id != id
            invariant
                n == self@.len(),
                i <= n,
                forall|k: int| 0 <= k < i ==> (#[trigger] self@[k]).node_id != id,
            decreases n - i,
        {
            i += 1;
        }
        proof {
            if i < n {
                lemma_place_of(self@, id, i as int);
            }
        }
        i
    }

    /// Whether the peer `id` is known.
    pub fn contains(&self, id: NodeId) -> (b: bool)
        requires
            self.wf(),
        ensures
            b == knows(self@, id),
    {
        self.find(id) < self.peers.len()
    }

    /// Whether the peer `id` can be reached. An unknown peer cannot.
    pub fn is_reachable(&self, id: NodeId) -> (b: bool)
        requires
            self.wf(),
        ensures
            b == reachable_in(self@, id),
    {
        let i = self.find(id);
        if i < self.peers.len() {
            self.peers[i].reachable
        } else {
            false
        }
    }

    /// Records whether the peer `id` can be reached, adding the peer when it
    /// is new. Returns whether it was new.
    pub fn record(&mut self, id: NodeId, reachable: bool) -> (added: bool)
        requires
            old(self).wf(),
        ensures
            final(self).wf(),
            final(self)@ == recorded(old(self)@, id, reachable),
            added == !knows(old(self)@, id),
            knows(final(self)@, id),
            reachable_in(final(self)@, id) == reachable,
    {
        let i = self.find(id);
        let peer = Peer { node_id: id, reachable };
        if i < self.peers.len() {
            self.peers.set(i, peer);
            proof {
                lemma_place_of(self@, id, i as int);
            }
            false
        } else {
            self.peers.push(peer);
            proof {
                lemma_place_of(self@, id, i as int);
            }
            true
        }
    }

    /// Forgets the peer `id`. Returns whether it was known.
    pub fn forget(&mut self, id: NodeId) -> (removed: bool)
        requires
            old(self).wf(),
        ensures
            final(self).wf(),
            final(self)@ == forgotten(old(self)@, id),
            removed == knows(old(self)@, id),
            !knows(final(self)@, id),
    {
        let i = self.find(id);
        if i < self.peers.len() {
            self.peers.remove(i);
            proof {
                old(self)@.remove_ensures(i as int);
                if knows(self@, id) {
                    let k = place_of(self@, id);
                    let k2 = if k < i { k } else { k + 1 };
                    assert(self@[k] == old(self)@[k2]);
                    if k2 < i {
                        assert(old(self)@[k2].node_id != old(self)@[i as int].node_id);
                    } else {
                        assert(old(self)@[i as int].node_id != old(self)@[k2].node_id);
                    }
                }
                assert forall|a: int, b: int| 0 <= a < b < self@.len() implies (
                #[trigger] self@[a]).node_id != (#[trigger] self@[b]).node_id by {
                    let a2 = if a < i { a } else { a + 1 };
                    let b2 = if b < i { b } else { b + 1 };
                    assert(self@[a] == old(self)@[a2] && self@[b] == old(self)@[b2]);
                }
            }
            true
        } else {
            false
        }
    }

    /// The identifiers of all peers, in the directory's order.
    pub fn lookup_all(&self) -> (ids: Vec<NodeId>)
        ensures
            ids@ == ids_of(self@),
    {
        let mut ids: Vec<NodeId> = Vec::new();
        let mut i: usize = 0;
        while i < self.peers.len()
            invariant
                i <= self@.len(),
                ids@ == ids_of(self@.take(i as int)),
            decreases self@.len() - i,
        {
            ids.push(self.peers[i].node_id);
            proof {
                assert(ids@ =~= ids_of(self@.take(i + 1)));
            }
            i += 1;
        }
        proof {
            assert(self@.take(i as int) == self@);
        }
        ids
    }
}

} // verus!
