//! Choice of the peers a message is relayed to.
//!
//! A selection mixes the peers nearest to this node with peers picked at
//! random from the whole directory. The nearest peers come first, nearest
//! first; the random picks follow in the order in which they were drawn. No
//! peer is chosen twice.
//!
//! The random numbers are handed in by the caller: each draw stands for the
//! candidate at that position, counted modulo the number of candidates.

use crate::peer::{
    distinct_peers, knows, law_distance_tells_peers_apart, place_of, NodeId, Peer, PeerDirectory,
};
use vstd::prelude::*;

verus! {

/// How many peers of each kind a selection may hold.
#[derive(Clone, Copy, Debug, PartialEq, Eq, Structural)]
pub struct NodeSelectionMix {
    /// Upper bound on the peers picked at random.
    pub num_random_nodes: usize,
    /// Upper bound on the peers taken for being nearest.
    pub num_neighbouring_nodes: usize,
}

/// The identifiers of the peers that are not excluded, in the directory's order.
pub open spec fn candidates(peers: Seq<Peer>, exclude: Seq<NodeId>) -> Seq<NodeId>
    decreases peers.len(),
{
    if peers.len() == 0 {
        Seq::empty()
    } else if exclude.contains(peers.last().node_id) {
        candidates(peers.drop_last(), exclude)
    } else {
        candidates(peers.drop_last(), exclude).push(peers.last().node_id)
    }
}

/// Position of the candidate nearest to `local`; of several at the same
/// distance, the first.
pub open spec fn nearest(c: Seq<NodeId>, local: NodeId) -> int
    decreases c.len(),
{
    if c.len() <= 1 {
        0
    } else {
        let best = nearest(c.drop_last(), local);
        if local.spec_distance(c.last()) < local.spec_distance(c[best]) {
            c.len() - 1
        } else {
            best
        }
    }
}

/// The `k` candidates nearest to `local`, nearest first; all of them when
/// there are fewer than `k`.
pub open spec fn closest(c: Seq<NodeId>, local: NodeId, k: nat) -> Seq<NodeId>
    decreases k,
{
    if k == 0 || c.len() == 0 {
        Seq::empty()
    } else {
        let i = nearest(c, local);
        seq![c[i]] + closest(c.remove(i), local, (k - 1) as nat)
    }
}

/// The candidate that a draw stands for.
pub open spec fn pick(c: Seq<NodeId>, draw: u64) -> NodeId {
    c[(draw as int) % (c.len() as int)]
}

/// `chosen`, extended by random picks: the draws are taken in order, a draw
/// that lands on a peer already chosen is passed over, and no more than
/// `budget` peers are added.
pub open spec fn drawn(chosen: Seq<NodeId>, c: Seq<NodeId>, budget: nat, draws: Seq<u64>) -> Seq<
    NodeId,
>
    decreases draws.len(),
{
    if draws.len() == 0 || budget == 0 || c.len() == 0 {
        chosen
    } else if chosen.contains(pick(c, draws[0])) {
        drawn(chosen, c, budget, draws.drop_first())
    } else {
        drawn(chosen.push(pick(c, draws[0])), c, (budget - 1) as nat, draws.drop_first())
    }
}

/// The smaller of two numbers.
pub open spec fn least(a: int, b: int) -> int {
    if a <= b {
        a
    } else {
        b
    }
}

/// The selection of at most `count` peers from the candidates `c`: first the
/// nearest ones, as many as the mix allows, then random picks, as many as the
/// mix allows and `count` leaves room for.
pub open spec fn selection(
    c: Seq<NodeId>,
    local: NodeId,
    count: usize,
    mix: NodeSelectionMix,
    draws: Seq<u64>,
) -> Seq<NodeId> {
    let near = closest(c, local, least(mix.num_neighbouring_nodes as int, count as int) as nat);
    drawn(near, c, least(mix.num_random_nodes as int, count - near.len()) as nat, draws)
}

/// Every candidate is a peer of the directory, none is excluded, and none
/// occurs twice.
pub proof fn lemma_candidates(peers: Seq<Peer>, exclude: Seq<NodeId>)
    requires
        distinct_peers(peers),
    ensures
        candidates(peers, exclude).len() <= peers.len(),
        candidates(peers, exclude).no_duplicates(),
        forall|id: NodeId| #[trigger]
            candidates(peers, exclude).contains(id) <==> knows(peers, id) && !exclude.contains(id),
    decreases peers.len(),
{
    let c = candidates(peers, exclude);
    if peers.len() > 0 {
        let rest = peers.drop_last();
        let last = peers.last().node_id;
        assert forall|i: int, j: int| 0 <= i < j < rest.len() implies (#[trigger] rest[i]).node_id
            != (#[trigger] rest[j]).node_id by {
            assert(rest[i] == peers[i] && rest[j] == peers[j]);
        }
        lemma_candidates(rest, exclude);
        let cr = candidates(rest, exclude);
        assert(!knows(rest, last)) by {
            if knows(rest, last) {
                let k = place_of(rest, last);
                assert(rest[k] == peers[k]);
                assert(peers[k].node_id != peers[peers.len() - 1].node_id);
            }
        }
        assert forall|id: NodeId| knows(peers, id) <==> (knows(rest, id) || id == last) by {
            if knows(peers, id) {
                let k = place_of(peers, id);
                if k < rest.len() {
                    assert(rest[k] == peers[k]);
                }
            }
            if knows(rest, id) {
                let k = place_of(rest, id);
                assert(rest[k] == peers[k]);
            }
            if id == last {
                assert(peers[peers.len() - 1].node_id == id);
            }
        }
        if exclude.contains(last) {
            assert forall|id: NodeId| #[trigger]
                c.contains(id) <==> knows(peers, id) && !exclude.contains(id) by {}
        } else {
            assert(!cr.contains(last));
            assert forall|id: NodeId| #[trigger]
                c.contains(id) <==> knows(peers, id) && !exclude.contains(id) by {
                if c.contains(id) {
                    let k = choose|k: int| 0 <= k < c.len() && c[k] == id;
                    if k < cr.len() {
                        assert(cr[k] == id);
                        assert(cr.contains(id));
                    }
                }
                if knows(peers, id) && !exclude.contains(id) {
                    if id == last {
                        assert(c[c.len() - 1] == id);
                    } else {
                        assert(cr.contains(id));
                        let k = choose|k: int| 0 <= k < cr.len() && cr[k] == id;
                        assert(c[k] == id);
                    }
                }
            }
            assert forall|i: int, j: int| 0 <= i < c.len() && 0 <= j < c.len() && i != j implies c[i]
                != c[j] by {
                if i < cr.len() && j < cr.len() {
                    assert(cr[i] != cr[j]);
                } else if i < cr.len() {
                    assert(cr.contains(cr[i]));
                } else if j < cr.len() {
                    assert(cr.contains(cr[j]));
                }
            }
        }
    } else {
        assert forall|id: NodeId| #[trigger]
            c.contains(id) <==> knows(peers, id) && !exclude.contains(id) by {}
    }
}

/// The nearest candidate is a candidate, and none is nearer.
pub proof fn lemma_nearest(c: Seq<NodeId>, local: NodeId)
    requires
        c.len() > 0,
    ensures
        0 <= nearest(c, local) < c.len(),
        forall|j: int|
            0 <= j < c.len() ==> local.spec_distance(c[nearest(c, local)]) <= local.spec_distance(
                #[trigger] c[j],
            ),
    decreases c.len(),
{
    if c.len() > 1 {
        let rest = c.drop_last();
        lemma_nearest(rest, local);
        let best = nearest(rest, local);
        assert(rest[best] == c[best]);
        assert forall|j: int| 0 <= j < c.len() implies local.spec_distance(c[nearest(c, local)])
            <= local.spec_distance(#[trigger] c[j]) by {
            if j < rest.len() {
                assert(rest[j] == c[j]);
            }
        }
    }
}

/// The nearest `k` are candidates, stand in order of distance, and leave
/// behind only candidates that are no nearer than any of them. Where no
/// candidate occurs twice, none is chosen twice.
pub proof fn lemma_closest(c: Seq<NodeId>, local: NodeId, k: nat)
    ensures
        closest(c, local, k).len() == least(k as int, c.len() as int),
        forall|i: int|
            0 <= i < closest(c, local, k).len() ==> c.contains(#[trigger] closest(c, local, k)[i]),
        forall|i: int, j: int|
            0 <= i <= j < closest(c, local, k).len() ==> local.spec_distance(
                closest(c, local, k)[i],
            ) <= local.spec_distance(closest(c, local, k)[j]),
        forall|id: NodeId, i: int|
            c.contains(id) && !closest(c, local, k).contains(id) && 0 <= i < closest(
                c,
                local,
                k,
            ).len() ==> local.spec_distance(#[trigger] closest(c, local, k)[i])
                <= #[trigger] local.spec_distance(id),
        c.no_duplicates() ==> closest(c, local, k).no_duplicates(),
    decreases k,
{
    let r = closest(c, local, k);
    if k > 0 && c.len() > 0 {
        let i0 = nearest(c, local);
        lemma_nearest(c, local);
        let rest = c.remove(i0);
        c.remove_ensures(i0);
        let tail = closest(rest, local, (k - 1) as nat);
        lemma_closest(rest, local, (k - 1) as nat);
        assert(r == seq![c[i0]] + tail);
        assert(r[0] == c[i0]);
        assert forall|i: int| 1 <= i < r.len() implies r[i] == tail[i - 1] by {}
        // every member of `rest` is a member of `c`
        assert forall|id: NodeId| rest.contains(id) implies c.contains(id) by {
            let m = choose|m: int| 0 <= m < rest.len() && rest[m] == id;
            let m2 = if m < i0 { m } else { m + 1 };
            assert(c[m2] == id);
        }
        // every member of `c` is the nearest one or a member of `rest`
        assert forall|id: NodeId| c.contains(id) && id != c[i0] implies rest.contains(id) by {
            let m = choose|m: int| 0 <= m < c.len() && c[m] == id;
            let m2 = if m < i0 { m } else { m - 1 };
            assert(rest[m2] == id);
        }
        assert forall|i: int| 0 <= i < r.len() implies c.contains(#[trigger] r[i]) by {
            if i > 0 {
                assert(rest.contains(tail[i - 1]));
            }
        }
        assert forall|i: int, j: int| 0 <= i <= j < r.len() implies local.spec_distance(r[i])
            <= local.spec_distance(r[j]) by {
            if i == 0 && j > 0 {
                assert(rest.contains(tail[j - 1]));
                assert(c.contains(r[j]));
                let m = choose|m: int| 0 <= m < c.len() && c[m] == r[j];
                assert(local.spec_distance(c[i0]) <= local.spec_distance(c[m]));
            } else if i > 0 {
                assert(r[i] == tail[i - 1] && r[j] == tail[j - 1]);
            }
        }
        assert forall|id: NodeId, i: int|
            c.contains(id) && !r.contains(id) && 0 <= i < r.len() implies local.spec_distance(
            #[trigger] r[i],
        ) <= #[trigger] local.spec_distance(id) by {
            assert(id != c[i0]) by {
                if id == c[i0] {
                    assert(r[0] == id);
                }
            }
            assert(rest.contains(id));
            if tail.contains(id) {
                let m = choose|m: int| 0 <= m < tail.len() && tail[m] == id;
                assert(r[m + 1] == id);
            }
            if i == 0 {
                let m = choose|m: int| 0 <= m < c.len() && c[m] == id;
                assert(local.spec_distance(c[i0]) <= local.spec_distance(c[m]));
            } else {
                assert(r[i] == tail[i - 1]);
            }
        }
        if c.no_duplicates() {
            assert(rest.no_duplicates()) by {
                assert forall|a: int, b: int|
                    0 <= a < rest.len() && 0 <= b < rest.len() && a != b implies rest[a]
                    != rest[b] by {
                    let a2 = if a < i0 { a } else { a + 1 };
                    let b2 = if b < i0 { b } else { b + 1 };
                    assert(rest[a] == c[a2] && rest[b] == c[b2]);
                }
            }
            assert(!rest.contains(c[i0])) by {
                if rest.contains(c[i0]) {
                    let m = choose|m: int| 0 <= m < rest.len() && rest[m] == c[i0];
                    let m2 = if m < i0 { m } else { m + 1 };
                    assert(c[m2] == c[i0]);
                }
            }
            assert forall|a: int, b: int| 0 <= a < r.len() && 0 <= b < r.len() && a != b implies r[a]
                != r[b] by {
                if a == 0 {
                    assert(rest.contains(tail[b - 1]));
                } else if b == 0 {
                    assert(rest.contains(tail[a - 1]));
                } else {
                    assert(tail[a - 1] != tail[b - 1]);
                }
            }
        }
    }
}

/// Among candidates of which none occurs twice there are no ties: the
/// nearest `k` stand in strictly rising order of distance, so that their
/// order does not depend on the order of the directory.
pub proof fn law_nearest_peers_rise_strictly(c: Seq<NodeId>, local: NodeId, k: nat)
    requires
        c.no_duplicates(),
    ensures
        forall|i: int, j: int|
            0 <= i < j < closest(c, local, k).len() ==> local.spec_distance(
                closest(c, local, k)[i],
            ) < local.spec_distance(closest(c, local, k)[j]),
{
    let r = closest(c, local, k);
    lemma_closest(c, local, k);
    assert forall|i: int, j: int| 0 <= i < j < r.len() implies local.spec_distance(r[i])
        < local.spec_distance(r[j]) by {
        assert(r[i] != r[j]);
        law_distance_tells_peers_apart(r[i], r[j], local);
        assert(local.spec_distance(r[i]) <= local.spec_distance(r[j]));
    }
}

/// Random picks add at most `budget` peers, all of them candidates, and
/// choose no peer twice.
pub proof fn lemma_drawn(chosen: Seq<NodeId>, c: Seq<NodeId>, budget: nat, draws: Seq<u64>)
    ensures
        chosen.len() <= drawn(chosen, c, budget, draws).len() <= chosen.len() + budget,
        drawn(chosen, c, budget, draws).len() <= chosen.len() + draws.len(),
        drawn(chosen, c, budget, draws).take(chosen.len() as int) == chosen,
        forall|i: int|
            chosen.len() <= i < drawn(chosen, c, budget, draws).len() ==> c.contains(
                #[trigger] drawn(chosen, c, budget, draws)[i],
            ),
        chosen.no_duplicates() ==> drawn(chosen, c, budget, draws).no_duplicates(),
    decreases draws.len(),
{
    let r = drawn(chosen, c, budget, draws);
    if draws.len() == 0 || budget == 0 || c.len() == 0 {
        assert(r.take(chosen.len() as int) == chosen);
    } else {
        let p = pick(c, draws[0]);
        assert(c.contains(p)) by {
            let m = (draws[0] as int) % (c.len() as int);
            assert(0 <= m < c.len());
            assert(c[m] == p);
        }
        if chosen.contains(p) {
            lemma_drawn(chosen, c, budget, draws.drop_first());
        } else {
            let next = chosen.push(p);
            lemma_drawn(next, c, (budget - 1) as nat, draws.drop_first());
            assert(r.take(chosen.len() as int) == chosen) by {
                assert(r.take(next.len() as int) == next);
                assert forall|i: int| 0 <= i < chosen.len() implies r[i] == chosen[i] by {
                    assert(r.take(next.len() as int)[i] == next[i]);
                }
            }
            assert(r[chosen.len() as int] == p) by {
                assert(r.take(next.len() as int)[chosen.len() as int] == next[chosen.len() as int]);
            }
            if chosen.no_duplicates() {
                assert(next.no_duplicates()) by {
                    assert forall|a: int, b: int|
                        0 <= a < next.len() && 0 <= b < next.len() && a != b implies next[a]
                        != next[b] by {
                        if a < chosen.len() && b < chosen.len() {
                        } else if a < chosen.len() {
                            assert(chosen.contains(chosen[a]));
                        } else {
                            assert(chosen.contains(chosen[b]));
                        }
                    }
                }
            }
        }
    }
}

/// A selection never holds more than `count` peers, nor more than the mix
/// allows, never a peer that is no candidate, and never a peer twice.
pub proof fn law_selection_bounded_and_distinct(
    c: Seq<NodeId>,
    local: NodeId,
    count: usize,
    mix: NodeSelectionMix,
    draws: Seq<u64>,
)
    requires
        c.no_duplicates(),
    ensures
        selection(c, local, count, mix, draws).len() <= count,
        selection(c, local, count, mix, draws).len() <= mix.num_neighbouring_nodes
            + mix.num_random_nodes,
        selection(c, local, count, mix, draws).len() <= c.len(),
        selection(c, local, count, mix, draws).no_duplicates(),
        forall|i: int|
            0 <= i < selection(c, local, count, mix, draws).len() ==> c.contains(
                #[trigger] selection(c, local, count, mix, draws)[i],
            ),
        c.len() == 0 ==> selection(c, local, count, mix, draws).len() == 0,
{
    let k = least(mix.num_neighbouring_nodes as int, count as int) as nat;
    let near = closest(c, local, k);
    lemma_closest(c, local, k);
    let budget = least(mix.num_random_nodes as int, count - near.len()) as nat;
    lemma_drawn(near, c, budget, draws);
    let r = selection(c, local, count, mix, draws);
    assert forall|i: int| 0 <= i < r.len() implies c.contains(#[trigger] r[i]) by {
        if i < near.len() {
            assert(r.take(near.len() as int)[i] == near[i]);
        }
    }
    r.unique_seq_to_set();
    c.unique_seq_to_set();
    assert(r.to_set().subset_of(c.to_set())) by {
        assert forall|id: NodeId| r.to_set().contains(id) implies c.to_set().contains(id) by {
            let m = choose|m: int| 0 <= m < r.len() && r[m] == id;
            assert(c.contains(r[m]));
        }
    }
    vstd::set_lib::lemma_len_subset(r.to_set(), c.to_set());
}

/// Whether `id` occurs in `ids`.
pub fn contains_id(ids: &Vec<NodeId>, id: NodeId) -> (found: bool)
    ensures
        found == ids@.contains(id),
{
    let mut i: usize = 0;
    while i < ids.len()
        invariant
            i <= ids.len(),
            forall|k: int| 0 <= k < i ==> ids@[k] != id,
        decreases ids.len() - i,
    {
        if ids[i] == id {
            return true;
        }
        i += 1;
    }
    false
}

/// The identifiers of the directory's peers that are not excluded.
pub fn candidate_ids(directory: &PeerDirectory, exclude: &Vec<NodeId>) -> (c: Vec<NodeId>)
    ensures
        c@ == candidates(directory@, exclude@),
{
    let mut c: Vec<NodeId> = Vec::new();
    let mut i: usize = 0;
    while i < directory.len()
        invariant
            i <= directory@.len(),
            c@ == candidates(directory@.take(i as int), exclude@),
        decreases directory@.len() - i,
    {
        let peer = directory.peer_at(i);
        proof {
            assert(directory@.take(i + 1).drop_last() == directory@.take(i as int));
        }
        if !contains_id(exclude, peer.node_id) {
            c.push(peer.node_id);
        }
        i += 1;
    }
    proof {
        assert(directory@.take(i as int) == directory@);
    }
    c
}

/// Position of the candidate nearest to `local`.
fn nearest_index(c: &Vec<NodeId>, local: &NodeId) -> (best: usize)
    requires
        c@.len() > 0,
    ensures
        best == nearest(c@, *local),
        best < c@.len(),
{
    let mut best: usize = 0;
    let mut i: usize = 1;
    proof {
        assert(c@.take(1).len() == 1);
    }
    while i < c.len()
        invariant
            1 <= i <= c.len(),
            best < i,
            best == nearest(c@.take(i as int), *local),
        decreases c.len() - i,
    {
        proof {
            assert(c@.take(i + 1).drop_last() == c@.take(i as int));
        }
        if local.distance(&c[i]) < local.distance(&c[best]) {
            best = i;
        }
        i += 1;
    }
    proof {
        assert(c@.take(i as int) == c@);
    }
    best
}

/// The `k` candidates nearest to `local`, nearest first.
pub fn closest_peers(c: &Vec<NodeId>, local: &NodeId, k: usize) -> (near: Vec<NodeId>)
    ensures
        near@ == closest(c@, *local, k as nat),
        near@.len() == least(k as int, c@.len() as int),
{
    let mut rest: Vec<NodeId> = Vec::new();
    let mut j: usize = 0;
    while j < c.len()
        invariant
            j <= c.len(),
            rest@ == c@.take(j as int),
        decreases c.len() - j,
    {
        rest.push(c[j]);
        proof {
            assert(rest@ == c@.take(j + 1));
        }
        j += 1;
    }
    proof {
        assert(c@.take(j as int) == c@);
        lemma_closest(c@, *local, k as nat);
    }
    let mut near: Vec<NodeId> = Vec::new();
    let mut taken: usize = 0;
    while taken < k && rest.len() > 0
        invariant
            taken <= k,
            near@ + closest(rest@, *local, (k - taken) as nat) == closest(c@, *local, k as nat),
        decreases k - taken,
    {
        let i = nearest_index(&rest, local);
        let ghost before = rest@;
        let ghost so_far = near@;
        let id = rest.remove(i);
        near.push(id);
        proof {
            assert(closest(before, *local, (k - taken) as nat) == seq![id] + closest(
                rest@,
                *local,
                (k - taken - 1) as nat,
            ));
            assert(so_far + (seq![id] + closest(rest@, *local, (k - taken - 1) as nat))
                == so_far.push(id) + closest(rest@, *local, (k - taken - 1) as nat));
        }
        taken += 1;
    }
    proof {
        assert(closest(rest@, *local, (k - taken) as nat) == Seq::<NodeId>::empty());
        assert(near@ + Seq::<NodeId>::empty() == near@);
    }
    near
}

/// Extends `chosen` by random picks from the candidates, adding at most
/// `budget` peers.
fn draw_peers(chosen: Vec<NodeId>, c: &Vec<NodeId>, budget: usize, draws: &Vec<u64>) -> (out: Vec<
    NodeId,
>)
    ensures
        out@ == drawn(chosen@, c@, budget as nat, draws@),
{
    let mut out = chosen;
    if c.len() == 0 {
        return out;
    }
    let mut left: usize = budget;
    let mut i: usize = 0;
    proof {
        assert(draws@.skip(0) == draws@);
    }
    while i < draws.len() && left > 0
        invariant
            i <= draws.len(),
            c.len() > 0,
            drawn(out@, c@, left as nat, draws@.skip(i as int)) == drawn(
                chosen@,
                c@,
                budget as nat,
                draws@,
            ),
        decreases draws.len() - i,
    {
        proof {
            assert(draws@.skip(i as int).drop_first() == draws@.skip(i + 1));
            assert(draws@.skip(i as int)[0] == draws@[i as int]);
        }
        let at: u64 = draws[i] % (c.len() as u64);
        let id = c[at as usize];
        if !contains_id(&out, id) {
            out.push(id);
            left -= 1;
        }
        i += 1;
    }
    out
}

/// Selects at most `count` peers of the directory to relay a message to,
/// leaving out the excluded ones: the nearest to `local` first, as many as
/// the mix allows, then random picks as the draws give them. An empty
/// directory gives an empty selection.
pub fn select(
    directory: &PeerDirectory,
    local: &NodeId,
    count: usize,
    mix: &NodeSelectionMix,
    exclude: &Vec<NodeId>,
    draws: &Vec<u64>,
) -> (chosen: Vec<NodeId>)
    requires
        directory.wf(),
    ensures
        chosen@ == selection(candidates(directory@, exclude@), *local, count, *mix, draws@),
        chosen@.len() <= count,
        chosen@.len() <= mix.num_neighbouring_nodes + mix.num_random_nodes,
        chosen@.no_duplicates(),
        forall|i: int|
            0 <= i < chosen@.len() ==> knows(directory@, #[trigger] chosen@[i])
                && !exclude@.contains(chosen@[i]),
{
    let c = candidate_ids(directory, exclude);
    proof {
        lemma_candidates(directory@, exclude@);
        law_selection_bounded_and_distinct(c@, *local, count, *mix, draws@);
    }
    let k = if mix.num_neighbouring_nodes <= count {
        mix.num_neighbouring_nodes
    } else {
        count
    };
    let near = closest_peers(&c, local, k);
    let room = count - near.len();
    let budget = if mix.num_random_nodes <= room {
        mix.num_random_nodes
    } else {
        room
    };
    let chosen = draw_peers(near, &c, budget, draws);
    proof {
        assert forall|i: int| 0 <= i < chosen@.len() implies knows(
            directory@,
            #[trigger] chosen@[i],
        ) && !exclude@.contains(chosen@[i]) by {
            assert(c@.contains(chosen@[i]));
        }
    }
    chosen
}

} // verus!
