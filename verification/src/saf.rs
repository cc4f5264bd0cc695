//! Store-and-forward: messages kept for peers that cannot be reached.
//!
//! A message for an unreachable peer is stashed with a time to live. When the
//! peer comes back it retrieves what is still alive, in the order in which it
//! was stashed, and the store forgets it. Each destination has its own bound
//! on the number of messages kept for it, so that one absent peer cannot use
//! up the room of the others: a stash into a full queue drops that queue's
//! oldest message.

use crate::peer::NodeId;
use std::collections::VecDeque;
use vstd::prelude::*;

verus! {

/// A message kept for a peer.
#[derive(Debug)]
pub struct StoredMessage {
    pub destination: NodeId,
    /// The message as handed in; the store never looks inside.
    pub envelope: Vec<u8>,
    pub stored_at: u64,
    /// The message is alive up to and including this time.
    pub expires_at: u64,
}

/// A stored message as contracts see it.
pub struct StoredMessageView {
    pub destination: NodeId,
    pub envelope: Seq<u8>,
    pub stored_at: u64,
    pub expires_at: u64,
}

impl View for StoredMessage {
    type V = StoredMessageView;

    open spec fn view(&self) -> StoredMessageView {
        StoredMessageView {
            destination: self.destination,
            envelope: self.envelope@,
            stored_at: self.stored_at,
            expires_at: self.expires_at,
        }
    }
}

/// The views of a sequence of stored messages.
pub open spec fn views(ms: Seq<StoredMessage>) -> Seq<StoredMessageView> {
    Seq::new(ms.len(), |i: int| ms[i]@)
}

/// A message has expired once its deadline has passed.
pub open spec fn expired(m: StoredMessageView, now: u64) -> bool {
    m.expires_at < now
}

/// The time up to which a message stashed at `now` with `ttl` stays alive.
/// It stops at the largest time there is.
pub open spec fn deadline(now: u64, ttl: u64) -> u64 {
    if now + ttl <= u64::MAX {
        (now + ttl) as u64
    } else {
        u64::MAX
    }
}

/// The messages kept for `d`, oldest first.
pub open spec fn queued(s: Seq<StoredMessageView>, d: NodeId) -> Seq<StoredMessageView>
    decreases s.len(),
{
    if s.len() == 0 {
        Seq::empty()
    } else if s.last().destination == d {
        queued(s.drop_last(), d).push(s.last())
    } else {
        queued(s.drop_last(), d)
    }
}

/// The messages kept for peers other than `d`.
pub open spec fn others(s: Seq<StoredMessageView>, d: NodeId) -> Seq<StoredMessageView>
    decreases s.len(),
{
    if s.len() == 0 {
        Seq::empty()
    } else if s.last().destination != d {
        others(s.drop_last(), d).push(s.last())
    } else {
        others(s.drop_last(), d)
    }
}

/// The messages that have not expired at `now`.
pub open spec fn live(s: Seq<StoredMessageView>, now: u64) -> Seq<StoredMessageView>
    decreases s.len(),
{
    if s.len() == 0 {
        Seq::empty()
    } else if !expired(s.last(), now) {
        live(s.drop_last(), now).push(s.last())
    } else {
        live(s.drop_last(), now)
    }
}

/// The envelopes of a sequence of messages.
pub open spec fn envelopes(s: Seq<StoredMessageView>) -> Seq<Seq<u8>> {
    Seq::new(s.len(), |i: int| s[i].envelope)
}

/// What a retrieval for `d` at `now` hands out: the envelopes kept for `d`
/// that are still alive, oldest first.
pub open spec fn delivery(s: Seq<StoredMessageView>, d: NodeId, now: u64) -> Seq<Seq<u8>> {
    envelopes(live(queued(s, d), now))
}

/// Position of the oldest message kept for `d`, where there is one.
pub open spec fn oldest_for(s: Seq<StoredMessageView>, d: NodeId) -> int
    decreases s.len(),
{
    if s.len() == 0 {
        0
    } else if queued(s.drop_last(), d).len() > 0 {
        oldest_for(s.drop_last(), d)
    } else {
        s.len() - 1
    }
}

/// No destination has more than `capacity` messages kept for it.
pub open spec fn bounded(s: Seq<StoredMessageView>, capacity: usize) -> bool {
    forall|d: NodeId| #[trigger] queued(s, d).len() <= capacity
}

/// The store after the message `m` is stashed. A store that is switched off,
/// or has no room at all, stays as it is. Where the queue of the destination
/// is full, its oldest message makes room.
pub open spec fn stashed(
    s: Seq<StoredMessageView>,
    enabled: bool,
    capacity: usize,
    m: StoredMessageView,
) -> Seq<StoredMessageView> {
    if !enabled || capacity == 0 {
        s
    } else if queued(s, m.destination).len() >= capacity {
        s.remove(oldest_for(s, m.destination)).push(m)
    } else {
        s.push(m)
    }
}

/// The oldest message for `d` is the first of its queue, and nothing before
/// it in the store is for `d`.
pub proof fn lemma_oldest(s: Seq<StoredMessageView>, d: NodeId)
    requires
        queued(s, d).len() > 0,
    ensures
        0 <= oldest_for(s, d) < s.len(),
        s[oldest_for(s, d)] == queued(s, d)[0],
        s[oldest_for(s, d)].destination == d,
        forall|j: int| 0 <= j < oldest_for(s, d) ==> (#[trigger] s[j]).destination != d,
    decreases s.len(),
{
    let t = s.drop_last();
    if queued(t, d).len() > 0 {
        lemma_oldest(t, d);
        assert forall|j: int| 0 <= j < oldest_for(s, d) implies (#[trigger] s[j]).destination
            != d by {
            assert(t[j] == s[j]);
        }
    } else {
        assert forall|j: int| 0 <= j < s.len() - 1 implies (#[trigger] s[j]).destination != d by {
            lemma_nothing_queued(t, d, j);
        }
    }
}

/// Where nothing is kept for `d`, no message of the store is for `d`.
pub proof fn lemma_nothing_queued(s: Seq<StoredMessageView>, d: NodeId, j: int)
    requires
        queued(s, d).len() == 0,
        0 <= j < s.len(),
    ensures
        s[j].destination != d,
    decreases s.len(),
{
    if j < s.len() - 1 {
        lemma_nothing_queued(s.drop_last(), d, j);
    }
}

/// Dropping the oldest message for `d` shortens the queue of `d` at the
/// front and leaves every other queue alone.
pub proof fn lemma_evict(s: Seq<StoredMessageView>, d: NodeId)
    requires
        queued(s, d).len() > 0,
    ensures
        queued(s.remove(oldest_for(s, d)), d) == queued(s, d).drop_first(),
        forall|e: NodeId|
            e != d ==> #[trigger] queued(s.remove(oldest_for(s, d)), e) == queued(s, e),
    decreases s.len(),
{
    let t = s.drop_last();
    let x = s.last();
    let i = oldest_for(s, d);
    lemma_oldest(s, d);
    if queued(t, d).len() > 0 {
        lemma_evict(t, d);
        lemma_oldest(t, d);
        assert(s.remove(i).drop_last() == t.remove(i));
        assert(s.remove(i).last() == x);
        assert(queued(s.remove(i), d) == queued(s, d).drop_first());
        assert forall|e: NodeId| e != d implies #[trigger] queued(s.remove(i), e) == queued(
            s,
            e,
        ) by {
            assert(queued(t.remove(oldest_for(t, d)), e) == queued(t, e));
        }
    } else {
        assert(s.remove(i) == t);
        assert(queued(s, d) == queued(t, d).push(x));
        assert(queued(s, d).drop_first() == queued(t, d));
    }
}

/// Keeping the live messages and taking a queue can be done in either order,
/// and neither makes a sequence longer.
pub proof fn lemma_live(s: Seq<StoredMessageView>, d: NodeId, now: u64)
    ensures
        queued(live(s, now), d) == live(queued(s, d), now),
        live(s, now).len() <= s.len(),
        forall|i: int| 0 <= i < live(s, now).len() ==> !expired(#[trigger] live(s, now)[i], now),
    decreases s.len(),
{
    if s.len() > 0 {
        let t = s.drop_last();
        lemma_live(t, d, now);
        if !expired(s.last(), now) {
            assert(live(s, now).drop_last() == live(t, now));
        }
        if s.last().destination == d {
            assert(queued(s, d).drop_last() == queued(t, d));
        }
    }
}

/// Taking the queue of `d` out of the store empties that queue and leaves
/// every other queue alone.
pub proof fn lemma_others(s: Seq<StoredMessageView>, d: NodeId, e: NodeId)
    ensures
        queued(others(s, d), e) == (if e == d {
            Seq::empty()
        } else {
            queued(s, e)
        }),
        others(s, d).len() + queued(s, d).len() == s.len(),
    decreases s.len(),
{
    if s.len() > 0 {
        let t = s.drop_last();
        lemma_others(t, d, e);
        if s.last().destination != d {
            assert(others(s, d).drop_last() == others(t, d));
        }
    }
}

/// A stash keeps every queue within the capacity.
pub proof fn lemma_stashed_bounded(
    s: Seq<StoredMessageView>,
    enabled: bool,
    capacity: usize,
    m: StoredMessageView,
)
    requires
        bounded(s, capacity),
    ensures
        bounded(stashed(s, enabled, capacity, m), capacity),
{
    let r = stashed(s, enabled, capacity, m);
    let d = m.destination;
    if enabled && capacity > 0 {
        if queued(s, d).len() >= capacity {
            let room = s.remove(oldest_for(s, d));
            lemma_evict(s, d);
            assert(r.drop_last() == room);
            assert forall|e: NodeId| #[trigger] queued(r, e).len() <= capacity by {
                if e != d {
                    assert(queued(room, e) == queued(s, e));
                }
            }
        } else {
            assert(r.drop_last() == s);
            assert forall|e: NodeId| #[trigger] queued(r, e).len() <= capacity by {
                assert(queued(s, e).len() <= capacity);
            }
        }
    }
}

/// Dropping what has expired keeps every queue within the capacity.
pub proof fn lemma_live_bounded(s: Seq<StoredMessageView>, capacity: usize, now: u64)
    requires
        bounded(s, capacity),
    ensures
        bounded(live(s, now), capacity),
{
    assert forall|e: NodeId| #[trigger] queued(live(s, now), e).len() <= capacity by {
        lemma_live(s, e, now);
        lemma_live(queued(s, e), e, now);
        assert(queued(s, e).len() <= capacity);
    }
}

/// Taking a queue out keeps every queue within the capacity.
pub proof fn lemma_others_bounded(s: Seq<StoredMessageView>, capacity: usize, d: NodeId)
    requires
        bounded(s, capacity),
    ensures
        bounded(others(s, d), capacity),
{
    assert forall|e: NodeId| #[trigger] queued(others(s, d), e).len() <= capacity by {
        lemma_others(s, d, e);
        assert(queued(s, e).len() <= capacity);
    }
}

/// Taking the front message off a queue that is made of two parts takes it
/// off the first part.
proof fn lemma_front_taken(
    held: Seq<StoredMessage>,
    left: Seq<StoredMessage>,
    front: Seq<StoredMessageView>,
    back: Seq<StoredMessageView>,
)
    requires
        views(held) == front + back,
        front.len() > 0,
        left == held.subrange(1, held.len() as int),
    ensures
        held[0]@ == front[0],
        views(left) == front.drop_first() + back,
{
    assert(views(held).len() == held.len());
    assert((front + back).len() == front.len() + back.len());
    assert(views(held)[0] == held[0]@);
    assert((front + back)[0] == front[0]);
    let rest = front.drop_first() + back;
    assert(views(left).len() == rest.len());
    assert forall|k: int| 0 <= k < left.len() implies views(left)[k] == rest[k] by {
        assert(left[k] == held[k + 1]);
        assert(views(held)[k + 1] == held[k + 1]@);
        assert(views(held)[k + 1] == (front + back)[k + 1]);
        if k < front.len() - 1 {
            assert(rest[k] == front.drop_first()[k]);
            assert((front + back)[k + 1] == front[k + 1]);
        } else {
            assert(rest[k] == back[k - (front.len() - 1)]);
            assert((front + back)[k + 1] == back[k + 1 - front.len()]);
        }
    }
    assert(views(left) =~= rest);
}

/// The byte strings that a sequence of buffers holds.
pub open spec fn contents(buffers: Seq<Vec<u8>>) -> Seq<Seq<u8>> {
    Seq::new(buffers.len(), |i: int| buffers[i]@)
}

/// What became of a message handed to `stash`.
#[derive(Clone, Copy, Debug, PartialEq, Eq, Structural)]
pub enum StashOutcome {
    /// The store is switched off or has no room at all: nothing was kept.
    Dropped,
    /// The message was kept.
    Stored,
    /// The message was kept, and the oldest message for the same destination
    /// was dropped to make room.
    StoredAfterEviction,
}

/// Messages kept for peers that cannot be reached, in the order of their arrival.
pub struct SafStore {
    enabled: bool,
    capacity: usize,
    messages: VecDeque<StoredMessage>,
}

impl View for SafStore {
    type V = Seq<StoredMessageView>;

    closed spec fn view(&self) -> Seq<StoredMessageView> {
        views(self.messages@)
    }
}

impl SafStore {
    /// Whether the store keeps anything at all.
    pub closed spec fn spec_enabled(&self) -> bool {
        self.enabled
    }

    /// Number of messages kept for one destination at most.
    pub closed spec fn spec_capacity(&self) -> usize {
        self.capacity
    }

    /// The store's invariant: no queue is longer than the capacity, and a
    /// store that is switched off is empty.
    pub open spec fn wf(&self) -> bool {
        &&& bounded(self@, self.spec_capacity())
        &&& !self.spec_enabled() ==> self@.len() == 0
    }

    /// An empty store that keeps up to `capacity` messages for each
    /// destination, or nothing when it is not enabled.
    pub fn new(enabled: bool, capacity: usize) -> (store: SafStore)
        ensures
            store.wf(),
            store@ == Seq::<StoredMessageView>::empty(),
            store.spec_enabled() == enabled,
            store.spec_capacity() == capacity,
    {
        let store = SafStore { enabled, capacity, messages: VecDeque::new() };
        proof {
            assert(store@ == Seq::<StoredMessageView>::empty());
            assert forall|d: NodeId| #[trigger] queued(store@, d).len() <= capacity by {}
        }
        store
    }

    pub fn is_enabled(&self) -> (b: bool)
        ensures
            b == self.spec_enabled(),
    {
        self.enabled
    }

    pub fn capacity(&self) -> (c: usize)
        ensures
            c == self.spec_capacity(),
    {
        self.capacity
    }

    /// Number of messages kept, over all destinations.
    pub fn len(&self) -> (n: usize)
        ensures
            n == self@.len(),
    {
        self.messages.len()
    }

    pub fn is_empty(&self) -> (b: bool)
        ensures
            b == (self@.len() == 0),
    {
        self.messages.len() == 0
    }

    /// Length of the queue of `destination`, and the position of its oldest
    /// message where it has one.
    fn scan(&self, destination: NodeId) -> (found: (usize, usize))
        ensures
            found.0 == queued(self@, destination).len(),
            found.0 > 0 ==> found.1 == oldest_for(self@, destination),
    {
        let n = self.messages.len();
        let mut count: usize = 0;
        let mut first: usize = 0;
        let mut i: usize = 0;
        while i < n
            invariant
                n == self@.len(),
                i <= n,
                count <= i,
                count == queued(self@.take(i as int), destination).len(),
                count > 0 ==> first == oldest_for(self@.take(i as int), destination),
            decreases n - i,
        {
            proof {
                assert(self@.take(i + 1).drop_last() == self@.take(i as int));
                assert(self@.take(i + 1).last() == self.messages@[i as int]@);
            }
            if self.messages[i].destination == destination {
                if count == 0 {
                    first = i;
                }
                count += 1;
            }
            i += 1;
        }
        proof {
            assert(self@.take(i as int) == self@);
        }
        (count, first)
    }

    /// Number of messages kept for `destination`.
    pub fn pending_for(&self, destination: NodeId) -> (n: usize)
        ensures
            n == queued(self@, destination).len(),
    {
        self.scan(destination).0
    }

    /// Keeps `envelope` for `destination` until `ttl` after `now`. A store
    /// that is switched off keeps nothing. A full queue drops its oldest
    /// message first.
    pub fn stash(&mut self, destination: NodeId, envelope: Vec<u8>, ttl: u64, now: u64) -> (outcome:
        StashOutcome)
        requires
            old(self).wf(),
        ensures
            final(self).wf(),
            final(self)@ == stashed(
                old(self)@,
                old(self).spec_enabled(),
                old(self).spec_capacity(),
                StoredMessageView {
                    destination,
                    envelope: envelope@,
                    stored_at: now,
                    expires_at: deadline(now, ttl),
                },
            ),
            outcome == (if !old(self).spec_enabled() || old(self).spec_capacity() == 0 {
                StashOutcome::Dropped
            } else if queued(old(self)@, destination).len() >= old(self).spec_capacity() {
                StashOutcome::StoredAfterEviction
            } else {
                StashOutcome::Stored
            }),
            final(self).spec_enabled() == old(self).spec_enabled(),
            final(self).spec_capacity() == old(self).spec_capacity(),
    {
        let ghost m = StoredMessageView {
            destination,
            envelope: envelope@,
            stored_at: now,
            expires_at: deadline(now, ttl),
        };
        proof {
            lemma_stashed_bounded(self@, self.enabled, self.capacity, m);
        }
        if !self.enabled || self.capacity == 0 {
            return StashOutcome::Dropped;
        }
        let expires_at = match now.checked_add(ttl) {
            Some(t) => t,
            None => u64::MAX,
        };
        let (count, first) = self.scan(destination);
        let evict = count >= self.capacity;
        if evict {
            proof {
                lemma_oldest(self@, destination);
            }
            let ghost before = self.messages@;
            self.messages.remove(first);
            proof {
                assert(views(self.messages@) == views(before).remove(first as int));
            }
        }
        let ghost room = self.messages@;
        self.messages.push_back(StoredMessage { destination, envelope, stored_at: now, expires_at });
        proof {
            assert(views(self.messages@) == views(room).push(m));
        }
        if evict {
            StashOutcome::StoredAfterEviction
        } else {
            StashOutcome::Stored
        }
    }

    /// Hands out what is kept for `destination` and still alive at `now`,
    /// oldest first, and forgets everything kept for that destination.
    pub fn retrieve(&mut self, destination: NodeId, now: u64) -> (out: Vec<Vec<u8>>)
        requires
            old(self).wf(),
        ensures
            final(self).wf(),
            contents(out@) == delivery(old(self)@, destination, now),
            out@.len() <= queued(old(self)@, destination).len(),
            final(self)@ == others(old(self)@, destination),
            queued(final(self)@, destination).len() == 0,
            final(self).spec_enabled() == old(self).spec_enabled(),
            final(self).spec_capacity() == old(self).spec_capacity(),
    {
        let ghost start = self@;
        proof {
            lemma_others_bounded(start, self.capacity, destination);
            lemma_others(start, destination, destination);
            lemma_live(queued(start, destination), destination, now);
        }
        let n = self.messages.len();
        let mut out: Vec<Vec<u8>> = Vec::new();
        let mut i: usize = 0;
        proof {
            assert(views(self.messages@) == start.skip(0) + others(start.take(0), destination));
            assert(contents(out@) == delivery(start.take(0), destination, now));
        }
        while i < n
            invariant
                n == start.len(),
                i <= n,
                views(self.messages@) == start.skip(i as int) + others(
                    start.take(i as int),
                    destination,
                ),
                contents(out@) == delivery(start.take(i as int), destination, now),
                self.enabled == old(self).enabled,
                self.capacity == old(self).capacity,
            decreases n - i,
        {
            let ghost held = self.messages@;
            let ghost handed = contents(out@);
            proof {
                assert(start.take(i + 1).drop_last() == start.take(i as int));
                assert(start.take(i + 1).last() == start[i as int]);
            }
            match self.messages.pop_front() {
                Some(m) => {
                    proof {
                        lemma_front_taken(
                            held,
                            self.messages@,
                            start.skip(i as int),
                            others(start.take(i as int), destination),
                        );
                        assert(start.skip(i as int).drop_first() == start.skip(i + 1));
                    }
                    if m.destination == destination {
                        if !(m.expires_at < now) {
                            out.push(m.envelope);
                            proof {
                                assert(contents(out@) == handed.push(start[i as int].envelope));
                                let q = queued(start.take(i as int), destination);
                                assert(queued(start.take(i + 1), destination).drop_last() == q);
                                assert(live(q.push(start[i as int]), now).drop_last() == live(
                                    q,
                                    now,
                                ));
                            }
                        } else {
                            proof {
                                let q = queued(start.take(i as int), destination);
                                assert(q.push(start[i as int]).drop_last() == q);
                            }
                        }
                    } else {
                        let ghost rest = self.messages@;
                        self.messages.push_back(m);
                        proof {
                            assert(views(self.messages@) == views(rest).push(start[i as int]));
                        }
                    }
                },
                None => {},
            }
            i += 1;
        }
        proof {
            assert(start.take(n as int) == start);
            assert(start.skip(n as int) + others(start, destination) == others(
                start,
                destination,
            ));
            assert(contents(out@).len() == out@.len());
        }
        out
    }

    /// Forgets every message whose deadline has passed at `now`. Returns the
    /// number of messages forgotten.
    pub fn expire(&mut self, now: u64) -> (dropped: usize)
        requires
            old(self).wf(),
        ensures
            final(self).wf(),
            final(self)@ == live(old(self)@, now),
            dropped + final(self)@.len() == old(self)@.len(),
            forall|i: int| 0 <= i < final(self)@.len() ==> !expired(#[trigger] final(self)@[i], now),
            final(self).spec_enabled() == old(self).spec_enabled(),
            final(self).spec_capacity() == old(self).spec_capacity(),
    {
        let ghost start = self@;
        proof {
            lemma_live_bounded(start, self.capacity, now);
            lemma_live(start, NodeId { value: 0 }, now);
        }
        let n = self.messages.len();
        let mut dropped: usize = 0;
        let mut i: usize = 0;
        proof {
            assert(views(self.messages@) == start.skip(0) + live(start.take(0), now));
        }
        while i < n
            invariant
                n == start.len(),
                i <= n,
                views(self.messages@) == start.skip(i as int) + live(start.take(i as int), now),
                dropped + live(start.take(i as int), now).len() == i,
                self.enabled == old(self).enabled,
                self.capacity == old(self).capacity,
            decreases n - i,
        {
            let ghost held = self.messages@;
            proof {
                assert(start.take(i + 1).drop_last() == start.take(i as int));
                assert(start.take(i + 1).last() == start[i as int]);
            }
            match self.messages.pop_front() {
                Some(m) => {
                    proof {
                        lemma_front_taken(
                            held,
                            self.messages@,
                            start.skip(i as int),
                            live(start.take(i as int), now),
                        );
                        assert(start.skip(i as int).drop_first() == start.skip(i + 1));
                    }
                    if m.expires_at < now {
                        dropped += 1;
                    } else {
                        let ghost rest = self.messages@;
                        self.messages.push_back(m);
                        proof {
                            assert(views(self.messages@) == views(rest).push(start[i as int]));
                        }
                    }
                },
                None => {},
            }
            i += 1;
        }
        proof {
            assert(start.take(n as int) == start);
            assert(start.skip(n as int) + live(start, now) == live(start, now));
        }
        dropped
    }
}

/// The store after a run of stashes, the earliest first.
pub open spec fn stashed_all(
    s: Seq<StoredMessageView>,
    enabled: bool,
    capacity: usize,
    run: Seq<StoredMessageView>,
) -> Seq<StoredMessageView>
    decreases run.len(),
{
    if run.len() == 0 {
        s
    } else {
        stashed(stashed_all(s, enabled, capacity, run.drop_last()), enabled, capacity, run.last())
    }
}

/// A retrieval drains: right after a retrieval for `d`, another retrieval for
/// `d` hands out nothing, whenever it is made.
pub proof fn law_second_retrieval_is_empty(s: Seq<StoredMessageView>, d: NodeId, later: u64)
    ensures
        delivery(others(s, d), d, later) == Seq::<Seq<u8>>::empty(),
{
    lemma_others(s, d, d);
}

/// A retrieval for one peer leaves what is kept for every other peer as it was.
pub proof fn law_retrieval_spares_other_peers(
    s: Seq<StoredMessageView>,
    d: NodeId,
    e: NodeId,
    now: u64,
)
    requires
        e != d,
    ensures
        delivery(others(s, d), e, now) == delivery(s, e, now),
{
    lemma_others(s, d, e);
}

/// The room of one peer is not the room of another: a stash for one peer,
/// whether or not it drops that peer's oldest message, leaves what is kept
/// for every other peer as it was.
pub proof fn law_stash_spares_other_peers(
    s: Seq<StoredMessageView>,
    enabled: bool,
    capacity: usize,
    m: StoredMessageView,
    e: NodeId,
)
    requires
        e != m.destination,
    ensures
        queued(stashed(s, enabled, capacity, m), e) == queued(s, e),
{
    let after = stashed(s, enabled, capacity, m);
    if enabled && capacity > 0 {
        if queued(s, m.destination).len() >= capacity {
            lemma_evict(s, m.destination);
            lemma_oldest(s, m.destination);
            let room = s.remove(oldest_for(s, m.destination));
            assert(after.drop_last() == room);
            assert(queued(room, e) == queued(s, e));
        } else {
            assert(after.drop_last() == s);
        }
    }
}

/// What is stashed for `d` comes out once and in the order of the stashes:
/// as long as the queue of `d` has room for them, the messages that a run of
/// stashes holds for `d` stand behind what was kept for `d` before, in the
/// run's order, whatever is stashed for other peers in between. A retrieval
/// then hands out the envelopes of those that are still alive.
pub proof fn law_stashes_queue_in_order(
    s: Seq<StoredMessageView>,
    capacity: usize,
    run: Seq<StoredMessageView>,
    d: NodeId,
    now: u64,
)
    requires
        queued(s, d).len() + queued(run, d).len() <= capacity,
    ensures
        queued(stashed_all(s, true, capacity, run), d) == queued(s, d) + queued(run, d),
        delivery(stashed_all(s, true, capacity, run), d, now) == envelopes(
            live(queued(s, d) + queued(run, d), now),
        ),
    decreases run.len(),
{
    if run.len() == 0 {
        assert(queued(s, d) + queued(run, d) == queued(s, d));
    } else {
        let m = run.last();
        let before = stashed_all(s, true, capacity, run.drop_last());
        let after = stashed(before, true, capacity, m);
        law_stashes_queue_in_order(s, capacity, run.drop_last(), d, now);
        if capacity > 0 {
            if queued(before, m.destination).len() >= capacity {
                lemma_evict(before, m.destination);
                let room = before.remove(oldest_for(before, m.destination));
                assert(after.drop_last() == room);
                assert(m.destination != d);
                assert(queued(room, d) == queued(before, d));
            } else {
                assert(after.drop_last() == before);
            }
            if m.destination == d {
                assert(queued(after, d) == (queued(s, d) + queued(run.drop_last(), d)).push(m));
                assert(queued(after, d) == queued(s, d) + queued(run, d));
            }
        }
    }
}

/// Keeping what is alive at `t` and then what is alive at a later time is
/// keeping what is alive at the later time.
pub proof fn lemma_live_twice(s: Seq<StoredMessageView>, t: u64, later: u64)
    requires
        t <= later,
    ensures
        live(live(s, t), later) == live(s, later),
    decreases s.len(),
{
    if s.len() > 0 {
        lemma_live_twice(s.drop_last(), t, later);
        if !expired(s.last(), t) {
            assert(live(s, t).drop_last() == live(s.drop_last(), t));
        }
    }
}

/// An expiry sweep takes nothing away that a retrieval at the time of the
/// sweep, or later, would have handed out.
pub proof fn law_expiry_keeps_what_is_alive(
    s: Seq<StoredMessageView>,
    d: NodeId,
    t: u64,
    later: u64,
)
    requires
        t <= later,
    ensures
        delivery(live(s, t), d, later) == delivery(s, d, later),
{
    lemma_live(s, d, t);
    lemma_live_twice(queued(s, d), t, later);
}

} // verus!
