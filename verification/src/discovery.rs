//! Discovery requests that are waiting for their answer.
//!
//! A discovery asks the network for a peer. Each request gets a correlation
//! id, by which its answer is recognised, and a deadline. A request leaves the
//! table when its answer arrives or when its deadline has passed, whichever
//! comes first; it is never sent again from here.

use crate::peer::NodeId;
use crate::saf::deadline;
use vstd::prelude::*;

verus! {

/// A discovery request in flight.
#[derive(Clone, Copy, Debug, PartialEq, Eq, Structural)]
pub struct DiscoveryRequest {
    pub correlation_id: u64,
    /// The peer that is looked for.
    pub peer: NodeId,
    /// The answer is awaited up to and including this time.
    pub deadline: u64,
}

/// Why a discovery came to nothing.
#[derive(Clone, Copy, Debug, PartialEq, Eq, Structural)]
pub enum DiscoveryError {
    /// No answer came within the deadline.
    DiscoveryTimeout,
    /// No request with this correlation id is in flight.
    UnknownRequest,
    /// Every correlation id has been given out.
    IdsExhausted,
}

/// Some request of `s` has the correlation id `id`.
pub open spec fn in_flight(s: Seq<DiscoveryRequest>, id: u64) -> bool {
    exists|i: int| 0 <= i < s.len() && (#[trigger] s[i]).correlation_id == id
}

/// Position of the request with the correlation id `id`, where there is one.
pub open spec fn position_of(s: Seq<DiscoveryRequest>, id: u64) -> int {
    choose|i: int| 0 <= i < s.len() && (#[trigger] s[i]).correlation_id == id
}

/// A request has lapsed once its deadline has passed.
pub open spec fn lapsed(r: DiscoveryRequest, now: u64) -> bool {
    r.deadline < now
}

/// The requests whose deadline has passed at `now`, in the table's order.
pub open spec fn overdue(s: Seq<DiscoveryRequest>, now: u64) -> Seq<DiscoveryRequest>
    decreases s.len(),
{
    if s.len() == 0 {
        Seq::empty()
    } else if lapsed(s.last(), now) {
        overdue(s.drop_last(), now).push(s.last())
    } else {
        overdue(s.drop_last(), now)
    }
}

/// The requests that are still awaited at `now`, in the table's order.
pub open spec fn awaited(s: Seq<DiscoveryRequest>, now: u64) -> Seq<DiscoveryRequest>
    decreases s.len(),
{
    if s.len() == 0 {
        Seq::empty()
    } else if !lapsed(s.last(), now) {
        awaited(s.drop_last(), now).push(s.last())
    } else {
        awaited(s.drop_last(), now)
    }
}

/// The requests stand in the order in which their ids were given out, and
/// every id given out lies below `next_id`.
pub open spec fn ordered(s: Seq<DiscoveryRequest>, next_id: u64) -> bool {
    &&& forall|i: int, j: int|
        0 <= i < j < s.len() ==> (#[trigger] s[i]).correlation_id < (#[trigger] s[j]).correlation_id
    &&& forall|i: int| 0 <= i < s.len() ==> (#[trigger] s[i]).correlation_id < next_id
}

/// The table after a request for `peer` is registered under the id `next_id`.
/// Where no id is left, the table stays as it is.
pub open spec fn begun(
    s: Seq<DiscoveryRequest>,
    next_id: u64,
    peer: NodeId,
    timeout: u64,
    now: u64,
) -> Seq<DiscoveryRequest> {
    if next_id == u64::MAX {
        s
    } else {
        s.push(DiscoveryRequest { correlation_id: next_id, peer, deadline: deadline(now, timeout) })
    }
}

/// With a witness at hand, `position_of` is that witness.
pub proof fn lemma_position_of(s: Seq<DiscoveryRequest>, next_id: u64, id: u64, i: int)
    requires
        ordered(s, next_id),
        0 <= i < s.len(),
        s[i].correlation_id == id,
    ensures
        in_flight(s, id),
        position_of(s, id) == i,
{
    let j = position_of(s, id);
    assert(0 <= j < s.len() && s[j].correlation_id == id);
    if j < i {
        assert(s[j].correlation_id < s[i].correlation_id);
    } else if i < j {
        assert(s[i].correlation_id < s[j].correlation_id);
    }
}

/// Every request is either overdue or awaited, and both parts keep the order.
pub proof fn lemma_sweep(s: Seq<DiscoveryRequest>, next_id: u64, now: u64)
    requires
        ordered(s, next_id),
    ensures
        ordered(awaited(s, now), next_id),
        overdue(s, now).len() + awaited(s, now).len() == s.len(),
        forall|i: int| 0 <= i < awaited(s, now).len() ==> !lapsed(#[trigger] awaited(s, now)[i], now),
        forall|i: int| 0 <= i < overdue(s, now).len() ==> lapsed(#[trigger] overdue(s, now)[i], now),
        forall|i: int|
            0 <= i < awaited(s, now).len() ==> in_flight(
                s,
                (#[trigger] awaited(s, now)[i]).correlation_id,
            ),
        s.len() > 0 && awaited(s, now).len() > 0 ==> awaited(s, now).last().correlation_id
            <= s.last().correlation_id,
    decreases s.len(),
{
    if s.len() > 0 {
        let t = s.drop_last();
        assert(ordered(t, next_id)) by {
            assert forall|i: int, j: int| 0 <= i < j < t.len() implies (
            #[trigger] t[i]).correlation_id < (#[trigger] t[j]).correlation_id by {
                assert(t[i] == s[i] && t[j] == s[j]);
            }
            assert forall|i: int| 0 <= i < t.len() implies (#[trigger] t[i]).correlation_id
                < next_id by {
                assert(t[i] == s[i]);
            }
        }
        lemma_sweep(t, next_id, now);
        let a = awaited(s, now);
        let at = awaited(t, now);
        assert forall|i: int| 0 <= i < at.len() implies in_flight(
            s,
            (#[trigger] at[i]).correlation_id,
        ) by {
            let k = position_of(t, at[i].correlation_id);
            assert(t[k] == s[k]);
        }
        if t.len() > 0 && at.len() > 0 {
            assert(t.last() == s[s.len() - 2]);
            assert(s[s.len() - 2].correlation_id < s[s.len() - 1].correlation_id);
        }
        if !lapsed(s.last(), now) {
            assert(a == at.push(s.last()));
            assert(in_flight(s, s.last().correlation_id)) by {
                assert(s[s.len() - 1].correlation_id == s.last().correlation_id);
            }
            assert forall|i: int, j: int| 0 <= i < j < a.len() implies (
            #[trigger] a[i]).correlation_id < (#[trigger] a[j]).correlation_id by {
                if j == a.len() - 1 {
                    assert(a[i] == at[i]);
                    let k = position_of(t, at[i].correlation_id);
                    assert(t[k] == s[k]);
                    assert(s[k].correlation_id < s[s.len() - 1].correlation_id);
                } else {
                    assert(a[i] == at[i] && a[j] == at[j]);
                }
            }
            assert forall|i: int| 0 <= i < a.len() implies (#[trigger] a[i]).correlation_id
                < next_id by {
                if i < at.len() {
                    assert(a[i] == at[i]);
                } else {
                    assert(a[i] == s[s.len() - 1]);
                }
            }
        }
    }
}

/// The discovery requests in flight.
pub struct DiscoveryTable {
    requests: Vec<DiscoveryRequest>,
    next_id: u64,
}

impl View for DiscoveryTable {
    type V = Seq<DiscoveryRequest>;

    closed spec fn view(&self) -> Seq<DiscoveryRequest> {
        self.requests@
    }
}

impl DiscoveryTable {
    /// The correlation id that the next request gets.
    pub closed spec fn spec_next_id(&self) -> u64 {
        self.next_id
    }

    /// The table's invariant.
    pub open spec fn wf(&self) -> bool {
        ordered(self@, self.spec_next_id())
    }

    /// A table without requests.
    pub fn new() -> (table: DiscoveryTable)
        ensures
            table.wf(),
            table@ == Seq::<DiscoveryRequest>::empty(),
            table.spec_next_id() == 0,
    {
        DiscoveryTable { requests: Vec::new(), next_id: 0 }
    }

    /// A table without requests whose first request gets the correlation id
    /// `first_id`, for a node that has given out the ids below it before.
    pub fn with_first_id(first_id: u64) -> (table: DiscoveryTable)
        ensures
            table.wf(),
            table@ == Seq::<DiscoveryRequest>::empty(),
            table.spec_next_id() == first_id,
    {
        DiscoveryTable { requests: Vec::new(), next_id: first_id }
    }

    /// The correlation id that the next request gets.
    pub fn next_id(&self) -> (id: u64)
        ensures
            id == self.spec_next_id(),
    {
        self.next_id
    }

    /// Number of requests in flight.
    pub fn len(&self) -> (n: usize)
        ensures
            n == self@.len(),
    {
        self.requests.len()
    }

    /// The request at position `i`.
    pub fn request_at(&self, i: usize) -> (r: DiscoveryRequest)
        requires
            i < self@.len(),
        ensures
            r == self@[i as int],
    {
        self.requests[i]
    }

    /// Position of the request with the id `id`, or the number of requests
    /// when there is none.
    fn find(&self, id: u64) -> (i: usize)
        requires
            self.wf(),
        ensures
            i <= self@.len(),
            i < self@.len() ==> in_flight(self@, id) && position_of(self@, id) == i,
            i == self@.len() ==> !in_flight(self@, id),
    {
        let n = self.requests.len();
        let mut i: usize = 0;
        while i < n && self.requests[i].correlation_id != id
            invariant
                n == self@.len(),
                i <= n,
                forall|k: int| 0 <= k < i ==> (#[trigger] self@[k]).correlation_id != id,
            decreases n - i,
        {
            i += 1;
        }
        proof {
            if i < n {
                lemma_position_of(self@, self.next_id, id, i as int);
            }
        }
        i
    }

    /// Whether a request with the id `id` is in flight.
    pub fn is_in_flight(&self, id: u64) -> (b: bool)
        requires
            self.wf(),
        ensures
            b == in_flight(self@, id),
    {
        self.find(id) < self.requests.len()
    }

    /// Registers a request for `peer` that waits up to `timeout` from `now`.
    /// It fails only when no correlation id is left.
    pub fn begin(&mut self, peer: NodeId, timeout: u64, now: u64) -> (result: Result<
        DiscoveryRequest,
        DiscoveryError,
    >)
        requires
            old(self).wf(),
        ensures
            final(self).wf(),
            final(self)@ == begun(old(self)@, old(self).spec_next_id(), peer, timeout, now),
            old(self).spec_next_id() == u64::MAX ==> final(self).spec_next_id() == u64::MAX
                && result == Err::<DiscoveryRequest, DiscoveryError>(DiscoveryError::IdsExhausted),
            old(self).spec_next_id() < u64::MAX ==> final(self).spec_next_id() == old(self).spec_next_id() + 1 && result == Ok::<DiscoveryRequest, DiscoveryError>(
                DiscoveryRequest {
                    correlation_id: old(self).spec_next_id(),
                    peer,
                    deadline: deadline(now, timeout),
                },
            ),
    {
        if self.next_id == u64::MAX {
            return Err(DiscoveryError::IdsExhausted);
        }
        let until = match now.checked_add(timeout) {
            Some(t) => t,
            None => u64::MAX,
        };
        let request = DiscoveryRequest { correlation_id: self.next_id, peer, deadline: until };
        self.requests.push(request);
        self.next_id = self.next_id + 1;
        Ok(request)
    }

    /// Takes the answer to the request `id` that arrived at `now`. The
    /// request leaves the table. An answer that comes after the deadline
    /// counts as none.
    pub fn complete(&mut self, id: u64, now: u64) -> (result: Result<NodeId, DiscoveryError>)
        requires
            old(self).wf(),
        ensures
            final(self).wf(),
            final(self).spec_next_id() == old(self).spec_next_id(),
            !in_flight(final(self)@, id),
            !in_flight(old(self)@, id) ==> result == Err::<NodeId, DiscoveryError>(
                DiscoveryError::UnknownRequest,
            ) && final(self)@ == old(self)@,
            in_flight(old(self)@, id) ==> final(self)@ == old(self)@.remove(
                position_of(old(self)@, id),
            ) && result == (if lapsed(old(self)@[position_of(old(self)@, id)], now) {
                Err::<NodeId, DiscoveryError>(DiscoveryError::DiscoveryTimeout)
            } else {
                Ok::<NodeId, DiscoveryError>(old(self)@[position_of(old(self)@, id)].peer)
            }),
    {
        let i = self.find(id);
        if i >= self.requests.len() {
            return Err(DiscoveryError::UnknownRequest);
        }
        let request = self.requests.remove(i);
        proof {
            let before = old(self)@;
            before.remove_ensures(i as int);
            assert forall|a: int| 0 <= a < self@.len() implies (#[trigger] self@[a]) == before[if a
                < i {
                a
            } else {
                a + 1
            }] by {}
            assert forall|a: int, b: int| 0 <= a < b < self@.len() implies (
            #[trigger] self@[a]).correlation_id < (#[trigger] self@[b]).correlation_id by {
                let a2 = if a < i { a } else { a + 1 };
                let b2 = if b < i { b } else { b + 1 };
                assert(self@[a] == before[a2] && self@[b] == before[b2]);
            }
            assert forall|a: int| 0 <= a < self@.len() implies (#[trigger] self@[a]).correlation_id
                < self.next_id by {
                let a2 = if a < i { a } else { a + 1 };
                assert(self@[a] == before[a2]);
            }
            if in_flight(self@, id) {
                let k = position_of(self@, id);
                let k2 = if k < i { k } else { k + 1 };
                assert(self@[k] == before[k2]);
                if k2 < i {
                    assert(before[k2].correlation_id < before[i as int].correlation_id);
                } else {
                    assert(before[i as int].correlation_id < before[k2].correlation_id);
                }
            }
        }
        if request.deadline < now {
            Err(DiscoveryError::DiscoveryTimeout)
        } else {
            Ok(request.peer)
        }
    }

    /// Takes out the requests whose deadline has passed at `now` and returns
    /// them, in the table's order. Each of them has timed out.
    pub fn sweep(&mut self, now: u64) -> (timed_out: Vec<DiscoveryRequest>)
        requires
            old(self).wf(),
        ensures
            final(self).wf(),
            final(self).spec_next_id() == old(self).spec_next_id(),
            timed_out@ == overdue(old(self)@, now),
            final(self)@ == awaited(old(self)@, now),
            timed_out@.len() + final(self)@.len() == old(self)@.len(),
            forall|i: int| 0 <= i < final(self)@.len() ==> !lapsed(#[trigger] final(self)@[i], now),
    {
        proof {
            lemma_sweep(self@, self.next_id, now);
        }
        let mut timed_out: Vec<DiscoveryRequest> = Vec::new();
        let mut kept: Vec<DiscoveryRequest> = Vec::new();
        let mut i: usize = 0;
        while i < self.requests.len()
            invariant
                i <= self@.len(),
                self@ == old(self)@,
                self.next_id == old(self).next_id,
                timed_out@ == overdue(self@.take(i as int), now),
                kept@ == awaited(self@.take(i as int), now),
            decreases self@.len() - i,
        {
            proof {
                assert(self@.take(i + 1).drop_last() == self@.take(i as int));
            }
            let request = self.requests[i];
            if request.deadline < now {
                timed_out.push(request);
            } else {
                kept.push(request);
            }
            i += 1;
        }
        proof {
            assert(self@.take(i as int) == self@);
        }
        self.requests = kept;
        timed_out
    }
}

} // verus!
