//! Bounded cache of message fingerprints.
//!
//! Every message that enters the node is reduced to a fingerprint and observed
//! in the cache. The cache counts how often each fingerprint was seen, which
//! lets the node stop relaying a message once it has been seen more often than
//! the configured number of allowed occurrences. Entries are kept in order of
//! their last observation, so that trimming drops the stalest entries first.

use std::collections::VecDeque;
use vstd::prelude::*;

verus! {

/// Offset basis of the 64-bit FNV-1a hash.
pub const FNV_OFFSET_BASIS: u64 = 0xcbf29ce484222325;

/// Prime of the 64-bit FNV-1a hash.
pub const FNV_PRIME: u64 = 0x100000001b3;

/// Fixed-size digest of a message, the key under which duplicates are found.
#[derive(Clone, Copy, Debug, PartialEq, Eq, Structural, Hash)]
pub struct MessageFingerprint {
    pub digest: u64,
}

/// One round of FNV-1a: mix the byte in, then multiply by the prime modulo 2^64.
pub open spec fn fnv_step(hash: u64, byte: u8) -> u64 {
    (((hash ^ (byte as u64)) as int * FNV_PRIME as int) % 0x1_0000_0000_0000_0000) as u64
}

/// The 64-bit FNV-1a digest of a byte string.
pub open spec fn digest_of(bytes: Seq<u8>) -> u64
    decreases bytes.len(),
{
    if bytes.len() == 0 {
        FNV_OFFSET_BASIS
    } else {
        fnv_step(digest_of(bytes.drop_last()), bytes.last())
    }
}

impl MessageFingerprint {
    /// Fingerprint of a message envelope.
    pub fn of(envelope: &Vec<u8>) -> (f: MessageFingerprint)
        ensures
            f.digest == digest_of(envelope@),
    {
        let mut hash: u64 = FNV_OFFSET_BASIS;
        let mut i: usize = 0;
        while i < envelope.len()
            invariant
                i <= envelope.len(),
                hash == digest_of(envelope@.take(i as int)),
            decreases envelope.len() - i,
        {
            let mixed: u64 = hash ^ (envelope[i] as u64);
            assert(mixed as int * FNV_PRIME as int <= u128::MAX) by (nonlinear_arith)
                requires
                    0 <= mixed as int <= 0xffff_ffff_ffff_ffff,
                    FNV_PRIME as int == 0x100000001b3,
            ;
            let wide: u128 = (mixed as u128) * (FNV_PRIME as u128);
            let low: u128 = wide % 0x1_0000_0000_0000_0000u128;
            proof {
                assert(envelope@.take(i + 1).drop_last() == envelope@.take(i as int));
            }
            hash = low as u64;
            i += 1;
        }
        proof {
            assert(envelope@.take(i as int) == envelope@);
        }
        MessageFingerprint { digest: hash }
    }
}

/// What the cache remembers of one fingerprint.
#[derive(Clone, Copy, Debug, PartialEq, Eq, Structural)]
pub struct DedupEntry {
    pub fingerprint: MessageFingerprint,
    /// Number of observations, at least one; stays at `usize::MAX` once reached.
    pub hit_count: usize,
    /// Time of the first observation.
    pub first_seen: u64,
    /// Time of the latest observation.
    pub last_seen: u64,
}

/// Some entry of `s` carries the fingerprint `f`.
pub open spec fn holds(s: Seq<DedupEntry>, f: MessageFingerprint) -> bool {
    exists|i: int| 0 <= i < s.len() && (#[trigger] s[i]).fingerprint == f
}

/// Position of the entry that carries `f`, where there is one.
pub open spec fn index_of(s: Seq<DedupEntry>, f: MessageFingerprint) -> int {
    choose|i: int| 0 <= i < s.len() && (#[trigger] s[i]).fingerprint == f
}

/// How often `f` has been observed according to `s`; zero when `s` has no entry for it.
pub open spec fn hits(s: Seq<DedupEntry>, f: MessageFingerprint) -> nat {
    if holds(s, f) {
        s[index_of(s, f)].hit_count as nat
    } else {
        0
    }
}

/// The counter after one more observation: it stops at `usize::MAX`.
pub open spec fn bump(count: usize) -> usize {
    if count < usize::MAX {
        (count + 1) as usize
    } else {
        count
    }
}

/// No fingerprint occurs twice, every counter is positive, and entries stand in
/// the order of their last observation, the stalest first.
pub open spec fn well_formed(s: Seq<DedupEntry>) -> bool {
    &&& forall|i: int, j: int|
        0 <= i < j < s.len() ==> (#[trigger] s[i]).fingerprint != (#[trigger] s[j]).fingerprint
    &&& forall|i: int, j: int|
        0 <= i <= j < s.len() ==> (#[trigger] s[i]).last_seen <= (#[trigger] s[j]).last_seen
    &&& forall|i: int| 0 <= i < s.len() ==> (#[trigger] s[i]).hit_count >= 1
}

/// Where an entry last seen at `t` belongs: behind every entry last seen at `t`
/// or earlier. Of entries observed at the same time, the one observed first
/// stays in front.
pub open spec fn slot(s: Seq<DedupEntry>, t: u64) -> int
    decreases s.len(),
{
    if s.len() > 0 && s.last().last_seen > t {
        slot(s.drop_last(), t)
    } else {
        s.len() as int
    }
}

/// The entry for `f` after an observation at `now`.
pub open spec fn refreshed(s: Seq<DedupEntry>, f: MessageFingerprint, now: u64) -> DedupEntry {
    if holds(s, f) {
        let e = s[index_of(s, f)];
        DedupEntry {
            fingerprint: f,
            hit_count: bump(e.hit_count),
            first_seen: e.first_seen,
            last_seen: now,
        }
    } else {
        DedupEntry { fingerprint: f, hit_count: 1, first_seen: now, last_seen: now }
    }
}

/// The entries other than the one for `f`.
pub open spec fn without(s: Seq<DedupEntry>, f: MessageFingerprint) -> Seq<DedupEntry> {
    if holds(s, f) {
        s.remove(index_of(s, f))
    } else {
        s
    }
}

/// The cache contents after `f` is observed at `now`: the entry for `f` is
/// created or refreshed and moved to the place its new time gives it.
pub open spec fn observed(s: Seq<DedupEntry>, f: MessageFingerprint, now: u64) -> Seq<
    DedupEntry,
> {
    let rest = without(s, f);
    rest.insert(slot(rest, now), refreshed(s, f, now))
}

/// An entry is stale at `now` when its last observation lies more than
/// `max_age` in the past.
pub open spec fn stale(e: DedupEntry, max_age: u64, now: u64) -> bool {
    e.last_seen + max_age < now
}

/// Number of entries that a trim removes from the front of `s`: entries go,
/// stalest first, while more than `capacity` are left or the front one is stale.
pub open spec fn evictions(s: Seq<DedupEntry>, capacity: usize, max_age: u64, now: u64) -> nat
    decreases s.len(),
{
    if s.len() > 0 && (s.len() > capacity || stale(s[0], max_age, now)) {
        1 + evictions(s.drop_first(), capacity, max_age, now)
    } else {
        0
    }
}

/// The cache contents after a trim at `now`.
pub open spec fn trimmed(s: Seq<DedupEntry>, capacity: usize, max_age: u64, now: u64) -> Seq<
    DedupEntry,
> {
    s.skip(evictions(s, capacity, max_age, now) as int)
}

/// With a witness at hand, `index_of` is that witness.
pub proof fn lemma_index_of(s: Seq<DedupEntry>, f: MessageFingerprint, i: int)
    requires
        well_formed(s),
        0 <= i < s.len(),
        s[i].fingerprint == f,
    ensures
        holds(s, f),
        index_of(s, f) == i,
        hits(s, f) == s[i].hit_count,
{
    let j = index_of(s, f);
    assert(0 <= j < s.len() && s[j].fingerprint == f);
    if j < i {
        assert(s[j].fingerprint != s[i].fingerprint);
    } else if i < j {
        assert(s[i].fingerprint != s[j].fingerprint);
    }
}

/// `slot` splits a sorted sequence into the entries seen at `t` or earlier and
/// those seen later.
pub proof fn lemma_slot(s: Seq<DedupEntry>, t: u64)
    ensures
        0 <= slot(s, t) <= s.len(),
        forall|j: int| slot(s, t) <= j < s.len() ==> (#[trigger] s[j]).last_seen > t,
        slot(s, t) > 0 ==> s[slot(s, t) - 1].last_seen <= t,
    decreases s.len(),
{
    if s.len() > 0 && s.last().last_seen > t {
        lemma_slot(s.drop_last(), t);
        assert forall|j: int| slot(s, t) <= j < s.len() implies (#[trigger] s[j]).last_seen
            > t by {
            if j < s.len() - 1 {
                assert(s.drop_last()[j] == s[j]);
            }
        }
        if slot(s, t) > 0 {
            assert(s.drop_last()[slot(s, t) - 1] == s[slot(s, t) - 1]);
        }
    }
}

/// Taking an entry out keeps a sequence well formed.
pub proof fn lemma_without_well_formed(s: Seq<DedupEntry>, f: MessageFingerprint)
    requires
        well_formed(s),
    ensures
        well_formed(without(s, f)),
        !holds(without(s, f), f),
        forall|g: MessageFingerprint| g != f ==> hits(without(s, f), g) == hits(s, g),
        forall|g: MessageFingerprint| g != f ==> holds(without(s, f), g) == holds(s, g),
{
    let r = without(s, f);
    if holds(s, f) {
        let i = index_of(s, f);
        assert(0 <= i < s.len() && s[i].fingerprint == f);
        s.remove_ensures(i);
        assert forall|k: int| 0 <= k < r.len() implies (#[trigger] r[k]) == s[if k < i {
            k
        } else {
            k + 1
        }] by {}
        assert forall|a: int, b: int| 0 <= a < b < r.len() implies (#[trigger] r[a]).fingerprint
            != (#[trigger] r[b]).fingerprint by {
            let a2 = if a < i { a } else { a + 1 };
            let b2 = if b < i { b } else { b + 1 };
            assert(r[a] == s[a2] && r[b] == s[b2]);
        }
        assert forall|a: int, b: int| 0 <= a <= b < r.len() implies (#[trigger] r[a]).last_seen
            <= (#[trigger] r[b]).last_seen by {
            let a2 = if a < i { a } else { a + 1 };
            let b2 = if b < i { b } else { b + 1 };
            assert(r[a] == s[a2] && r[b] == s[b2]);
        }
        assert forall|k: int| 0 <= k < r.len() implies (#[trigger] r[k]).hit_count >= 1 by {
            let k2 = if k < i { k } else { k + 1 };
            assert(r[k] == s[k2]);
        }
        if holds(r, f) {
            let k = index_of(r, f);
            let k2 = if k < i { k } else { k + 1 };
            assert(r[k] == s[k2]);
            if k2 < i {
                assert(s[k2].fingerprint != s[i].fingerprint);
            } else {
                assert(s[i].fingerprint != s[k2].fingerprint);
            }
        }
        assert forall|g: MessageFingerprint| g != f implies hits(r, g) == hits(s, g) && holds(
            r,
            g,
        ) == holds(s, g) by {
            if holds(s, g) {
                let j = index_of(s, g);
                assert(0 <= j < s.len() && s[j].fingerprint == g);
                let j2 = if j < i { j } else { j - 1 };
                assert(r[j2] == s[j]);
                lemma_index_of(r, g, j2);
                lemma_index_of(s, g, j);
            } else if holds(r, g) {
                let k = index_of(r, g);
                let k2 = if k < i { k } else { k + 1 };
                assert(r[k] == s[k2]);
                assert(s[k2].fingerprint == g);
            }
        }
    }
}

/// Putting a fresh entry at its slot keeps a sequence well formed.
pub proof fn lemma_insert_well_formed(r: Seq<DedupEntry>, e: DedupEntry)
    requires
        well_formed(r),
        !holds(r, e.fingerprint),
        e.hit_count >= 1,
    ensures
        well_formed(r.insert(slot(r, e.last_seen), e)),
        hits(r.insert(slot(r, e.last_seen), e), e.fingerprint) == e.hit_count,
        holds(r.insert(slot(r, e.last_seen), e), e.fingerprint),
        forall|g: MessageFingerprint|
            g != e.fingerprint ==> hits(r.insert(slot(r, e.last_seen), e), g) == hits(r, g),
        forall|g: MessageFingerprint|
            g != e.fingerprint ==> holds(r.insert(slot(r, e.last_seen), e), g) == holds(r, g),
{
    let p = slot(r, e.last_seen);
    let n = r.insert(p, e);
    lemma_slot(r, e.last_seen);
    r.insert_ensures(p, e);
    assert forall|k: int| 0 <= k < n.len() && k != p implies (#[trigger] n[k]) == r[if k < p {
        k
    } else {
        k - 1
    }] by {
        if k > p {
            assert(n[(k - 1) + 1] == r[k - 1]);
        }
    }
    assert forall|a: int, b: int| 0 <= a < b < n.len() implies (#[trigger] n[a]).fingerprint != (
    #[trigger] n[b]).fingerprint by {
        let a2 = if a < p { a } else { a - 1 };
        let b2 = if b < p { b } else { b - 1 };
        if a == p {
            assert(n[b] == r[b2]);
        } else if b == p {
            assert(n[a] == r[a2]);
        } else {
            assert(n[a] == r[a2] && n[b] == r[b2]);
        }
    }
    assert forall|a: int, b: int| 0 <= a <= b < n.len() implies (#[trigger] n[a]).last_seen <= (
    #[trigger] n[b]).last_seen by {
        let a2 = if a < p { a } else { a - 1 };
        let b2 = if b < p { b } else { b - 1 };
        if a == p && b == p {
        } else if a == p {
            assert(n[b] == r[b2]);
        } else if b == p {
            assert(n[a] == r[a2]);
            assert(r[a2].last_seen <= r[p - 1].last_seen);
        } else {
            assert(n[a] == r[a2] && n[b] == r[b2]);
        }
    }
    assert forall|k: int| 0 <= k < n.len() implies (#[trigger] n[k]).hit_count >= 1 by {
        let k2 = if k < p { k } else { k - 1 };
        if k != p {
            assert(n[k] == r[k2]);
        }
    }
    lemma_index_of(n, e.fingerprint, p);
    assert forall|g: MessageFingerprint| g != e.fingerprint implies hits(n, g) == hits(r, g)
        && holds(n, g) == holds(r, g) by {
        if holds(r, g) {
            let j = index_of(r, g);
            assert(0 <= j < r.len() && r[j].fingerprint == g);
            let j2 = if j < p { j } else { j + 1 };
            assert(n[j2] == r[j]);
            lemma_index_of(n, g, j2);
            lemma_index_of(r, g, j);
        } else if holds(n, g) {
            let k = index_of(n, g);
            let k2 = if k < p { k } else { k - 1 };
            assert(n[k] == r[k2]);
            assert(r[k2].fingerprint == g);
        }
    }
}

/// What one observation does to the counters: the counter of the observed
/// fingerprint goes up by one, every other counter stays.
pub proof fn lemma_observed(s: Seq<DedupEntry>, f: MessageFingerprint, now: u64)
    requires
        well_formed(s),
    ensures
        well_formed(observed(s, f, now)),
        holds(observed(s, f, now), f),
        hits(observed(s, f, now), f) == refreshed(s, f, now).hit_count,
        hits(s, f) <= usize::MAX,
        hits(observed(s, f, now), f) == (if hits(s, f) < usize::MAX {
            hits(s, f) + 1
        } else {
            hits(s, f)
        }),
        forall|g: MessageFingerprint| g != f ==> hits(observed(s, f, now), g) == hits(s, g),
        forall|g: MessageFingerprint| g != f ==> holds(observed(s, f, now), g) == holds(s, g),
        observed(s, f, now).len() == (if holds(s, f) {
            s.len()
        } else {
            s.len() + 1
        }),
{
    let rest = without(s, f);
    let e = refreshed(s, f, now);
    lemma_without_well_formed(s, f);
    lemma_insert_well_formed(rest, e);
    lemma_slot(rest, now);
    rest.insert_ensures(slot(rest, now), e);
    if holds(s, f) {
        let i = index_of(s, f);
        assert(0 <= i < s.len() && s[i].fingerprint == f);
        s.remove_ensures(i);
    }
}

/// A trim leaves at most `capacity` entries, none of them stale, and what it
/// removes was last seen no later than anything it keeps.
pub proof fn law_trim_bounds_the_cache(s: Seq<DedupEntry>, capacity: usize, max_age: u64, now: u64)
    requires
        well_formed(s),
    ensures
        evictions(s, capacity, max_age, now) <= s.len(),
        well_formed(trimmed(s, capacity, max_age, now)),
        trimmed(s, capacity, max_age, now).len() <= capacity,
        forall|i: int|
            0 <= i < trimmed(s, capacity, max_age, now).len() ==> !stale(
                #[trigger] trimmed(s, capacity, max_age, now)[i],
                max_age,
                now,
            ),
        forall|i: int, j: int|
            0 <= i < evictions(s, capacity, max_age, now) <= j < s.len() ==> (#[trigger] s[i]).last_seen
                <= (#[trigger] s[j]).last_seen,
    decreases s.len(),
{
    let k = evictions(s, capacity, max_age, now);
    if s.len() > 0 && (s.len() > capacity || stale(s[0], max_age, now)) {
        let t = s.drop_first();
        assert forall|i: int| 0 <= i < t.len() implies (#[trigger] t[i]) == s[i + 1] by {}
        assert(well_formed(t)) by {
            assert forall|a: int, b: int| 0 <= a < b < t.len() implies (#[trigger] t[a]).fingerprint
                != (#[trigger] t[b]).fingerprint by {
                assert(t[a] == s[a + 1] && t[b] == s[b + 1]);
            }
            assert forall|a: int, b: int| 0 <= a <= b < t.len() implies (#[trigger] t[a]).last_seen
                <= (#[trigger] t[b]).last_seen by {
                assert(t[a] == s[a + 1] && t[b] == s[b + 1]);
            }
            assert forall|a: int| 0 <= a < t.len() implies (#[trigger] t[a]).hit_count >= 1 by {
                assert(t[a] == s[a + 1]);
            }
        }
        law_trim_bounds_the_cache(t, capacity, max_age, now);
        assert(trimmed(s, capacity, max_age, now) == trimmed(t, capacity, max_age, now));
    } else {
        assert(trimmed(s, capacity, max_age, now) == s);
        assert forall|i: int| 0 <= i < s.len() implies !stale(#[trigger] s[i], max_age, now) by {
            assert(s[0].last_seen <= s[i].last_seen);
        }
    }
}

/// Bounded store of fingerprints with their observation counts.
pub struct DedupCache {
    entries: VecDeque<DedupEntry>,
    capacity: usize,
    allowed_occurrences: usize,
    max_age: u64,
}

impl View for DedupCache {
    type V = Seq<DedupEntry>;

    closed spec fn view(&self) -> Seq<DedupEntry> {
        self.entries@
    }
}

impl DedupCache {
    /// Number of entries that a trim leaves at most.
    pub closed spec fn spec_capacity(&self) -> usize {
        self.capacity
    }

    /// How often a fingerprint may be seen and still be relayed.
    pub closed spec fn spec_allowed_occurrences(&self) -> usize {
        self.allowed_occurrences
    }

    /// Age beyond which a trim drops an entry whatever the capacity.
    pub closed spec fn spec_max_age(&self) -> u64 {
        self.max_age
    }

    /// The cache's invariant.
    pub open spec fn wf(&self) -> bool {
        well_formed(self@)
    }

    /// An empty cache.
    pub fn new(capacity: usize, allowed_occurrences: usize, max_age: u64) -> (cache: DedupCache)
        ensures
            cache.wf(),
            cache@ == Seq::<DedupEntry>::empty(),
            cache.spec_capacity() == capacity,
            cache.spec_allowed_occurrences() == allowed_occurrences,
            cache.spec_max_age() == max_age,
    {
        DedupCache { entries: VecDeque::new(), capacity, allowed_occurrences, max_age }
    }

    pub fn capacity(&self) -> (c: usize)
        ensures
            c == self.spec_capacity(),
    {
        self.capacity
    }

    pub fn allowed_occurrences(&self) -> (h: usize)
        ensures
            h == self.spec_allowed_occurrences(),
    {
        self.allowed_occurrences
    }

    pub fn max_age(&self) -> (a: u64)
        ensures
            a == self.spec_max_age(),
    {
        self.max_age
    }

    /// Number of entries held.
    pub fn len(&self) -> (n: usize)
        ensures
            n == self@.len(),
    {
        self.entries.len()
    }

    pub fn is_empty(&self) -> (b: bool)
        ensures
            b == (self@.len() == 0),
    {
        self.entries.len() == 0
    }

    /// Position of the entry for `fingerprint`, or the number of entries when
    /// there is none.
    fn find(&self, fingerprint: MessageFingerprint) -> (i: usize)
        requires
            self.wf(),
        ensures
            i <= self@.len(),
            i < self@.len() ==> holds(self@, fingerprint) && index_of(self@, fingerprint) == i,
            i == self@.len() ==> !holds(self@, fingerprint),
    {
        let n = self.entries.len();
        let mut i: usize = 0;
        while i < n && self.entries[i].fingerprint != fingerprint
            invariant
                n == self@.len(),
                i <= n,
                forall|k: int| 0 <= k < i ==> (#[trigger] self@[k]).fingerprint != fingerprint,
            decreases n - i,
        {
            i += 1;
        }
        proof {
            if i < n {
                lemma_index_of(self@, fingerprint, i as int);
            }
        }
        i
    }

    /// The entry for `fingerprint`, if the cache holds one.
    pub fn get(&self, fingerprint: MessageFingerprint) -> (e: Option<DedupEntry>)
        requires
            self.wf(),
        ensures
            e is Some == holds(self@, fingerprint),
            e is Some ==> e->0 == self@[index_of(self@, fingerprint)],
    {
        let i = self.find(fingerprint);
        if i < self.entries.len() {
            Some(self.entries[i])
        } else {
            None
        }
    }

    /// How often `fingerprint` has been observed; zero when it is unknown.
    pub fn hit_count(&self, fingerprint: MessageFingerprint) -> (n: usize)
        requires
            self.wf(),
        ensures
            n == hits(self@, fingerprint),
    {
        let i = self.find(fingerprint);
        if i < self.entries.len() {
            self.entries[i].hit_count
        } else {
            0
        }
    }

    /// Records one observation of `fingerprint` at time `now`. Returns whether
    /// this was the first observation, and the counter after it.
    pub fn observe(&mut self, fingerprint: MessageFingerprint, now: u64) -> (out: (bool, usize))
        requires
            old(self).wf(),
        ensures
            final(self).wf(),
            final(self)@ == observed(old(self)@, fingerprint, now),
            holds(final(self)@, fingerprint),
            out.0 == !holds(old(self)@, fingerprint),
            out.1 == hits(final(self)@, fingerprint),
            out.1 == (if hits(old(self)@, fingerprint) < usize::MAX {
                hits(old(self)@, fingerprint) + 1
            } else {
                hits(old(self)@, fingerprint)
            }),
            final(self).spec_capacity() == old(self).spec_capacity(),
            final(self).spec_allowed_occurrences() == old(self).spec_allowed_occurrences(),
            final(self).spec_max_age() == old(self).spec_max_age(),
    {
        proof {
            lemma_observed(self@, fingerprint, now);
        }
        let i = self.find(fingerprint);
        let is_new = i >= self.entries.len();
        let entry = match self.entries.remove(i) {
            Some(e) => DedupEntry {
                fingerprint,
                hit_count: if e.hit_count < usize::MAX {
                    e.hit_count + 1
                } else {
                    e.hit_count
                },
                first_seen: e.first_seen,
                last_seen: now,
            },
            None => DedupEntry { fingerprint, hit_count: 1, first_seen: now, last_seen: now },
        };
        assert(entry == refreshed(old(self)@, fingerprint, now));
        assert(self.entries@ == without(old(self)@, fingerprint));
        let ghost rest = self.entries@;
        let mut p: usize = self.entries.len();
        proof {
            assert(rest.take(rest.len() as int) == rest);
        }
        while p > 0 && self.entries[p - 1].last_seen > now
            invariant
                self.entries@ == rest,
                p <= rest.len(),
                slot(rest, now) == slot(rest.take(p as int), now),
            decreases p,
        {
            proof {
                assert(rest.take(p as int).drop_last() == rest.take(p - 1));
            }
            p -= 1;
        }
        self.entries.insert(p, entry);
        (is_new, entry.hit_count)
    }

    /// Whether a message with this fingerprint is still to be relayed: it is
    /// while it has been seen no more often than allowed.
    pub fn should_propagate(&self, fingerprint: MessageFingerprint) -> (go: bool)
        requires
            self.wf(),
        ensures
            go == (hits(self@, fingerprint) <= self.spec_allowed_occurrences()),
    {
        self.hit_count(fingerprint) <= self.allowed_occurrences
    }

    /// Removes entries from the stale end until at most `capacity` are left
    /// and the stalest one left is no older than the age ceiling. Returns the
    /// number of entries removed.
    pub fn trim(&mut self, now: u64) -> (evicted: usize)
        requires
            old(self).wf(),
        ensures
            final(self).wf(),
            final(self)@ == trimmed(
                old(self)@,
                old(self).spec_capacity(),
                old(self).spec_max_age(),
                now,
            ),
            evicted == evictions(
                old(self)@,
                old(self).spec_capacity(),
                old(self).spec_max_age(),
                now,
            ),
            final(self)@.len() <= final(self).spec_capacity(),
            final(self)@.len() + evicted == old(self)@.len(),
            forall|i: int|
                0 <= i < final(self)@.len() ==> !stale(
                    #[trigger] final(self)@[i],
                    final(self).spec_max_age(),
                    now,
                ),
            final(self).spec_capacity() == old(self).spec_capacity(),
            final(self).spec_allowed_occurrences() == old(self).spec_allowed_occurrences(),
            final(self).spec_max_age() == old(self).spec_max_age(),
    {
        proof {
            law_trim_bounds_the_cache(self@, self.capacity, self.max_age, now);
        }
        let ghost start = self.entries@;
        let held = self.entries.len();
        let mut evicted: usize = 0;
        loop
            invariant
                start.len() == held,
                evicted + self.entries@.len() == start.len(),
                self.entries@ == start.skip(evicted as int),
                evictions(start, self.capacity, self.max_age, now) == evicted + evictions(
                    self.entries@,
                    self.capacity,
                    self.max_age,
                    now,
                ),
                self.capacity == old(self).capacity,
                self.max_age == old(self).max_age,
                self.allowed_occurrences == old(self).allowed_occurrences,
            ensures
                evicted == evictions(start, self.capacity, self.max_age, now),
                self.entries@ == start.skip(evicted as int),
            decreases self.entries@.len(),
        {
            let n = self.entries.len();
            if n == 0 {
                break ;
            }
            let front = self.entries[0];
            let is_stale = match front.last_seen.checked_add(self.max_age) {
                Some(limit) => limit < now,
                None => false,
            };
            if n <= self.capacity && !is_stale {
                break ;
            }
            let ghost before = self.entries@;
            self.entries.pop_front();
            proof {
                assert(self.entries@ == before.drop_first());
                assert(before.drop_first() == start.skip(evicted + 1));
            }
            evicted += 1;
        }
        evicted
    }
}

/// The contents after a run of observations, the earliest first. Each
/// observation names a fingerprint and the time at which it was seen.
pub open spec fn observed_all(s: Seq<DedupEntry>, run: Seq<(MessageFingerprint, u64)>) -> Seq<
    DedupEntry,
>
    decreases run.len(),
{
    if run.len() == 0 {
        s
    } else {
        observed(observed_all(s, run.drop_last()), run.last().0, run.last().1)
    }
}

/// How many observations of a run name the fingerprint `f`.
pub open spec fn times_seen(run: Seq<(MessageFingerprint, u64)>, f: MessageFingerprint) -> nat
    decreases run.len(),
{
    if run.len() == 0 {
        0
    } else {
        times_seen(run.drop_last(), f) + (if run.last().0 == f {
            1nat
        } else {
            0nat
        })
    }
}

/// The counter of a fingerprint counts its observations: after any run of
/// observations, at whatever times and mixed with observations of other
/// fingerprints, the counter of `f` has grown by the number of times `f` was
/// observed, as long as that stays within `usize::MAX`. Counted from an
/// unknown fingerprint, the counter is the number of observations, and the
/// fingerprint is relayed exactly while that number does not exceed the
/// `allowed` occurrences.
pub proof fn law_counter_counts_observations(
    s: Seq<DedupEntry>,
    run: Seq<(MessageFingerprint, u64)>,
    f: MessageFingerprint,
    allowed: usize,
)
    requires
        well_formed(s),
        hits(s, f) + times_seen(run, f) <= usize::MAX,
    ensures
        well_formed(observed_all(s, run)),
        hits(observed_all(s, run), f) == hits(s, f) + times_seen(run, f),
        !holds(s, f) ==> hits(observed_all(s, run), f) == times_seen(run, f),
        !holds(s, f) ==> ((hits(observed_all(s, run), f) <= allowed) <==> times_seen(run, f)
            <= allowed),
    decreases run.len(),
{
    if run.len() > 0 {
        let before = observed_all(s, run.drop_last());
        law_counter_counts_observations(s, run.drop_last(), f, allowed);
        lemma_observed(before, run.last().0, run.last().1);
    }
}

/// Observations keep the cache's invariant, whatever its counters have
/// reached: after any run of them no fingerprint has two entries, every
/// counter is positive, and the entries stand in the order of their last
/// observation.
pub proof fn law_observations_keep_the_invariant(
    s: Seq<DedupEntry>,
    run: Seq<(MessageFingerprint, u64)>,
)
    requires
        well_formed(s),
    ensures
        well_formed(observed_all(s, run)),
    decreases run.len(),
{
    if run.len() > 0 {
        law_observations_keep_the_invariant(s, run.drop_last());
        lemma_observed(observed_all(s, run.drop_last()), run.last().0, run.last().1);
    }
}

} // verus!
