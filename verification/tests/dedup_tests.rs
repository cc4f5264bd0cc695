use comms_dht::dedup::{DedupCache, DedupEntry, MessageFingerprint};

fn fp(digest: u64) -> MessageFingerprint {
    MessageFingerprint { digest }
}

#[test]
fn fingerprint_is_fnv1a_64() {
    assert_eq!(MessageFingerprint::of(&vec![]).digest, 0xcbf29ce484222325);
    assert_eq!(MessageFingerprint::of(&b"a".to_vec()).digest, 0xaf63dc4c8601ec8c);
    assert_eq!(MessageFingerprint::of(&b"foobar".to_vec()).digest, 0x85944171f73967e8);
    assert_ne!(
        MessageFingerprint::of(&b"message one".to_vec()),
        MessageFingerprint::of(&b"message two".to_vec())
    );
}

#[test]
fn counter_counts_observations_and_gates_propagation() {
    for allowed in 0..5usize {
        let mut cache = DedupCache::new(100, allowed, 1000);
        let f = fp(42);
        assert!(cache.should_propagate(f));
        assert_eq!(cache.hit_count(f), 0);
        for k in 1..8usize {
            // observations of other fingerprints in between do not count
            cache.observe(fp(1000 + k as u64), k as u64);
            let (is_new, count) = cache.observe(f, k as u64);
            assert_eq!(is_new, k == 1);
            assert_eq!(count, k);
            assert_eq!(cache.hit_count(f), k);
            assert_eq!(cache.should_propagate(f), k <= allowed);
        }
    }
}

#[test]
fn observe_records_first_and_last_seen() {
    let mut cache = DedupCache::new(10, 1, 1000);
    assert_eq!(cache.observe(fp(1), 5), (true, 1));
    assert_eq!(
        cache.get(fp(1)),
        Some(DedupEntry { fingerprint: fp(1), hit_count: 1, first_seen: 5, last_seen: 5 })
    );
    assert_eq!(cache.observe(fp(1), 9), (false, 2));
    assert_eq!(
        cache.get(fp(1)),
        Some(DedupEntry { fingerprint: fp(1), hit_count: 2, first_seen: 5, last_seen: 9 })
    );
    assert_eq!(cache.get(fp(2)), None);
    assert_eq!(cache.len(), 1);
}

#[test]
fn trim_never_leaves_more_than_capacity() {
    let mut cache = DedupCache::new(3, 1, 1_000_000);
    for i in 0..10u64 {
        cache.observe(fp(i), i);
    }
    assert_eq!(cache.len(), 10);
    let evicted = cache.trim(10);
    assert_eq!(evicted, 7);
    assert_eq!(cache.len(), 3);
    assert!(cache.len() <= cache.capacity());
    // the stalest went first
    for i in 0..7u64 {
        assert_eq!(cache.hit_count(fp(i)), 0);
    }
    for i in 7..10u64 {
        assert_eq!(cache.hit_count(fp(i)), 1);
    }
    assert_eq!(cache.trim(10), 0);
}

#[test]
fn trim_evicts_by_last_seen_not_by_first_seen() {
    let mut cache = DedupCache::new(2, 5, 1_000_000);
    cache.observe(fp(1), 1);
    cache.observe(fp(2), 2);
    cache.observe(fp(3), 3);
    // fingerprint 1 is seen again and becomes the freshest
    cache.observe(fp(1), 4);
    assert_eq!(cache.trim(5), 1);
    assert_eq!(cache.hit_count(fp(1)), 2);
    assert_eq!(cache.hit_count(fp(2)), 0);
    assert_eq!(cache.hit_count(fp(3)), 1);
}

#[test]
fn trim_drops_stale_entries_whatever_the_capacity() {
    let mut cache = DedupCache::new(100, 1, 10);
    cache.observe(fp(1), 0);
    cache.observe(fp(2), 5);
    cache.observe(fp(3), 20);
    // at 15 the entry seen at 0 is 15 old, past the ceiling of 10; the one seen at 5 is exactly 10
    assert_eq!(cache.trim(15), 1);
    assert_eq!(cache.hit_count(fp(1)), 0);
    assert_eq!(cache.hit_count(fp(2)), 1);
    assert_eq!(cache.trim(16), 1);
    assert_eq!(cache.hit_count(fp(2)), 0);
    assert_eq!(cache.hit_count(fp(3)), 1);
    assert_eq!(cache.len(), 1);
}

#[test]
fn trim_with_capacity_zero_empties_the_cache() {
    let mut cache = DedupCache::new(0, 1, 100);
    cache.observe(fp(1), 1);
    cache.observe(fp(2), 2);
    assert_eq!(cache.trim(3), 2);
    assert!(cache.is_empty());
}

#[test]
fn a_clock_that_runs_backwards_keeps_the_order_by_last_seen() {
    let mut cache = DedupCache::new(1, 1, 1_000_000);
    cache.observe(fp(1), 10);
    cache.observe(fp(2), 5);
    // fingerprint 2 was seen at an earlier time and is the stalest
    assert_eq!(cache.trim(10), 1);
    assert_eq!(cache.hit_count(fp(2)), 0);
    assert_eq!(cache.hit_count(fp(1)), 1);
}

#[test]
fn suppressed_entries_are_kept() {
    let mut cache = DedupCache::new(10, 1, 100);
    cache.observe(fp(1), 1);
    cache.observe(fp(1), 2);
    cache.observe(fp(1), 3);
    assert!(!cache.should_propagate(fp(1)));
    assert_eq!(cache.len(), 1);
    assert_eq!(cache.hit_count(fp(1)), 3);
    assert_eq!(cache.allowed_occurrences(), 1);
    assert_eq!(cache.max_age(), 100);
}
