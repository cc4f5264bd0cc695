use comms_dht::peer::NodeId;
use comms_dht::saf::{SafStore, StashOutcome};

fn id(value: u128) -> NodeId {
    NodeId::new(value)
}

#[test]
fn retrieve_returns_stashed_envelopes_once_in_order() {
    let mut store = SafStore::new(true, 10);
    assert_eq!(store.stash(id(1), b"one".to_vec(), 100, 0), StashOutcome::Stored);
    assert_eq!(store.stash(id(2), b"other".to_vec(), 100, 1), StashOutcome::Stored);
    assert_eq!(store.stash(id(1), b"two".to_vec(), 100, 2), StashOutcome::Stored);
    assert_eq!(store.stash(id(1), b"three".to_vec(), 100, 3), StashOutcome::Stored);
    assert_eq!(store.pending_for(id(1)), 3);
    assert_eq!(store.len(), 4);

    let out = store.retrieve(id(1), 50);
    assert_eq!(out, vec![b"one".to_vec(), b"two".to_vec(), b"three".to_vec()]);
    // a second retrieval right away finds nothing
    assert!(store.retrieve(id(1), 50).is_empty());
    assert_eq!(store.pending_for(id(1)), 0);
    // what is kept for the other peer is untouched
    assert_eq!(store.retrieve(id(2), 50), vec![b"other".to_vec()]);
    assert!(store.is_empty());
}

#[test]
fn retrieve_leaves_out_what_has_expired_and_forgets_it() {
    let mut store = SafStore::new(true, 10);
    store.stash(id(1), b"short".to_vec(), 5, 0);
    store.stash(id(1), b"long".to_vec(), 50, 0);
    // alive up to and including its deadline
    assert_eq!(store.retrieve(id(1), 6), vec![b"long".to_vec()]);
    assert!(store.is_empty());

    store.stash(id(1), b"edge".to_vec(), 5, 0);
    assert_eq!(store.retrieve(id(1), 5), vec![b"edge".to_vec()]);
}

#[test]
fn expire_then_retrieve_is_empty() {
    let mut store = SafStore::new(true, 10);
    assert_eq!(store.stash(id(4), b"m".to_vec(), 1, 10), StashOutcome::Stored);
    assert_eq!(store.expire(11), 0);
    assert_eq!(store.len(), 1);
    assert_eq!(store.expire(12), 1);
    assert!(store.retrieve(id(4), 12).is_empty());
    assert!(store.is_empty());
}

#[test]
fn expire_removes_only_what_is_past_its_deadline() {
    let mut store = SafStore::new(true, 10);
    store.stash(id(1), b"a".to_vec(), 1, 0);
    store.stash(id(2), b"b".to_vec(), 10, 0);
    store.stash(id(1), b"c".to_vec(), 20, 0);
    assert_eq!(store.expire(5), 1);
    assert_eq!(store.len(), 2);
    assert_eq!(store.retrieve(id(1), 5), vec![b"c".to_vec()]);
    assert_eq!(store.retrieve(id(2), 5), vec![b"b".to_vec()]);
}

#[test]
fn a_full_queue_drops_its_own_oldest_message() {
    let mut store = SafStore::new(true, 2);
    assert_eq!(store.capacity(), 2);
    assert_eq!(store.stash(id(1), b"a1".to_vec(), 100, 0), StashOutcome::Stored);
    assert_eq!(store.stash(id(2), b"b1".to_vec(), 100, 0), StashOutcome::Stored);
    assert_eq!(store.stash(id(1), b"a2".to_vec(), 100, 0), StashOutcome::Stored);
    assert_eq!(store.stash(id(1), b"a3".to_vec(), 100, 0), StashOutcome::StoredAfterEviction);
    assert_eq!(store.pending_for(id(1)), 2);
    assert_eq!(store.pending_for(id(2)), 1);
    assert_eq!(store.retrieve(id(1), 1), vec![b"a2".to_vec(), b"a3".to_vec()]);
    // the other peer lost nothing
    assert_eq!(store.retrieve(id(2), 1), vec![b"b1".to_vec()]);
}

#[test]
fn a_disabled_store_keeps_nothing() {
    let mut store = SafStore::new(false, 10);
    assert!(!store.is_enabled());
    assert_eq!(store.stash(id(1), b"a".to_vec(), 100, 0), StashOutcome::Dropped);
    assert!(store.is_empty());
    assert!(store.retrieve(id(1), 0).is_empty());
}

#[test]
fn a_store_without_room_keeps_nothing() {
    let mut store = SafStore::new(true, 0);
    assert_eq!(store.stash(id(1), b"a".to_vec(), 100, 0), StashOutcome::Dropped);
    assert!(store.is_empty());
}

#[test]
fn a_deadline_stops_at_the_end_of_time() {
    let mut store = SafStore::new(true, 2);
    store.stash(id(1), b"a".to_vec(), u64::MAX, 10);
    assert_eq!(store.expire(u64::MAX), 0);
    assert_eq!(store.retrieve(id(1), u64::MAX), vec![b"a".to_vec()]);
}
