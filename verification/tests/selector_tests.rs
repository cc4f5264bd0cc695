use comms_dht::peer::{NodeId, PeerDirectory};
use comms_dht::selector::{candidate_ids, closest_peers, contains_id, select, NodeSelectionMix};

fn id(value: u128) -> NodeId {
    NodeId::new(value)
}

fn directory_of(n: u128) -> PeerDirectory {
    let mut dir = PeerDirectory::new();
    for i in 1..=n {
        assert!(dir.record(id(i * 16), true));
    }
    dir
}

fn has_duplicates(ids: &[NodeId]) -> bool {
    for i in 0..ids.len() {
        for j in (i + 1)..ids.len() {
            if ids[i] == ids[j] {
                return true;
            }
        }
    }
    false
}

#[test]
fn distance_is_xor() {
    assert_eq!(id(0b1100).distance(&id(0b1010)), 0b0110);
    assert_eq!(id(7).distance(&id(7)), 0);
    assert_eq!(id(0).distance(&id(u128::MAX)), u128::MAX);
}

#[test]
fn selection_of_two_random_and_three_neighbours_from_ten_peers() {
    let dir = directory_of(10);
    let mix = NodeSelectionMix { num_random_nodes: 2, num_neighbouring_nodes: 3 };
    let local = id(0);
    for seed in 0..50u64 {
        let draws: Vec<u64> = (0..20u64).map(|k| seed.wrapping_mul(7919).wrapping_add(k * 31)).collect();
        for count in 0..12usize {
            let chosen = select(&dir, &local, count, &mix, &vec![], &draws);
            assert!(chosen.len() <= count);
            assert!(chosen.len() <= 5);
            assert!(!has_duplicates(&chosen));
            for peer in &chosen {
                assert!(dir.contains(*peer));
            }
        }
    }
}

#[test]
fn selection_takes_the_nearest_first_then_the_draws() {
    let dir = directory_of(10);
    let mix = NodeSelectionMix { num_random_nodes: 2, num_neighbouring_nodes: 3 };
    // candidates are 16, 32, .., 160; the nearest to 0 are 16, 32, 48
    // draw 0 lands on 16 (already chosen), draw 9 on 160, draw 13 on 64, draw 5 on 96
    let chosen = select(&dir, &id(0), 10, &mix, &vec![], &vec![0, 9, 13, 5]);
    assert_eq!(chosen, vec![id(16), id(32), id(48), id(160), id(64)]);
    // a count of four leaves room for one random pick
    let chosen = select(&dir, &id(0), 4, &mix, &vec![], &vec![0, 9, 13, 5]);
    assert_eq!(chosen, vec![id(16), id(32), id(48), id(160)]);
    // a count of two cuts into the neighbours
    let chosen = select(&dir, &id(0), 2, &mix, &vec![], &vec![0, 9, 13, 5]);
    assert_eq!(chosen, vec![id(16), id(32)]);
    // without draws only the neighbours come
    let chosen = select(&dir, &id(0), 10, &mix, &vec![], &vec![]);
    assert_eq!(chosen, vec![id(16), id(32), id(48)]);
}

#[test]
fn selection_leaves_out_excluded_peers() {
    let dir = directory_of(5);
    let mix = NodeSelectionMix { num_random_nodes: 0, num_neighbouring_nodes: 3 };
    let chosen = select(&dir, &id(0), 3, &mix, &vec![id(16), id(48)], &vec![]);
    assert_eq!(chosen, vec![id(32), id(64), id(80)]);
    assert_eq!(candidate_ids(&dir, &vec![id(16), id(48)]), vec![id(32), id(64), id(80)]);
}

#[test]
fn an_empty_directory_gives_an_empty_selection() {
    let dir = PeerDirectory::new();
    let mix = NodeSelectionMix { num_random_nodes: 2, num_neighbouring_nodes: 3 };
    assert!(select(&dir, &id(0), 5, &mix, &vec![], &vec![1, 2, 3]).is_empty());
}

#[test]
fn closest_peers_are_ordered_by_xor_distance() {
    let c = vec![id(0b1000), id(0b0001), id(0b0111), id(0b0100)];
    // distances from 0b0101: 13, 4, 2, 1
    assert_eq!(closest_peers(&c, &id(0b0101), 3), vec![id(0b0100), id(0b0111), id(0b0001)]);
    assert_eq!(closest_peers(&c, &id(0b0101), 10).len(), 4);
    assert!(closest_peers(&c, &id(0b0101), 0).is_empty());
    assert!(contains_id(&c, id(0b0111)));
    assert!(!contains_id(&c, id(0b0110)));
}

#[test]
fn directory_records_and_forgets_peers() {
    let mut dir = PeerDirectory::new();
    assert!(dir.is_empty());
    assert!(dir.record(id(1), true));
    assert!(dir.record(id(2), false));
    assert!(!dir.record(id(1), false));
    assert_eq!(dir.len(), 2);
    assert!(!dir.is_reachable(id(1)));
    assert!(!dir.is_reachable(id(2)));
    assert!(!dir.is_reachable(id(3)));
    assert!(!dir.record(id(2), true));
    assert!(dir.is_reachable(id(2)));
    assert_eq!(dir.lookup_all(), vec![id(1), id(2)]);
    assert!(dir.forget(id(1)));
    assert!(!dir.forget(id(1)));
    assert!(!dir.contains(id(1)));
    assert_eq!(dir.lookup_all(), vec![id(2)]);
    assert_eq!(dir.peer_at(0).node_id, id(2));
}
