use vexus_lite::store::figure_of;
use vexus_lite::{Neighbor, Room, SearchResult, Step, VexusError, VexusIndex, VexusStats};

fn bytes(scalars: &[f32]) -> Vec<u8> {
    scalars.iter().flat_map(|x| x.to_ne_bytes()).collect()
}

fn score(hit: &SearchResult) -> f64 {
    1.0 - f32::from_bits(hit.distance) as f64
}

#[test]
fn fresh_store_reports_its_dimensions_and_room() {
    for (dim, capacity) in [(1u32, 0u32), (3, 10), (8, 1), (128, 1000)] {
        let store = VexusIndex::new(dim, capacity).unwrap();
        let stats = store.stats();
        assert_eq!(stats.dimensions, dim);
        assert!(stats.capacity >= capacity);
        assert_eq!(stats.total_vectors, 0);
    }
}

#[test]
fn nearest_vector_is_found_and_leaves_on_removal() {
    let mut store = VexusIndex::new(3, 10).unwrap();
    store.add(1, &bytes(&[1.0, 0.0, 0.0])).unwrap();
    store.add(2, &bytes(&[0.0, 1.0, 0.0])).unwrap();
    let hits = store.search(&bytes(&[1.0, 0.0, 0.0]), 1).unwrap();
    assert_eq!(hits.len(), 1);
    assert_eq!(hits[0].id, 1);
    assert_eq!(score(&hits[0]), 1.0);
    store.remove(1).unwrap();
    let hits = store.search(&bytes(&[1.0, 0.0, 0.0]), 1).unwrap();
    assert_eq!(hits.len(), 1);
    assert_eq!(hits[0].id, 2);
    assert!(score(&hits[0]) < 1.0);
    assert_eq!(score(&hits[0]), -1.0);
}

#[test]
fn batch_of_the_wrong_length_is_turned_away() {
    let mut store = VexusIndex::new(2, 10).unwrap();
    store.add_batch(&[10, 11], &bytes(&[1.0, 0.0, 0.0, 1.0])).unwrap();
    assert_eq!(store.stats().total_vectors, 2);
    let refused = store.add_batch(&[12], &bytes(&[1.0, 0.0, 0.0]));
    assert_eq!(refused, Err(VexusError::BatchSizeMismatch));
    assert_eq!(store.stats().total_vectors, 2);
    assert!(!store.contains(12));
}

#[test]
fn batch_puts_each_vector_under_its_own_label() {
    let mut store = VexusIndex::new(2, 10).unwrap();
    store.add_batch(&[10, 11, 12], &bytes(&[1.0, 0.0, 0.0, 1.0, 5.0, 5.0])).unwrap();
    assert_eq!(store.get(10).unwrap(), bytes(&[1.0, 0.0]));
    assert_eq!(store.get(11).unwrap(), bytes(&[0.0, 1.0]));
    assert_eq!(store.get(12).unwrap(), bytes(&[5.0, 5.0]));
    assert_eq!(store.stats().total_vectors, 3);
}

#[test]
fn batch_replaces_what_a_label_held() {
    let mut store = VexusIndex::new(2, 10).unwrap();
    store.add(7, &bytes(&[9.0, 9.0])).unwrap();
    store.add_batch(&[7, 8, 7], &bytes(&[1.0, 0.0, 0.0, 1.0, 3.0, 4.0])).unwrap();
    assert_eq!(store.get(7).unwrap(), bytes(&[3.0, 4.0]));
    assert_eq!(store.get(8).unwrap(), bytes(&[0.0, 1.0]));
    assert_eq!(store.stats().total_vectors, 2);
}

#[test]
fn empty_batch_changes_nothing() {
    let mut store = VexusIndex::new(2, 10).unwrap();
    store.add(1, &bytes(&[1.0, 2.0])).unwrap();
    store.add_batch(&[], &[]).unwrap();
    assert_eq!(store.stats().total_vectors, 1);
}

#[test]
fn vector_of_the_wrong_length_is_turned_away() {
    let mut store = VexusIndex::new(3, 10).unwrap();
    store.add(1, &bytes(&[1.0, 0.0, 0.0])).unwrap();
    for wrong in [bytes(&[]), bytes(&[1.0]), bytes(&[1.0, 2.0]), bytes(&[1.0, 2.0, 3.0, 4.0])] {
        let refused = store.add(2, &wrong);
        assert_eq!(
            refused,
            Err(VexusError::DimensionMismatch { expected: 3, byte_len: wrong.len() })
        );
        assert_eq!(store.stats().total_vectors, 1);
        assert!(!store.contains(2));
    }
}

#[test]
fn vector_with_stray_bytes_is_turned_away() {
    let mut store = VexusIndex::new(2, 10).unwrap();
    let mut vector = bytes(&[1.0, 2.0]);
    vector.push(0);
    assert_eq!(
        store.add(1, &vector),
        Err(VexusError::DimensionMismatch { expected: 2, byte_len: 9 })
    );
    assert_eq!(store.stats().total_vectors, 0);
}

#[test]
fn query_of_the_wrong_length_is_turned_away() {
    let mut store = VexusIndex::new(3, 10).unwrap();
    store.add(1, &bytes(&[1.0, 0.0, 0.0])).unwrap();
    let refused = store.search(&bytes(&[1.0, 0.0]), 1);
    assert_eq!(refused, Err(VexusError::DimensionMismatch { expected: 3, byte_len: 8 }));
    let refused = store.nearest(&bytes(&[1.0, 0.0, 0.0, 0.0]), 1);
    assert_eq!(refused, Err(VexusError::DimensionMismatch { expected: 3, byte_len: 16 }));
}

#[test]
fn adding_under_a_held_label_replaces_the_vector() {
    let mut store = VexusIndex::new(2, 10).unwrap();
    store.add(5, &bytes(&[1.0, 0.0])).unwrap();
    store.add(5, &bytes(&[0.0, 1.0])).unwrap();
    assert_eq!(store.stats().total_vectors, 1);
    assert_eq!(store.get(5).unwrap(), bytes(&[0.0, 1.0]));
    let hits = store.search(&bytes(&[0.0, 1.0]), 5).unwrap();
    assert_eq!(hits.len(), 1);
    assert_eq!(hits[0].id, 5);
    assert_eq!(score(&hits[0]), 1.0);
}

#[test]
fn removing_an_absent_label_is_no_error() {
    let mut store = VexusIndex::new(2, 10).unwrap();
    store.add(5, &bytes(&[1.0, 0.0])).unwrap();
    assert_eq!(store.remove(6), Ok(()));
    assert_eq!(store.stats().total_vectors, 1);
    assert_eq!(store.remove(5), Ok(()));
    assert_eq!(store.stats().total_vectors, 0);
    assert_eq!(store.remove(5), Ok(()));
    assert_eq!(store.stats().total_vectors, 0);
    assert!(!store.contains(5));
}

#[test]
fn store_grows_when_one_more_vector_would_fill_it() {
    let mut store = VexusIndex::new(2, 4).unwrap();
    let before = store.stats().capacity;
    assert_eq!(before, 4);
    for id in 0..3u32 {
        store.add(id, &bytes(&[id as f32, 1.0])).unwrap();
    }
    assert_eq!(store.stats().capacity, 4);
    store.add(3, &bytes(&[3.0, 1.0])).unwrap();
    assert_eq!(store.stats().capacity, 6);
    for id in 4..40u32 {
        store.add(id, &bytes(&[id as f32, 1.0])).unwrap();
    }
    assert!(store.stats().capacity > 40);
    assert_eq!(store.stats().total_vectors, 40);
    for id in 0..40u32 {
        assert!(store.contains(id));
        let hits = store.search(&bytes(&[id as f32, 1.0]), 1).unwrap();
        assert_eq!(hits[0].id, id);
        assert_eq!(score(&hits[0]), 1.0);
    }
}

#[test]
fn growing_ahead_of_one_insertion() {
    let mut store = VexusIndex::new(2, 1).unwrap();
    assert_eq!(store.stats().capacity, 1);
    assert!(store.grow_for_insert());
    assert_eq!(store.stats().capacity, 2);
    assert!(!store.grow_for_insert());
    assert_eq!(store.stats().capacity, 2);
    store.add(1, &bytes(&[1.0, 1.0])).unwrap();
    assert_eq!(store.stats().capacity, 2);
    assert!(store.grow_for_insert());
    assert_eq!(store.stats().capacity, 3);
    assert!(store.contains(1));
}

#[test]
fn growing_ahead_of_a_batch() {
    let mut store = VexusIndex::new(2, 4).unwrap();
    assert!(!store.grow_for_batch(3));
    assert_eq!(store.stats().capacity, 4);
    assert!(store.grow_for_batch(4));
    assert_eq!(store.stats().capacity, 6);
    assert!(store.grow_for_batch(7));
    assert_eq!(store.stats().capacity, 11);
}

#[test]
fn batch_grows_the_store_once() {
    let mut store = VexusIndex::new(1, 2).unwrap();
    store.add_batch(&[1, 2, 3, 4, 5], &bytes(&[1.0, 2.0, 3.0, 4.0, 5.0])).unwrap();
    assert_eq!(store.stats().capacity, 8);
    assert_eq!(store.stats().total_vectors, 5);
}

#[test]
fn store_without_room_cannot_grow_by_halves() {
    let mut store = VexusIndex::new(2, 0).unwrap();
    assert!(store.stats().capacity == 0);
    let refused = store.add(1, &bytes(&[1.0, 1.0]));
    assert!(matches!(refused, Err(VexusError::Engine { step: Step::Add, .. })));
    assert_eq!(store.stats().total_vectors, 0);
}

#[test]
fn missing_vector_comes_back_as_zeros() {
    let mut store = VexusIndex::new(3, 10).unwrap();
    store.add(1, &bytes(&[1.0, 2.0, 3.0])).unwrap();
    assert_eq!(store.get(1).unwrap(), bytes(&[1.0, 2.0, 3.0]));
    assert_eq!(store.get(2).unwrap(), vec![0u8; 12]);
    assert_eq!(store.vector_of(1 << 40).unwrap(), vec![0u8; 12]);
    assert_eq!(store.blank(), vec![0u8; 12]);
}

#[test]
fn vectors_come_back_at_the_positions_asked() {
    let mut store = VexusIndex::new(2, 10).unwrap();
    store.add(1, &bytes(&[1.0, 2.0])).unwrap();
    store.add(3, &bytes(&[5.0, 6.0])).unwrap();
    let got = store.get_batch(&[3, 2, 1, 3]).unwrap();
    assert_eq!(got, bytes(&[5.0, 6.0, 0.0, 0.0, 1.0, 2.0, 5.0, 6.0]));
    assert_eq!(store.get_batch(&[]).unwrap(), Vec::<u8>::new());
}

#[test]
fn labels_of_64_bits_are_kept_whole() {
    let mut store = VexusIndex::new(2, 10).unwrap();
    let label = (1u64 << 32) + 7;
    store.insert_or_update(label, &bytes(&[1.0, 0.0])).unwrap();
    assert!(store.contains_label(label));
    assert!(!store.contains(7));
    let hits = store.nearest(&bytes(&[1.0, 0.0]), 3).unwrap();
    assert_eq!(hits, vec![Neighbor { label, distance: 0f32.to_bits() }]);
    let narrow = store.search(&bytes(&[1.0, 0.0]), 3).unwrap();
    assert_eq!(narrow, vec![SearchResult { id: 7, distance: 0f32.to_bits() }]);
    store.remove_label(label).unwrap();
    assert!(!store.contains_label(label));
}

#[test]
fn answers_are_no_more_than_asked_for() {
    let mut store = VexusIndex::new(1, 10).unwrap();
    for id in 0..6u32 {
        store.add(id, &bytes(&[id as f32])).unwrap();
    }
    assert_eq!(store.search(&bytes(&[0.0]), 0).unwrap().len(), 0);
    assert_eq!(store.search(&bytes(&[0.0]), 4).unwrap().len(), 4);
    assert_eq!(store.search(&bytes(&[0.0]), 100).unwrap().len(), 6);
}

#[test]
fn answers_come_nearest_first_with_their_distances() {
    let mut store = VexusIndex::new(1, 10).unwrap();
    store.add(1, &bytes(&[1.0])).unwrap();
    store.add(2, &bytes(&[2.0])).unwrap();
    store.add(4, &bytes(&[4.0])).unwrap();
    let hits = store.search(&bytes(&[0.0]), 3).unwrap();
    let found: Vec<(u32, f32)> = hits.iter().map(|h| (h.id, f32::from_bits(h.distance))).collect();
    assert_eq!(found, vec![(1, 1.0), (2, 4.0), (4, 16.0)]);
}

#[test]
fn pairing_and_narrowing_answers() {
    let hits = Neighbor::pair(&vec![1, (1 << 32) + 2], &vec![10, 20]);
    assert_eq!(
        hits,
        vec![Neighbor { label: 1, distance: 10 }, Neighbor { label: (1 << 32) + 2, distance: 20 }]
    );
    assert_eq!(
        SearchResult::narrow(&hits),
        vec![SearchResult { id: 1, distance: 10 }, SearchResult { id: 2, distance: 20 }]
    );
}

#[test]
fn a_figure_beyond_32_bits_shows_as_the_largest() {
    let stats = VexusStats::of(5, 3, (1usize << 32) + 9, usize::MAX);
    assert_eq!(
        stats,
        VexusStats {
            total_vectors: 5,
            dimensions: 3,
            capacity: u32::MAX,
            memory_usage: u32::MAX
        }
    );
    assert_eq!(figure_of(0), 0);
    assert_eq!(figure_of(u32::MAX as usize), u32::MAX);
    assert_eq!(figure_of(u32::MAX as usize + 1), u32::MAX);
}

#[test]
fn a_store_never_counts_more_than_it_has_room_for() {
    let mut store = VexusIndex::new(1, 0).unwrap();
    for id in 0..30u32 {
        let _ = store.add(id, &bytes(&[id as f32]));
        let _ = store.add_batch(&[id + 100, id], &bytes(&[1.0, 2.0]));
        if id % 3 == 0 {
            store.remove(id).unwrap();
        }
        let stats = store.stats();
        assert!(stats.total_vectors <= stats.capacity);
    }
}

#[test]
fn the_count_is_the_number_of_labels_however_often_they_come() {
    let mut store = VexusIndex::new(1, 4).unwrap();
    let ids = [5u32, 7, 5, 9, 7, 5, 11, 9];
    for (turn, id) in ids.iter().enumerate() {
        store.add(*id, &bytes(&[turn as f32])).unwrap();
    }
    assert_eq!(store.stats().total_vectors, 4);
    store.add_batch(&[5, 13, 13, 7], &bytes(&[1.0, 2.0, 3.0, 4.0])).unwrap();
    assert_eq!(store.stats().total_vectors, 5);
    store.remove(13).unwrap();
    store.remove(13).unwrap();
    assert_eq!(store.stats().total_vectors, 4);
}

#[test]
fn a_second_store_of_the_same_vectors() {
    let mut store = VexusIndex::new(2, 4).unwrap();
    store.add(1, &bytes(&[1.0, 0.0])).unwrap();
    store.add(2, &bytes(&[0.0, 1.0])).unwrap();
    store.add(3, &bytes(&[2.0, 2.0])).unwrap();
    store.remove(2).unwrap();
    let mut copy = store.duplicate(20).unwrap();
    assert_eq!(copy.stats().total_vectors, 2);
    assert_eq!(copy.stats().dimensions, 2);
    assert!(copy.stats().capacity >= 20);
    assert_eq!(copy.get(1).unwrap(), bytes(&[1.0, 0.0]));
    assert_eq!(copy.get(3).unwrap(), bytes(&[2.0, 2.0]));
    assert!(!copy.contains(2));
    copy.add(2, &bytes(&[9.0, 9.0])).unwrap();
    assert_eq!(copy.stats().total_vectors, 3);
    assert_eq!(store.stats().total_vectors, 2);
    assert!(!store.contains(2));
}

#[test]
fn engine_error_names_the_step() {
    let mut store = VexusIndex::new(2, 0).unwrap();
    match store.add_batch(&[1, 2], &bytes(&[1.0, 1.0, 2.0, 2.0])) {
        Ok(_) => {
            assert_eq!(store.stats().total_vectors, 2);
        }
        Err(error) => panic!("a batch sizes the store for itself: {:?}", error),
    }
    let mut full = VexusIndex::new(2, 0).unwrap();
    let refused = full.insert_or_update(9, &bytes(&[1.0, 1.0]));
    match refused {
        Err(VexusError::Engine { step, reason }) => {
            assert_eq!(step, Step::Add);
            assert!(!reason.is_empty());
        }
        other => panic!("unexpected {:?}", other),
    }
}

#[test]
fn the_engines_own_label_takes_no_vector() {
    let mut store = VexusIndex::new(2, 10).unwrap();
    store.add(1, &bytes(&[1.0, 0.0])).unwrap();
    let refused = store.insert_or_update(u64::MAX, &bytes(&[0.0, 1.0]));
    assert_eq!(refused, Err(VexusError::ReservedLabel));
    assert_eq!(store.stats().total_vectors, 1);
    assert!(!store.contains_label(u64::MAX));
    assert_eq!(
        store.insert_or_update(u64::MAX, &bytes(&[0.0])),
        Err(VexusError::DimensionMismatch { expected: 2, byte_len: 4 })
    );
    assert_eq!(store.insert_or_update(u64::MAX - 1, &bytes(&[0.0, 1.0])), Ok(Room::Enough));
    assert_eq!(store.remove_label(u64::MAX), Ok(()));
    assert_eq!(store.vector_of(u64::MAX).unwrap(), vec![0u8; 8]);
    assert_eq!(store.stats().total_vectors, 2);
}

#[test]
fn a_store_of_no_dimensions_holds_empty_vectors() {
    let mut store = VexusIndex::new(0, 4).unwrap();
    assert_eq!(store.stats().dimensions, 0);
    assert_eq!(store.dimensions(), 0);
    assert_eq!(store.add(1, &[]), Ok(Room::Enough));
    assert_eq!(store.add(2, &[0, 0, 0, 0]), Err(VexusError::DimensionMismatch {
        expected: 0,
        byte_len: 4
    }));
    assert_eq!(store.stats().total_vectors, 1);
    assert_eq!(store.get(1).unwrap(), Vec::<u8>::new());
    assert_eq!(store.get_batch(&[1, 2, 3]).unwrap(), Vec::<u8>::new());
    assert_eq!(store.blank(), Vec::<u8>::new());
}

#[test]
fn labels_and_distances_pair_up_to_the_shorter() {
    assert_eq!(Neighbor::pair(&vec![1, 2, 3], &vec![7]), vec![Neighbor { label: 1, distance: 7 }]);
    assert_eq!(Neighbor::pair(&vec![], &vec![7, 8]), vec![]);
}

#[test]
fn every_pattern_of_bits_is_kept_as_it_came() {
    let mut store = VexusIndex::new(6, 10).unwrap();
    let patterns: [u32; 6] =
        [0x7F80_0001, 0x7FC1_2345, 0xFFFF_FFFF, 0x8000_0000, 0x0000_0001, 0x7F80_0000];
    let vector: Vec<u8> = patterns.iter().flat_map(|p| p.to_ne_bytes()).collect();
    store.add(1, &vector).unwrap();
    assert_eq!(store.get(1).unwrap(), vector);
    let image = store.image().unwrap();
    let loaded = VexusIndex::load(&image, 6, 10).unwrap();
    assert_eq!(loaded.get(1).unwrap(), vector);
}

#[test]
fn an_insertion_says_what_became_of_the_room() {
    let mut store = VexusIndex::new(1, 4).unwrap();
    let mut rooms = Vec::new();
    for id in 0..6u32 {
        rooms.push(store.add(id, &bytes(&[id as f32])).unwrap());
    }
    assert_eq!(
        rooms,
        vec![Room::Enough, Room::Enough, Room::Enough, Room::Grown, Room::Enough, Room::Grown]
    );
    assert_eq!(store.stats().capacity, 9);
    assert_eq!(store.insert_or_update(3, &bytes(&[30.0])), Ok(Room::Enough));
    assert_eq!(store.add_batch(&[10], &bytes(&[1.0])), Ok(Room::Enough));
    assert_eq!(store.add_batch(&[11, 12], &bytes(&[1.0, 2.0])), Ok(Room::Grown));
    assert_eq!(store.stats().capacity, 14);
    assert_eq!(VexusIndex::room_made(false, false), Room::Enough);
    assert_eq!(VexusIndex::room_made(false, true), Room::Enough);
    assert_eq!(VexusIndex::room_made(true, true), Room::Grown);
    assert_eq!(VexusIndex::room_made(true, false), Room::Refused);
    assert!(!store.tight_for(4));
    assert!(store.tight_for(5));
}

#[test]
fn the_same_question_gets_the_same_answer() {
    let mut store = VexusIndex::new(2, 16).unwrap();
    for id in 0..10u32 {
        store.add(id, &bytes(&[id as f32, (id * id) as f32])).unwrap();
    }
    let query = bytes(&[3.2, 9.5]);
    let first = store.nearest(&query, 4).unwrap();
    let again = store.nearest(&query, 4).unwrap();
    assert_eq!(first, again);
    assert_eq!(first.len(), 4);
    assert_eq!(first[0].label, 3);
    let short = store.search(&query, 4).unwrap();
    assert_eq!(short, SearchResult::narrow(&first));
    assert_ne!(store.nearest(&bytes(&[8.0, 64.0]), 4).unwrap(), first);
    assert_eq!(store.nearest(&query, 2).unwrap().len(), 2);
}

#[test]
fn a_vector_is_always_handed_out() {
    let mut store = VexusIndex::new(2, 4).unwrap();
    assert!(store.get(1).is_ok());
    store.add(1, &bytes(&[1.0, 2.0])).unwrap();
    store.remove(1).unwrap();
    assert_eq!(store.get(1), Ok(vec![0u8; 8]));
    assert_eq!(store.get_batch(&[1, 1]), Ok(vec![0u8; 16]));
    assert_eq!(store.vector_of(u64::MAX), Ok(vec![0u8; 8]));
}

#[test]
fn a_store_of_ordinary_size_always_has_an_image() {
    let empty = VexusIndex::new(3, 0).unwrap();
    assert!(empty.can_be_pictured());
    assert!(empty.image().is_ok());
    let mut store = VexusIndex::new(3, 2).unwrap();
    for id in 0..20u32 {
        store.add(id, &bytes(&[id as f32, 0.0, 1.0])).unwrap();
        if id % 4 == 0 {
            store.remove(id).unwrap();
        }
        assert!(store.can_be_pictured());
        assert!(store.image().is_ok());
        assert!(store.save("somewhere").is_ok());
    }
}
