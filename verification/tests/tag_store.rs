use vexus_lite::persist::{one_after_another, replace_file};
use vexus_lite::tag_store::name_hits;
use vexus_lite::{FileStep, Neighbor, TagHit, TagIndex, TagMap, VexusError};

fn bytes(scalars: &[f32]) -> Vec<u8> {
    scalars.iter().flat_map(|x| x.to_ne_bytes()).collect()
}

fn tags_of(hits: &[TagHit]) -> Vec<&str> {
    hits.iter().map(|h| h.tag.as_str()).collect()
}

#[test]
fn a_fresh_tagged_store_is_empty() {
    let index = TagIndex::new(3, 10).unwrap();
    let (stats, tags) = index.stats();
    assert_eq!(stats.dimensions, 3);
    assert!(stats.capacity >= 10);
    assert_eq!(stats.total_vectors, 0);
    assert_eq!(tags, 0);
}

#[test]
fn vectors_are_found_by_their_tags() {
    let mut index = TagIndex::new(3, 10).unwrap();
    assert_eq!(index.upsert("east", &bytes(&[1.0, 0.0, 0.0])), Ok(0));
    assert_eq!(index.upsert("north", &bytes(&[0.0, 1.0, 0.0])), Ok(1));
    let hits = index.search(&bytes(&[1.0, 0.0, 0.0]), 1).unwrap();
    assert_eq!(hits, vec![TagHit { tag: "east".to_string(), distance: 0f32.to_bits() }]);
    let hits = index.search(&bytes(&[0.0, 0.9, 0.0]), 2).unwrap();
    assert_eq!(tags_of(&hits), vec!["north", "east"]);
}

#[test]
fn a_tag_keeps_its_label_when_its_vector_changes() {
    let mut index = TagIndex::new(2, 10).unwrap();
    assert_eq!(index.upsert("a", &bytes(&[1.0, 0.0])), Ok(0));
    assert_eq!(index.upsert("b", &bytes(&[0.0, 1.0])), Ok(1));
    assert_eq!(index.upsert("a", &bytes(&[5.0, 5.0])), Ok(0));
    let (stats, tags) = index.stats();
    assert_eq!(stats.total_vectors, 2);
    assert_eq!(tags, 2);
    assert_eq!(index.get(&["a".to_string()]).unwrap(), bytes(&[5.0, 5.0]));
}

#[test]
fn a_wrong_vector_costs_no_label() {
    let mut index = TagIndex::new(2, 10).unwrap();
    assert_eq!(
        index.upsert("a", &bytes(&[1.0])),
        Err(VexusError::DimensionMismatch { expected: 2, byte_len: 4 })
    );
    assert_eq!(index.stats().1, 0);
    assert_eq!(index.upsert("b", &bytes(&[1.0, 1.0])), Ok(0));
}

#[test]
fn removing_a_tag_takes_its_vector_along() {
    let mut index = TagIndex::new(2, 10).unwrap();
    index.upsert("a", &bytes(&[1.0, 0.0])).unwrap();
    index.upsert("b", &bytes(&[0.0, 1.0])).unwrap();
    assert_eq!(index.remove("a"), Ok(Some(0)));
    assert_eq!(index.remove("a"), Ok(None));
    assert_eq!(index.remove("never"), Ok(None));
    let (stats, tags) = index.stats();
    assert_eq!(stats.total_vectors, 1);
    assert_eq!(tags, 1);
    let hits = index.search(&bytes(&[1.0, 0.0]), 5).unwrap();
    assert_eq!(tags_of(&hits), vec!["b"]);
    assert_eq!(index.upsert("a", &bytes(&[1.0, 0.0])), Ok(2));
}

#[test]
fn vectors_come_back_at_the_positions_of_their_tags() {
    let mut index = TagIndex::new(2, 10).unwrap();
    index.upsert("a", &bytes(&[1.0, 2.0])).unwrap();
    index.upsert("b", &bytes(&[3.0, 4.0])).unwrap();
    let asked: Vec<String> = ["b", "none", "a"].iter().map(|t| t.to_string()).collect();
    assert_eq!(index.get(&asked).unwrap(), bytes(&[3.0, 4.0, 0.0, 0.0, 1.0, 2.0]));
    assert_eq!(index.get(&[]).unwrap(), Vec::<u8>::new());
}

#[test]
fn answers_without_a_tag_are_left_out() {
    let mut map = TagMap::new();
    map.get_or_create("zero");
    map.get_or_create("one");
    map.get_or_create("two");
    map.remove("one");
    let answers = vec![
        Neighbor { label: 2, distance: 5 },
        Neighbor { label: 1, distance: 6 },
        Neighbor { label: 9, distance: 7 },
        Neighbor { label: 0, distance: 8 },
    ];
    assert_eq!(
        name_hits(&map, &answers),
        vec![
            TagHit { tag: "two".to_string(), distance: 5 },
            TagHit { tag: "zero".to_string(), distance: 8 },
        ]
    );
    assert_eq!(name_hits(&map, &vec![]), vec![]);
}

#[test]
fn a_query_of_the_wrong_length_finds_nothing() {
    let mut index = TagIndex::new(2, 10).unwrap();
    index.upsert("a", &bytes(&[1.0, 2.0])).unwrap();
    assert_eq!(
        index.search(&bytes(&[1.0, 2.0, 3.0]), 1),
        Err(VexusError::DimensionMismatch { expected: 2, byte_len: 12 })
    );
}

fn written(steps: &[FileStep], at: usize) -> Vec<u8> {
    match &steps[at] {
        FileStep::Write { bytes, .. } => bytes.clone(),
        other => panic!("unexpected {:?}", other),
    }
}

#[test]
fn the_mapping_is_put_in_place_before_the_vectors() {
    let mut index = TagIndex::new(2, 10).unwrap();
    index.upsert("a", &bytes(&[1.0, 2.0])).unwrap();
    let steps = index.save("tags.map", "vectors.idx").unwrap();
    assert_eq!(steps.len(), 4);
    let expected = one_after_another(
        replace_file("tags.map", written(&steps, 0)),
        replace_file("vectors.idx", written(&steps, 2)),
    );
    assert_eq!(steps, expected);
    let mut map = TagMap::new();
    map.get_or_create("a");
    assert_eq!(written(&steps, 0), map.encode());
}

#[test]
fn a_tagged_store_is_read_back_as_it_was_saved() {
    let mut index = TagIndex::new(2, 10).unwrap();
    index.upsert("a", &bytes(&[1.0, 0.0])).unwrap();
    index.upsert("b", &bytes(&[0.0, 1.0])).unwrap();
    index.upsert("c", &bytes(&[4.0, 4.0])).unwrap();
    index.remove("b").unwrap();
    let steps = index.save("tags.map", "vectors.idx").unwrap();
    let mut loaded =
        TagIndex::load(&written(&steps, 0), &written(&steps, 2), 2, 20).unwrap();
    let (stats, tags) = loaded.stats();
    assert_eq!(stats.total_vectors, 2);
    assert!(stats.capacity >= 20);
    assert_eq!(tags, 2);
    for query in [[1.0f32, 0.0], [0.0, 1.0], [4.0, 4.0]] {
        assert_eq!(
            loaded.search(&bytes(&query), 3).unwrap(),
            index.search(&bytes(&query), 3).unwrap()
        );
    }
    let hits = loaded.search(&bytes(&[4.0, 4.0]), 1).unwrap();
    assert_eq!(hits, vec![TagHit { tag: "c".to_string(), distance: 0f32.to_bits() }]);
    assert_eq!(loaded.upsert("d", &bytes(&[7.0, 7.0])), Ok(3));
}

#[test]
fn a_broken_mapping_is_turned_away_first() {
    let index = TagIndex::new(2, 10).unwrap();
    let steps = index.save("tags.map", "vectors.idx").unwrap();
    let image = written(&steps, 2);
    assert!(matches!(
        TagIndex::load(&[1, 2, 3], &image, 2, 10),
        Err(VexusError::MappingCorrupt)
    ));
    assert!(matches!(
        TagIndex::load(&written(&steps, 0), &image, 3, 10),
        Err(VexusError::ImageMismatch)
    ));
}

#[test]
fn no_tag_is_taken_when_the_labels_are_used_up() {
    let mut mapping = 1u64.to_le_bytes().to_vec();
    mapping.extend((u64::MAX - 1).to_le_bytes());
    mapping.extend(3u64.to_le_bytes());
    mapping.extend(b"end");
    let empty = TagIndex::new(2, 10).unwrap();
    let image = written(&empty.save("m", "i").unwrap(), 2);
    let mut index = TagIndex::load(&mapping, &image, 2, 10).unwrap();
    assert_eq!(index.upsert("more", &bytes(&[1.0, 1.0])), Err(VexusError::OutOfLabels));
    assert_eq!(index.stats().1, 1);
    assert_eq!(index.upsert("end", &bytes(&[1.0, 1.0])), Ok(u64::MAX - 1));
    let hits = index.search(&bytes(&[1.0, 1.0]), 1).unwrap();
    assert_eq!(tags_of(&hits), vec!["end"]);
}

#[test]
fn a_second_tagged_store_of_the_same_tags_and_vectors() {
    let mut index = TagIndex::new(2, 10).unwrap();
    index.upsert("a", &bytes(&[1.0, 0.0])).unwrap();
    index.upsert("b", &bytes(&[0.0, 1.0])).unwrap();
    index.remove("a").unwrap();
    let mut copy = index.duplicate(5).unwrap();
    assert_eq!(copy.stats().0.total_vectors, 1);
    assert_eq!(copy.stats().1, 1);
    assert_eq!(copy.get(&["b".to_string()]).unwrap(), bytes(&[0.0, 1.0]));
    assert_eq!(copy.upsert("c", &bytes(&[3.0, 3.0])), Ok(2));
    assert_eq!(index.stats().1, 1);
}
