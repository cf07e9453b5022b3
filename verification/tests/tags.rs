use vexus_lite::TagMap;

#[test]
fn asking_twice_gives_the_same_label() {
    let mut map = TagMap::new();
    let first = map.get_or_create("alpha");
    let again = map.get_or_create("alpha");
    assert_eq!(first, 0);
    assert_eq!(again, first);
    assert_eq!(map.len(), 1);
}

#[test]
fn each_new_tag_adds_one_label() {
    let mut map = TagMap::new();
    let tags = ["a", "b", "a", "c", "b", "", "c", "a"];
    let labels: Vec<u64> = tags.iter().map(|t| map.get_or_create(t)).collect();
    assert_eq!(labels, vec![0, 1, 0, 2, 1, 3, 2, 0]);
    assert_eq!(map.len(), 4);
}

#[test]
fn the_two_directions_agree() {
    let mut map = TagMap::new();
    for tag in ["x", "y", "z"] {
        map.get_or_create(tag);
    }
    for (tag, label) in [("x", 0u64), ("y", 1), ("z", 2)] {
        assert_eq!(map.lookup(tag), Some(label));
        assert_eq!(map.lookup_tag(label), Some(tag.to_string()));
    }
    assert_eq!(map.lookup("w"), None);
    assert_eq!(map.lookup_tag(3), None);
}

#[test]
fn a_removed_label_is_not_handed_out_again() {
    let mut map = TagMap::new();
    map.get_or_create("a");
    map.get_or_create("b");
    map.get_or_create("c");
    assert_eq!(map.remove("b"), Some(1));
    assert_eq!(map.lookup("b"), None);
    assert_eq!(map.lookup_tag(1), None);
    assert_eq!(map.len(), 2);
    assert_eq!(map.remove("b"), None);
    assert_eq!(map.len(), 2);
    assert_eq!(map.get_or_create("d"), 3);
    assert_eq!(map.get_or_create("b"), 4);
    assert_eq!(map.lookup("a"), Some(0));
    assert_eq!(map.lookup("c"), Some(2));
}

#[test]
fn removing_an_unknown_tag_changes_nothing() {
    let mut map = TagMap::new();
    map.get_or_create("a");
    assert_eq!(map.remove("zzz"), None);
    assert_eq!(map.len(), 1);
    assert_eq!(map.lookup("a"), Some(0));
}

#[test]
fn the_bytes_of_a_mapping() {
    let mut map = TagMap::new();
    assert_eq!(map.encode(), vec![0u8; 8]);
    map.get_or_create("ab");
    map.get_or_create("é");
    let mut expected = vec![2u8, 0, 0, 0, 0, 0, 0, 0];
    expected.extend([0u8, 0, 0, 0, 0, 0, 0, 0]);
    expected.extend([2u8, 0, 0, 0, 0, 0, 0, 0]);
    expected.extend(b"ab");
    expected.extend([1u8, 0, 0, 0, 0, 0, 0, 0]);
    expected.extend([2u8, 0, 0, 0, 0, 0, 0, 0]);
    expected.extend("é".as_bytes());
    assert_eq!(map.encode(), expected);
}

#[test]
fn a_mapping_is_read_back_as_it_was_written() {
    let mut map = TagMap::new();
    for tag in ["one", "two", "", "日本語", "three"] {
        map.get_or_create(tag);
    }
    map.remove("two");
    let bytes = map.encode();
    let mut read = TagMap::decode(&bytes).unwrap();
    assert_eq!(read.len(), 4);
    for tag in ["one", "", "日本語", "three", "two", "unknown"] {
        assert_eq!(read.lookup(tag), map.lookup(tag));
    }
    for label in 0..6u64 {
        assert_eq!(read.lookup_tag(label), map.lookup_tag(label));
    }
    assert_eq!(read.encode(), bytes);
    assert_eq!(read.get_or_create("new"), 5);
}

#[test]
fn the_next_label_follows_the_highest_that_was_written() {
    let mut map = TagMap::new();
    map.get_or_create("a");
    map.get_or_create("b");
    map.get_or_create("c");
    map.remove("c");
    let mut read = TagMap::decode(&map.encode()).unwrap();
    assert_eq!(read.get_or_create("d"), 2);
    assert_eq!(map.get_or_create("d"), 3);
    let mut empty = TagMap::decode(&TagMap::new().encode()).unwrap();
    assert_eq!(empty.len(), 0);
    assert_eq!(empty.get_or_create("first"), 0);
}

fn pair(label: u64, tag: &[u8]) -> Vec<u8> {
    let mut bytes = label.to_le_bytes().to_vec();
    bytes.extend((tag.len() as u64).to_le_bytes());
    bytes.extend(tag);
    bytes
}

fn mapping(pairs: &[Vec<u8>]) -> Vec<u8> {
    let mut bytes = (pairs.len() as u64).to_le_bytes().to_vec();
    for p in pairs {
        bytes.extend(p);
    }
    bytes
}

#[test]
fn labels_are_read_in_any_order() {
    let bytes = mapping(&[pair(7, b"x"), pair(3, b"y")]);
    let mut map = TagMap::decode(&bytes).unwrap();
    assert_eq!(map.lookup("x"), Some(7));
    assert_eq!(map.lookup("y"), Some(3));
    assert_eq!(map.get_or_create("z"), 8);
}

#[test]
fn bytes_that_are_no_mapping_are_turned_away() {
    assert!(TagMap::decode(&[]).is_none());
    assert!(TagMap::decode(&[0u8; 7]).is_none());
    assert!(TagMap::decode(&[0u8; 9]).is_none());
    assert!(TagMap::decode(&mapping(&[pair(0, b"a")])[..20]).is_none());
    assert!(TagMap::decode(&1u64.to_le_bytes()).is_none());
    assert!(TagMap::decode(&u64::MAX.to_le_bytes()).is_none());
    let mut long = mapping(&[pair(0, b"a")]);
    long.push(0);
    assert!(TagMap::decode(&long).is_none());
    let mut short_tag = 1u64.to_le_bytes().to_vec();
    short_tag.extend(0u64.to_le_bytes());
    short_tag.extend(5u64.to_le_bytes());
    short_tag.extend(b"abc");
    assert!(TagMap::decode(&short_tag).is_none());
    let mut huge_tag = 1u64.to_le_bytes().to_vec();
    huge_tag.extend(0u64.to_le_bytes());
    huge_tag.extend(u64::MAX.to_le_bytes());
    huge_tag.extend(b"abc");
    assert!(TagMap::decode(&huge_tag).is_none());
}

#[test]
fn a_tag_that_is_no_text_is_turned_away() {
    assert!(TagMap::decode(&mapping(&[pair(0, &[0xFF, 0xFE])])).is_none());
    assert!(TagMap::decode(&mapping(&[pair(0, &[0xC3])])).is_none());
    assert!(TagMap::decode(&mapping(&[pair(0, &[0xC3, 0xA9])])).is_some());
}

#[test]
fn a_tag_or_label_written_twice_is_turned_away() {
    assert!(TagMap::decode(&mapping(&[pair(0, b"a"), pair(1, b"a")])).is_none());
    assert!(TagMap::decode(&mapping(&[pair(0, b"a"), pair(0, b"b")])).is_none());
    assert!(TagMap::decode(&mapping(&[pair(0, b"a"), pair(1, b"b")])).is_some());
}

#[test]
fn the_last_label_is_never_written() {
    assert!(TagMap::decode(&mapping(&[pair(u64::MAX, b"a")])).is_none());
    let map = TagMap::decode(&mapping(&[pair(u64::MAX - 1, b"a")])).unwrap();
    assert_eq!(map.lookup("a"), Some(u64::MAX - 1));
    assert!(!map.has_label_left());
    assert!(TagMap::new().has_label_left());
}
