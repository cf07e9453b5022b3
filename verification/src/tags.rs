//! Tags and the labels that stand for them.
//!
//! A tag is a name that means something to people; a label is the number
//! under which the engine keeps a vector. The mapping gives every tag one
//! label and every label one tag. Labels are handed out in turn from zero,
//! and a label whose tag is removed is not handed out again while the
//! mapping lives.
use crate::tag_codec::{
    entries_bytes, entry_bytes, lemma_entries_bytes_push, lemma_entry_read,
    lemma_next_after_above, lemma_sound_is_restorable, map_bytes, next_after, spells,
    spells_nothing, writable,
};
use vstd::bytes::{
    lemma_auto_spec_u64_to_from_le_bytes, spec_u64_from_le_bytes, spec_u64_to_le_bytes,
    u64_from_le_bytes, u64_to_le_bytes,
};
use vstd::prelude::*;
use vstd::slice::slice_subrange;
use vstd::utf8::{
    decode_utf8, decode_utf8_encode_utf8, encode_utf8, encode_utf8_decode_utf8,
    encode_utf8_valid_utf8, valid_utf8,
};

verus! {

/// `String::from_utf8`: the text that the bytes spell in UTF-8, where they
/// spell one.
#[verifier::external_body]
fn text_of(bytes: &[u8]) -> (text: Option<String>)
    ensures
        text is Some <==> valid_utf8(bytes@),
        text is Some ==> text->Some_0@ == decode_utf8(bytes@),
{
    String::from_utf8(bytes.to_vec()).ok()
}

/// A mapping as plain values: its pairs of tag and label in the order in
/// which the tags came, and the label that the next new tag gets.
pub struct TagMapView {
    pub entries: Seq<(Seq<char>, u64)>,
    pub next: nat,
}

impl TagMapView {
    /// Whether some pair holds `tag`.
    pub open spec fn knows(self, tag: Seq<char>) -> bool {
        exists|i: int| 0 <= i < self.entries.len() && (#[trigger] self.entries[i]).0 == tag
    }

    /// The place of a pair that holds `tag`.
    pub open spec fn position(self, tag: Seq<char>) -> int {
        choose|i: int| 0 <= i < self.entries.len() && (#[trigger] self.entries[i]).0 == tag
    }

    /// Whether some pair holds `label`.
    pub open spec fn uses(self, label: u64) -> bool {
        exists|i: int| 0 <= i < self.entries.len() && (#[trigger] self.entries[i]).1 == label
    }

    /// The place of a pair that holds `label`.
    pub open spec fn position_of_label(self, label: u64) -> int {
        choose|i: int| 0 <= i < self.entries.len() && (#[trigger] self.entries[i]).1 == label
    }

    /// The label of `tag`, if it has one.
    pub open spec fn label_of(self, tag: Seq<char>) -> Option<u64> {
        if self.knows(tag) {
            Some(self.entries[self.position(tag)].1)
        } else {
            None
        }
    }

    /// The tag of `label`, if it has one.
    pub open spec fn tag_of(self, label: u64) -> Option<Seq<char>> {
        if self.uses(label) {
            Some(self.entries[self.position_of_label(label)].0)
        } else {
            None
        }
    }

    /// Whether the mapping is sound: no tag and no label stands in two
    /// pairs, and every label is one that was handed out.
    pub open spec fn wf(self) -> bool {
        &&& forall|i: int, j: int|
            0 <= i < j < self.entries.len() ==> (#[trigger] self.entries[i]).0 != (
            #[trigger] self.entries[j]).0
        &&& forall|i: int, j: int|
            0 <= i < j < self.entries.len() ==> (#[trigger] self.entries[i]).1 != (
            #[trigger] self.entries[j]).1
        &&& forall|i: int|
            0 <= i < self.entries.len() ==> (#[trigger] self.entries[i]).1 < self.next
        &&& self.next <= u64::MAX
    }

    /// The mapping without any pair.
    pub open spec fn empty() -> TagMapView {
        TagMapView { entries: Seq::empty(), next: 0 }
    }

    /// The mapping after `tag` was asked for, and the label it got: the one
    /// it had, or the next in turn.
    pub open spec fn with_tag(self, tag: Seq<char>) -> (TagMapView, u64) {
        match self.label_of(tag) {
            Some(label) => (self, label),
            None => (
                TagMapView {
                    entries: self.entries.push((tag, self.next as u64)),
                    next: self.next + 1,
                },
                self.next as u64,
            ),
        }
    }

    /// The mapping after `tag` was removed, and the label that it gave up,
    /// if it had one.
    pub open spec fn without_tag(self, tag: Seq<char>) -> (TagMapView, Option<u64>) {
        if self.knows(tag) {
            (
                TagMapView { entries: self.entries.remove(self.position(tag)), next: self.next },
                Some(self.entries[self.position(tag)].1),
            )
        } else {
            (self, None)
        }
    }
}

impl TagMapView {
    /// In a sound mapping, the pair at place `i` is the one that its tag and
    /// its label lead to.
    pub proof fn lemma_place(self, i: int)
        requires
            self.wf(),
            0 <= i < self.entries.len(),
        ensures
            self.knows(self.entries[i].0),
            self.position(self.entries[i].0) == i,
            self.label_of(self.entries[i].0) == Some(self.entries[i].1),
            self.uses(self.entries[i].1),
            self.position_of_label(self.entries[i].1) == i,
            self.tag_of(self.entries[i].1) == Some(self.entries[i].0),
    {
        let tag = self.entries[i].0;
        let label = self.entries[i].1;
        assert(self.knows(tag));
        assert(self.uses(label));
        let p = self.position(tag);
        let q = self.position_of_label(label);
        assert(self.entries[p].0 == tag);
        assert(self.entries[q].1 == label);
    }

    /// The two directions of a sound mapping agree: a tag has a label
    /// exactly when that label has the tag.
    pub proof fn lemma_lockstep(self, tag: Seq<char>, label: u64)
        requires
            self.wf(),
        ensures
            self.label_of(tag) == Some(label) <==> self.tag_of(label) == Some(tag),
    {
        if self.knows(tag) {
            self.lemma_place(self.position(tag));
        }
        if self.uses(label) {
            self.lemma_place(self.position_of_label(label));
        }
    }

    /// Asking for a tag keeps the mapping sound, gives the tag the label
    /// that is returned, and adds one pair exactly when the tag is new.
    pub proof fn lemma_with_tag(self, tag: Seq<char>)
        requires
            self.wf(),
            self.knows(tag) || self.next < u64::MAX,
        ensures
            self.with_tag(tag).0.wf(),
            self.with_tag(tag).0.label_of(tag) == Some(self.with_tag(tag).1),
            self.with_tag(tag).0.entries.len() == self.entries.len() + if self.knows(tag) {
                0int
            } else {
                1int
            },
            !self.knows(tag) ==> self.with_tag(tag).1 == self.next && !self.uses(
                self.with_tag(tag).1,
            ),
    {
        if self.knows(tag) {
            self.lemma_place(self.position(tag));
        } else {
            let after = self.with_tag(tag).0;
            let last = self.entries.len() as int;
            assert(after.entries[last] == (tag, self.next as u64));
            assert forall|i: int, j: int| 0 <= i < j < after.entries.len() implies (
            #[trigger] after.entries[i]).0 != (#[trigger] after.entries[j]).0 by {
                if j == last {
                    assert(self.entries[i].0 != tag);
                } else {
                    assert(self.entries[i].0 != self.entries[j].0);
                }
            }
            assert forall|i: int, j: int| 0 <= i < j < after.entries.len() implies (
            #[trigger] after.entries[i]).1 != (#[trigger] after.entries[j]).1 by {
                if j == last {
                    assert(self.entries[i].1 < self.next);
                } else {
                    assert(self.entries[i].1 != self.entries[j].1);
                }
            }
            assert forall|i: int| 0 <= i < after.entries.len() implies (
            #[trigger] after.entries[i]).1 < after.next by {
                if i < last {
                    assert(self.entries[i].1 < self.next);
                }
            }
            after.lemma_place(last);
            if self.uses(self.next as u64) {
                let q = self.position_of_label(self.next as u64);
                assert(self.entries[q].1 < self.next);
            }
        }
    }

    /// Asking for a tag leaves every other tag with the label it had, or
    /// without one.
    pub proof fn lemma_with_tag_keeps(self, tag: Seq<char>, other: Seq<char>)
        requires
            self.wf(),
            self.knows(tag) || self.next < u64::MAX,
            other != tag,
        ensures
            self.with_tag(tag).0.label_of(other) == self.label_of(other),
    {
        if !self.knows(tag) {
            self.lemma_with_tag(tag);
            let after = self.with_tag(tag).0;
            if self.knows(other) {
                let p = self.position(other);
                self.lemma_place(p);
                assert(after.entries[p] == self.entries[p]);
                after.lemma_place(p);
            } else if after.knows(other) {
                let p = after.position(other);
                assert(after.entries[p].0 == other);
                assert(self.entries[p].0 == other);
            }
        }
    }

    /// Asking twice for a tag is asking once: the second answer is the
    /// first, and the mapping is as the first left it.
    pub proof fn lemma_with_tag_twice(self, tag: Seq<char>)
        requires
            self.wf(),
            self.knows(tag) || self.next < u64::MAX,
        ensures
            self.with_tag(tag).0.with_tag(tag) == self.with_tag(tag),
    {
        self.lemma_with_tag(tag);
    }

    /// Removing a tag keeps the mapping sound, leaves the tag without a
    /// label, and takes away one pair exactly when the tag was known. The
    /// label that the next new tag gets stays what it was.
    pub proof fn lemma_without_tag(self, tag: Seq<char>)
        requires
            self.wf(),
        ensures
            self.without_tag(tag).0.wf(),
            !self.without_tag(tag).0.knows(tag),
            self.without_tag(tag).1 == self.label_of(tag),
            self.without_tag(tag).0.next == self.next,
            self.without_tag(tag).0.entries.len() + if self.knows(tag) {
                1int
            } else {
                0int
            } == self.entries.len(),
            self.knows(tag) ==> !self.without_tag(tag).0.uses(self.label_of(tag)->Some_0),
    {
        if self.knows(tag) {
            let p = self.position(tag);
            self.lemma_place(p);
            let after = self.without_tag(tag).0;
            assert forall|i: int| 0 <= i < after.entries.len() implies #[trigger] after.entries[i]
                == self.entries[if i < p {
                i
            } else {
                i + 1
            }] by {}
            assert forall|i: int, j: int| 0 <= i < j < after.entries.len() implies (
            #[trigger] after.entries[i]).0 != (#[trigger] after.entries[j]).0 by {
                let a = if i < p {
                    i
                } else {
                    i + 1
                };
                let b = if j < p {
                    j
                } else {
                    j + 1
                };
                assert(self.entries[a].0 != self.entries[b].0);
            }
            assert forall|i: int, j: int| 0 <= i < j < after.entries.len() implies (
            #[trigger] after.entries[i]).1 != (#[trigger] after.entries[j]).1 by {
                let a = if i < p {
                    i
                } else {
                    i + 1
                };
                let b = if j < p {
                    j
                } else {
                    j + 1
                };
                assert(self.entries[a].1 != self.entries[b].1);
            }
            assert forall|i: int| 0 <= i < after.entries.len() implies (
            #[trigger] after.entries[i]).1 < after.next by {
                let a = if i < p {
                    i
                } else {
                    i + 1
                };
                assert(self.entries[a].1 < self.next);
            }
            if after.knows(tag) {
                let q = after.position(tag);
                let a = if q < p {
                    q
                } else {
                    q + 1
                };
                assert(after.entries[q].0 == tag);
                assert(self.entries[a].0 == tag);
                if a < p {
                    assert(self.entries[a].0 != self.entries[p].0);
                } else {
                    assert(self.entries[p].0 != self.entries[a].0);
                }
            }
            let label = self.entries[p].1;
            if after.uses(label) {
                let q = after.position_of_label(label);
                let a = if q < p {
                    q
                } else {
                    q + 1
                };
                assert(after.entries[q].1 == label);
                assert(self.entries[a].1 == label);
                if a < p {
                    assert(self.entries[a].1 != self.entries[p].1);
                } else {
                    assert(self.entries[p].1 != self.entries[a].1);
                }
            }
        }
    }

    /// Removing a tag leaves every other tag with the label it had, or
    /// without one.
    pub proof fn lemma_without_tag_keeps(self, tag: Seq<char>, other: Seq<char>)
        requires
            self.wf(),
            other != tag,
        ensures
            self.without_tag(tag).0.label_of(other) == self.label_of(other),
    {
        if self.knows(tag) {
            self.lemma_without_tag(tag);
            let p = self.position(tag);
            self.lemma_place(p);
            let after = self.without_tag(tag).0;
            if self.knows(other) {
                let q = self.position(other);
                self.lemma_place(q);
                let b = if q < p {
                    q
                } else {
                    q - 1
                };
                assert(after.entries[b] == self.entries[q]);
                after.lemma_place(b);
            } else if after.knows(other) {
                let q = after.position(other);
                let a = if q < p {
                    q
                } else {
                    q + 1
                };
                assert(after.entries[q].0 == other);
                assert(self.entries[a].0 == other);
            }
        }
    }

    /// A label that a tag gave up is retired: whatever tag is asked for
    /// next, it does not get that label.
    pub proof fn lemma_retired(self, tag: Seq<char>, later: Seq<char>)
        requires
            self.wf(),
            self.knows(tag),
            self.next < u64::MAX,
        ensures
            self.without_tag(tag).0.with_tag(later).1 != self.label_of(tag)->Some_0,
    {
        self.lemma_without_tag(tag);
        let p = self.position(tag);
        self.lemma_place(p);
        let after = self.without_tag(tag).0;
        let label = self.entries[p].1;
        assert(label < self.next);
        if after.knows(later) {
            let q = after.position(later);
            after.lemma_place(q);
            assert(after.uses(after.entries[q].1));
        }
    }
}

/// The mapping between tags and labels.
pub struct TagMap {
    tags: Vec<String>,
    labels: Vec<u64>,
    next_label: u64,
}

impl View for TagMap {
    type V = TagMapView;

    closed spec fn view(&self) -> TagMapView {
        TagMapView {
            entries: Seq::new(self.tags@.len(), |i: int| (self.tags@[i]@, self.labels@[i])),
            next: self.next_label as nat,
        }
    }
}

impl TagMap {
    /// Whether the mapping is sound. Every mapping that this library hands
    /// out is, and every operation keeps it so.
    pub closed spec fn wf(&self) -> bool {
        &&& self.tags@.len() == self.labels@.len()
        &&& self@.wf()
    }

    /// What is sound of a mapping is sound of it as plain values.
    pub proof fn lemma_view_is_sound(&self)
        requires
            self.wf(),
        ensures
            self@.wf(),
    {
    }

    /// A mapping without any pair.
    pub fn new() -> (map: TagMap)
        ensures
            map.wf(),
            map@ == TagMapView::empty(),
    {
        let map = TagMap { tags: Vec::new(), labels: Vec::new(), next_label: 0 };
        assert(map@.entries =~= Seq::empty());
        map
    }

    /// The number of tags.
    pub fn len(&self) -> (count: usize)
        requires
            self.wf(),
        ensures
            count == self@.entries.len(),
    {
        self.tags.len()
    }

    /// Whether a label is left for a new tag.
    pub fn has_label_left(&self) -> (left: bool)
        ensures
            left == (self@.next < u64::MAX),
    {
        self.next_label < u64::MAX
    }

    /// The place of `tag` among the pairs.
    fn find(&self, tag: &String) -> (place: Option<usize>)
        requires
            self.wf(),
        ensures
            match place {
                Some(i) => self@.knows(tag@) && i == self@.position(tag@) && i
                    < self@.entries.len(),
                None => !self@.knows(tag@),
            },
    {
        let mut i: usize = 0;
        while i < self.tags.len()
            invariant
                self.wf(),
                i <= self.tags@.len(),
                forall|k: int| 0 <= k < i ==> (#[trigger] self@.entries[k]).0 != tag@,
            decreases self.tags@.len() - i,
        {
            if self.tags[i] == *tag {
                assert(self@.entries[i as int].0 == tag@);
                return Some(i);
            }
            i += 1;
        }
        None
    }

    /// The place of `label` among the pairs.
    fn find_label(&self, label: u64) -> (place: Option<usize>)
        requires
            self.wf(),
        ensures
            match place {
                Some(i) => self@.uses(label) && i == self@.position_of_label(label) && i
                    < self@.entries.len(),
                None => !self@.uses(label),
            },
    {
        let mut i: usize = 0;
        while i < self.labels.len()
            invariant
                self.wf(),
                i <= self.labels@.len(),
                forall|k: int| 0 <= k < i ==> (#[trigger] self@.entries[k]).1 != label,
            decreases self.labels@.len() - i,
        {
            if self.labels[i] == label {
                assert(self@.entries[i as int].1 == label);
                return Some(i);
            }
            i += 1;
        }
        None
    }

    /// The label of `tag`, if it has one.
    pub fn lookup(&self, tag: &str) -> (label: Option<u64>)
        requires
            self.wf(),
        ensures
            label == self@.label_of(tag@),
    {
        let owned = String::from_str(tag);
        match self.find(&owned) {
            Some(i) => Some(self.labels[i]),
            None => None,
        }
    }

    /// The tag of `label`, if it has one.
    pub fn lookup_tag(&self, label: u64) -> (tag: Option<String>)
        requires
            self.wf(),
        ensures
            match tag {
                Some(text) => self@.tag_of(label) == Some(text@),
                None => self@.tag_of(label) is None,
            },
    {
        match self.find_label(label) {
            Some(i) => Some(self.tags[i].clone()),
            None => None,
        }
    }

    /// The label of `tag`: the one it has, or else the next in turn, which
    /// is then its own. Whoever calls holds the mapping alone, so that
    /// looking the tag up, taking the next label and recording the pair are
    /// one step, and no tag ever gets two labels.
    ///
    /// A new tag needs a label to be left: the labels run out after as many
    /// tags as 64 bits can count.
    pub fn get_or_create(&mut self, tag: &str) -> (label: u64)
        requires
            old(self).wf(),
            old(self)@.knows(tag@) || old(self)@.next < u64::MAX,
        ensures
            final(self).wf(),
            (final(self)@, label) == old(self)@.with_tag(tag@),
            final(self)@.label_of(tag@) == Some(label),
            label < u64::MAX,
            final(self)@.entries.len() == old(self)@.entries.len() + if old(self)@.knows(tag@) {
                0int
            } else {
                1int
            },
            forall|other: Seq<char>|
                other != tag@ ==> #[trigger] final(self)@.label_of(other) == old(self)@.label_of(
                    other,
                ),
    {
        proof {
            let before = old(self)@;
            before.lemma_with_tag(tag@);
            if before.knows(tag@) {
                before.lemma_place(before.position(tag@));
            }
            assert forall|other: Seq<char>| other != tag@ implies #[trigger] before.with_tag(
                tag@,
            ).0.label_of(other) == before.label_of(other) by {
                before.lemma_with_tag_keeps(tag@, other);
            }
        }
        let owned = String::from_str(tag);
        match self.find(&owned) {
            Some(i) => self.labels[i],
            None => {
                let label = self.next_label;
                self.tags.push(owned);
                self.labels.push(label);
                self.next_label = label + 1;
                assert(self@.entries =~= old(self)@.entries.push((tag@, label)));
                label
            },
        }
    }

    /// Removes `tag` and returns the label that it gives up, if it had one.
    /// The label is not handed out again.
    pub fn remove(&mut self, tag: &str) -> (freed: Option<u64>)
        requires
            old(self).wf(),
        ensures
            final(self).wf(),
            (final(self)@, freed) == old(self)@.without_tag(tag@),
            freed == old(self)@.label_of(tag@),
            final(self)@.label_of(tag@) is None,
            final(self)@.next == old(self)@.next,
            forall|other: Seq<char>|
                other != tag@ ==> #[trigger] final(self)@.label_of(other) == old(self)@.label_of(
                    other,
                ),
    {
        proof {
            old(self)@.lemma_without_tag(tag@);
            assert forall|other: Seq<char>| other != tag@ implies #[trigger] old(
                self,
            )@.without_tag(tag@).0.label_of(other) == old(self)@.label_of(other) by {
                old(self)@.lemma_without_tag_keeps(tag@, other);
            }
        }
        let owned = String::from_str(tag);
        match self.find(&owned) {
            Some(i) => {
                let label = self.labels[i];
                self.tags.remove(i);
                self.labels.remove(i);
                assert(self@.entries =~= old(self)@.entries.remove(i as int));
                Some(label)
            },
            None => None,
        }
    }

    /// Writes the mapping as bytes. The label that the next new tag gets is
    /// not written.
    pub fn encode(&self) -> (bytes: Vec<u8>)
        requires
            self.wf(),
        ensures
            spells(bytes@, self@.entries),
    {
        let count = self.tags.len();
        let mut bytes = u64_to_le_bytes(count as u64);
        let mut i: usize = 0;
        while i < count
            invariant
                self.wf(),
                count == self.tags@.len(),
                i <= count,
                bytes@ == spec_u64_to_le_bytes(count as u64) + entries_bytes(
                    self@.entries.take(i as int),
                ),
                forall|k: int|
                    0 <= k < i ==> encode_utf8((#[trigger] self@.entries[k]).0).len() <= u64::MAX,
            decreases count - i,
        {
            let text = self.tags[i].as_str().as_bytes();
            let mut label = u64_to_le_bytes(self.labels[i]);
            let mut length = u64_to_le_bytes(text.len() as u64);
            bytes.append(&mut label);
            bytes.append(&mut length);
            bytes.extend_from_slice(text);
            proof {
                let entry = self@.entries[i as int];
                assert(text@ == encode_utf8(entry.0));
                lemma_entries_bytes_push(self@.entries.take(i as int), entry);
                assert(self@.entries.take(i as int).push(entry) =~= self@.entries.take(
                    i as int + 1,
                ));
                assert(bytes@ =~= spec_u64_to_le_bytes(count as u64) + entries_bytes(
                    self@.entries.take(i as int + 1),
                ));
            }
            i += 1;
        }
        proof {
            assert(self@.entries.take(count as int) =~= self@.entries);
            lemma_sound_is_restorable(self@);
        }
        bytes
    }

    /// Reads a mapping from the bytes that `encode` writes.
    ///
    /// The bytes are taken if they are those of some mapping in which no tag
    /// and no label occurs twice, and not otherwise. The mapping read has
    /// those pairs; the next new tag gets the label after the highest in it,
    /// or zero where the mapping has no pair.
    pub fn decode(bytes: &[u8]) -> (read: Option<TagMap>)
        ensures
            match read {
                Some(map) => {
                    &&& map.wf()
                    &&& spells(bytes@, map@.entries)
                    &&& map@.next == next_after(map@.entries)
                },
                None => spells_nothing(bytes@),
            },
    {
        proof {
            lemma_auto_spec_u64_to_from_le_bytes();
        }
        let total = bytes.len();
        if total < 8 {
            return None;
        }
        let count = u64_from_le_bytes(slice_subrange(bytes, 0, 8));
        let mut map = TagMap::new();
        proof {
            assert forall|entries: Seq<(Seq<char>, u64)>|
                #[trigger] spells(bytes@, entries) implies entries.len()
                == count && entries.take(0) == map@.entries && bytes@.skip(8) == entries_bytes(
                entries.skip(0),
            ) by {
                assert(map_bytes(entries).subrange(0, 8) =~= spec_u64_to_le_bytes(
                    entries.len() as u64,
                ));
                assert(map_bytes(entries).skip(8) =~= entries_bytes(entries));
                assert(entries.take(0) =~= map@.entries);
                assert(entries.skip(0) =~= entries);
            }
            assert(bytes@.subrange(8, 8) =~= entries_bytes(map@.entries));
        }
        let mut at: usize = 8;
        let mut i: u64 = 0;
        while i < count
            invariant
                total == bytes@.len(),
                8 <= at <= total,
                i <= count,
                map.wf(),
                map@.entries.len() == i,
                writable(map@.entries),
                map@.next == next_after(map@.entries),
                bytes@.subrange(0, 8) == spec_u64_to_le_bytes(count),
                bytes@.subrange(8, at as int) == entries_bytes(map@.entries),
                forall|entries: Seq<(Seq<char>, u64)>|
                    #[trigger] spells(bytes@, entries) ==> {
                        &&& entries.len() == count
                        &&& entries.take(i as int) == map@.entries
                        &&& bytes@.skip(at as int) == entries_bytes(entries.skip(i as int))
                    },
            decreases count - i,
        {
            let ghost parsed = map@.entries;
            proof {
                assert forall|entries: Seq<(Seq<char>, u64)>|
                    #[trigger] spells(bytes@, entries) implies ({
                    let entry = entries[i as int];
                    let length = encode_utf8(entry.0).len() as int;
                    &&& at + 16 + length <= total
                    &&& spec_u64_from_le_bytes(bytes@.subrange(at as int, at + 8)) == entry.1
                    &&& spec_u64_from_le_bytes(bytes@.subrange(at + 8, at + 16)) == length
                    &&& bytes@.subrange(at + 16, at + 16 + length) == encode_utf8(entry.0)
                    &&& bytes@.skip(at + 16 + length) == entries_bytes(entries.skip(i as int + 1))
                }) by {
                    let entry = entries[i as int];
                    let length = encode_utf8(entry.0).len() as int;
                    let later = entries.skip(i as int);
                    let rest = entries_bytes(later.drop_first());
                    assert(later[0] == entry);
                    assert(later.drop_first() =~= entries.skip(i as int + 1));
                    lemma_entry_read(entry, rest);
                    let tail = bytes@.skip(at as int);
                    assert(tail == entry_bytes(entry) + rest);
                    assert(bytes@.subrange(at as int, at + 8) =~= tail.subrange(0, 8));
                    assert(bytes@.subrange(at + 8, at + 16) =~= tail.subrange(8, 16));
                    assert(bytes@.subrange(at + 16, at + 16 + length) =~= tail.subrange(
                        16,
                        16 + length,
                    ));
                    assert(bytes@.skip(at + 16 + length) =~= tail.skip(16 + length));
                }
            }
            if total - at < 16 {
                return None;
            }
            let label = u64_from_le_bytes(slice_subrange(bytes, at, at + 8));
            let length = u64_from_le_bytes(slice_subrange(bytes, at + 8, at + 16));
            if length > (total - at - 16) as u64 {
                return None;
            }
            let end: usize = at + 16 + length as usize;
            let text = slice_subrange(bytes, at + 16, end);
            let tag = match text_of(text) {
                None => {
                    proof {
                        assert forall|entries: Seq<(Seq<char>, u64)>|
                            !spells(bytes@, entries) by {
                            if spells(bytes@, entries) {
                                encode_utf8_valid_utf8(entries[i as int].0);
                            }
                        }
                    }
                    return None;
                },
                Some(tag) => tag,
            };
            proof {
                decode_utf8_encode_utf8(text@);
                lemma_next_after_above(parsed);
                assert forall|entries: Seq<(Seq<char>, u64)>|
                    #[trigger] spells(bytes@, entries) implies entries[i as int]
                    == (tag@, label) by {
                    encode_utf8_decode_utf8(entries[i as int].0);
                }
            }
            if label == u64::MAX || map.find(&tag).is_some() || map.find_label(label).is_some() {
                proof {
                    assert forall|entries: Seq<(Seq<char>, u64)>|
                        !spells(bytes@, entries) by {
                        if spells(bytes@, entries) {
                            let whole = TagMapView { entries, next: next_after(entries) };
                            assert(entries[i as int] == (tag@, label));
                            assert(whole.entries[i as int].1 < whole.next);
                            if map@.knows(tag@) {
                                let j = map@.position(tag@);
                                assert(entries.take(i as int)[j] == entries[j]);
                                assert(whole.entries[j].0 == whole.entries[i as int].0);
                            }
                            if map@.uses(label) {
                                let j = map@.position_of_label(label);
                                assert(entries.take(i as int)[j] == entries[j]);
                                assert(whole.entries[j].1 == whole.entries[i as int].1);
                            }
                        }
                    }
                }
                return None;
            }
            map.tags.push(tag);
            map.labels.push(label);
            if label >= map.next_label {
                map.next_label = label + 1;
            }
            proof {
                let entry = (tag@, label);
                assert(map@.entries =~= parsed.push(entry));
                assert(map@.entries.drop_last() =~= parsed);
                lemma_entries_bytes_push(parsed, entry);
                lemma_auto_spec_u64_to_from_le_bytes();
                assert(entry_bytes(entry) =~= bytes@.subrange(at as int, at + 8) + bytes@.subrange(
                    at + 8,
                    at + 16,
                ) + text@);
                assert(bytes@.subrange(8, end as int) =~= bytes@.subrange(8, at as int)
                    + entry_bytes(entry));
                lemma_next_after_above(map@.entries);
                assert forall|a: int, b: int| 0 <= a < b < map@.entries.len() implies (
                #[trigger] map@.entries[a]).0 != (#[trigger] map@.entries[b]).0 by {
                    if b == i {
                        if parsed[a].0 == tag@ {
                            assert(TagMapView { entries: parsed, next: 0 }.knows(tag@));
                        }
                    } else {
                        assert(parsed[a].0 != parsed[b].0);
                    }
                }
                assert forall|a: int, b: int| 0 <= a < b < map@.entries.len() implies (
                #[trigger] map@.entries[a]).1 != (#[trigger] map@.entries[b]).1 by {
                    if b == i {
                        if parsed[a].1 == label {
                            assert(TagMapView { entries: parsed, next: 0 }.uses(label));
                        }
                    } else {
                        assert(parsed[a].1 != parsed[b].1);
                    }
                }
                assert forall|k: int| 0 <= k < map@.entries.len() implies encode_utf8(
                    (#[trigger] map@.entries[k]).0,
                ).len() <= u64::MAX by {
                    if k < i {
                        assert(map@.entries[k] == parsed[k]);
                    }
                }
                assert forall|entries: Seq<(Seq<char>, u64)>|
                    #[trigger] spells(bytes@, entries) implies entries.take(
                    i as int + 1,
                ) == map@.entries by {
                    assert(entries.take(i as int + 1) =~= entries.take(i as int).push(
                        entries[i as int],
                    ));
                }
            }
            at = end;
            i += 1;
        }
        if at != total {
            proof {
                assert forall|entries: Seq<(Seq<char>, u64)>|
                    !spells(bytes@, entries) by {
                    if spells(bytes@, entries) {
                        assert(entries.skip(count as int) =~= Seq::empty());
                        assert(bytes@.skip(at as int).len() == 0);
                    }
                }
            }
            return None;
        }
        proof {
            assert(bytes@ =~= bytes@.subrange(0, 8) + bytes@.subrange(8, at as int));
        }
        Some(map)
    }
}

} // verus!
