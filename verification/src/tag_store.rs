//! A store whose vectors go by tags.
//!
//! Beside the store of vectors stands the mapping that gives each tag its
//! label. A vector is kept under the label of its tag. The mapping is asked
//! first and the engine second, so that the engine only ever sees labels
//! that the mapping handed out.
use crate::engine::{image_written, no_vectors};
use crate::error::{Step, VexusError};
use crate::persist::{one_after_another, replace_file, replacing, views, FileStep};
use crate::store::{figure, Neighbor, VexusIndex, VexusStats};
use crate::tag_codec::{lemma_read_back, map_bytes, next_after, spells, spells_nothing};
use crate::tags::{TagMap, TagMapView};
use vstd::prelude::*;

verus! {

/// One answer to a query: the tag of a vector of the store and how far the
/// vector lies from the query.
#[derive(Debug, Clone, PartialEq, Eq)]
pub struct TagHit {
    /// The vector's tag.
    pub tag: String,
    /// The distance, as the bit pattern of its 32-bit scalar.
    pub distance: u32,
}

/// The answers whose label has a tag, each under its tag, in their order.
/// An answer whose label has none is left out: its tag was removed.
pub open spec fn named(tags: TagMapView, hits: Seq<Neighbor>) -> Seq<(Seq<char>, u32)>
    decreases hits.len(),
{
    if hits.len() == 0 {
        Seq::empty()
    } else {
        let earlier = named(tags, hits.drop_last());
        match tags.tag_of(hits.last().label) {
            Some(tag) => earlier.push((tag, hits.last().distance)),
            None => earlier,
        }
    }
}

/// Answers as plain values: each tag's characters and the distance.
pub open spec fn hit_views(hits: Seq<TagHit>) -> Seq<(Seq<char>, u32)> {
    hits.map_values(|hit: TagHit| (hit.tag@, hit.distance))
}

/// Puts each answer under the tag of its label, and leaves out those whose
/// label has no tag.
pub fn name_hits(tags: &TagMap, hits: &Vec<Neighbor>) -> (results: Vec<TagHit>)
    requires
        tags.wf(),
    ensures
        hit_views(results@) == named(tags@, hits@),
        results@.len() <= hits@.len(),
{
    let mut results: Vec<TagHit> = Vec::new();
    let mut i: usize = 0;
    assert(hits@.take(0) =~= Seq::empty());
    assert(hit_views(results@) =~= named(tags@, hits@.take(0)));
    while i < hits.len()
        invariant
            tags.wf(),
            i <= hits@.len(),
            results@.len() <= i,
            hit_views(results@) == named(tags@, hits@.take(i as int)),
        decreases hits@.len() - i,
    {
        let ghost before = results@;
        assert(hits@.take(i as int + 1).drop_last() =~= hits@.take(i as int));
        match tags.lookup_tag(hits[i].label) {
            Some(tag) => {
                results.push(TagHit { tag, distance: hits[i].distance });
                assert(hit_views(results@) =~= hit_views(before).push(
                    (tag@, hits@[i as int].distance),
                ));
            },
            None => {},
        }
        i += 1;
    }
    assert(hits@.take(hits@.len() as int) =~= hits@);
    results
}

/// A store of vectors of one length, each under a tag.
pub struct TagIndex {
    store: VexusIndex,
    tags: TagMap,
}

impl TagIndex {
    /// Whether the store is sound: its vectors and its mapping are. Every
    /// store that this library hands out is, and every operation keeps it
    /// so.
    pub closed spec fn wf(&self) -> bool {
        self.store.wf() && self.tags.wf()
    }

    /// The store of vectors, by label.
    pub closed spec fn store(&self) -> VexusIndex {
        self.store
    }

    /// The mapping between tags and labels.
    pub closed spec fn tags(&self) -> TagMapView {
        self.tags@
    }

    /// The vector under `tag`, or zeros of its length if the tag has no
    /// label or its label no vector.
    pub open spec fn vector_or_zeros(&self, tag: Seq<char>) -> Seq<u8> {
        match self.tags().label_of(tag) {
            Some(label) => self.store().vector_or_zeros(label),
            None => VexusIndex::zeros(self.store().width()),
        }
    }

    /// The vectors under the first `upto` of `tags`, one after the other,
    /// with zeros in the place of each that is not there.
    pub open spec fn gathered(&self, tags: Seq<String>, upto: nat) -> Seq<u8>
        decreases upto,
    {
        if upto == 0 {
            Seq::empty()
        } else {
            self.gathered(tags, (upto - 1) as nat) + self.vector_or_zeros(tags[upto - 1]@)
        }
    }

    /// An empty store for vectors of `dim` scalars with room for `capacity`
    /// of them, and no tag. It fails where the engine cannot be made or
    /// cannot reserve the room.
    pub fn new(dim: u32, capacity: u32) -> (made: Result<TagIndex, VexusError>)
        ensures
            match made {
                Ok(index) => {
                    &&& index.wf()
                    &&& index.tags() == TagMapView::empty()
                    &&& index.store().dimensions() == dim
                    &&& index.store().capacity() >= capacity
                    &&& index.store().count() == 0
                    &&& index.store().vectors() == no_vectors()
                },
                Err(error) => error is Construction,
            },
    {
        match VexusIndex::new(dim, capacity) {
            Err(error) => Err(error),
            Ok(store) => Ok(TagIndex { store, tags: TagMap::new() }),
        }
    }

    /// What putting `vector` under `tag` makes of the store `self`.
    ///
    /// A vector of the wrong length is turned away before anything is
    /// touched, and so is a new tag when no label is left. Otherwise the tag
    /// has its label in `after`, the one it had or the next in turn, whatever
    /// the engine did with the vector: see `VexusIndex::placed`.
    pub open spec fn upserted(
        &self,
        tag: Seq<char>,
        vector: Seq<u8>,
        after: TagIndex,
        done: Result<u64, VexusError>,
    ) -> bool {
        if !self.store().fits(vector) {
            &&& after == *self
            &&& done == Err::<u64, VexusError>(
                VexusError::DimensionMismatch {
                    expected: self.store().dimensions(),
                    byte_len: vector.len() as usize,
                },
            )
        } else if !self.tags().knows(tag) && self.tags().next >= u64::MAX {
            &&& after == *self
            &&& done == Err::<u64, VexusError>(VexusError::OutOfLabels)
        } else {
            let label = self.tags().with_tag(tag).1;
            &&& after.tags() == self.tags().with_tag(tag).0
            &&& after.tags().label_of(tag) == Some(label)
            &&& match done {
                Ok(given) => {
                    &&& given == label
                    &&& self.store().placed(label, vector, after.store(), Ok::<(), VexusError>(()))
                },
                Err(error) => self.store().placed(
                    label,
                    vector,
                    after.store(),
                    Err::<(), VexusError>(error),
                ),
            }
        }
    }

    /// Inserts `vector` under `tag`, in place of what the tag held, and
    /// returns the tag's label: see `upserted`.
    pub fn upsert(&mut self, tag: &str, vector: &[u8]) -> (done: Result<u64, VexusError>)
        requires
            old(self).wf(),
        ensures
            final(self).wf(),
            final(self).store().dimensions() == old(self).store().dimensions(),
            final(self).store().capacity() >= old(self).store().capacity(),
            old(self).upserted(tag@, vector@, *final(self), done),
    {
        if !self.store.accepts(vector) {
            return Err(
                VexusError::DimensionMismatch {
                    expected: self.store.dimensions(),
                    byte_len: vector.len(),
                },
            );
        }
        if self.tags.lookup(tag).is_none() && !self.tags.has_label_left() {
            return Err(VexusError::OutOfLabels);
        }
        let label = self.tags.get_or_create(tag);
        match self.store.insert_or_update(label, vector) {
            Ok(_) => Ok(label),
            Err(error) => Err(error),
        }
    }

    /// What removing `tag` makes of the store `self`.
    ///
    /// A tag without a label changes nothing. Where the engine will not let
    /// go of the vector, the tag keeps its label. Otherwise the vector is
    /// gone and the tag has no label in `after`: see `VexusIndex::unplaced`.
    pub open spec fn removed(
        &self,
        tag: Seq<char>,
        after: TagIndex,
        done: Result<Option<u64>, VexusError>,
    ) -> bool {
        match self.tags().label_of(tag) {
            None => {
                &&& after == *self
                &&& done == Ok::<Option<u64>, VexusError>(None)
            },
            Some(label) => match done {
                Ok(freed) => {
                    &&& freed == Some(label)
                    &&& after.tags() == self.tags().without_tag(tag).0
                    &&& after.tags().label_of(tag) is None
                    &&& self.store().unplaced(label, after.store(), Ok::<(), VexusError>(()))
                },
                Err(error) => {
                    &&& after.tags() == self.tags()
                    &&& self.store().unplaced(label, after.store(), Err::<(), VexusError>(error))
                },
            },
        }
    }

    /// Removes `tag` and the vector under it, and returns the label that the
    /// tag gives up, which is not handed out again. The engine is asked only
    /// where the tag has a label: see `removed`.
    pub fn remove(&mut self, tag: &str) -> (done: Result<Option<u64>, VexusError>)
        requires
            old(self).wf(),
        ensures
            final(self).wf(),
            final(self).store().dimensions() == old(self).store().dimensions(),
            final(self).store().capacity() == old(self).store().capacity(),
            old(self).removed(tag@, *final(self), done),
    {
        match self.tags.lookup(tag) {
            None => Ok(None),
            Some(label) => match self.store.remove_label(label) {
                Err(error) => Err(error),
                Ok(()) => {
                    let freed = self.tags.remove(tag);
                    Ok(freed)
                },
            },
        }
    }

    /// What a query for at most `k` vectors brings: what the store of
    /// vectors answers, see `VexusIndex::answered`, with each answer under
    /// its tag as `named` puts it.
    pub open spec fn answered(
        &self,
        query: Seq<u8>,
        k: nat,
        found: Result<Vec<TagHit>, VexusError>,
    ) -> bool {
        match found {
            Ok(hits) => {
                &&& self.store().fits(query)
                &&& hit_views(hits@) == named(self.tags(), self.store().answer_to(query, k))
                &&& hits@.len() <= k
            },
            Err(error) => self.store().answered(query, k, Err::<Vec<Neighbor>, VexusError>(error)),
        }
    }

    /// The vectors of the store nearest to `query`, at most `k` of them,
    /// each under its tag and with its distance: see `answered`.
    pub fn search(&self, query: &[u8], k: u32) -> (found: Result<Vec<TagHit>, VexusError>)
        requires
            self.wf(),
        ensures
            self.answered(query@, k as nat, found),
    {
        match self.store.nearest(query, k) {
            Err(error) => Err(error),
            Ok(answers) => {
                let hits = name_hits(&self.tags, &answers);
                Ok(hits)
            },
        }
    }

    /// The vectors under `tags`, one after the other in the order asked,
    /// with zeros in the place of each that the store does not hold, so that
    /// every tag finds its vector at its own position: see
    /// `VexusIndex::handed_out`. It never fails.
    pub fn get(&self, tags: &[String]) -> (got: Result<Vec<u8>, VexusError>)
        requires
            self.wf(),
        ensures
            self.store().handed_out(self.gathered(tags@, tags@.len()), got),
    {
        let mut vectors: Vec<u8> = Vec::new();
        if self.store.dimensions() == 0 {
            return Ok(vectors);
        }
        let mut i: usize = 0;
        while i < tags.len()
            invariant
                i <= tags@.len(),
                self.wf(),
                self.store().dimensions() > 0,
                vectors@ == self.gathered(tags@, i as nat),
            decreases tags@.len() - i,
        {
            match self.tags.lookup(tags[i].as_str()) {
                None => {
                    let mut zeros = self.store.blank();
                    vectors.append(&mut zeros);
                },
                Some(label) => match self.store.vector_of(label) {
                    Err(error) => {
                        return Err(error);
                    },
                    Ok(vector) => {
                        let mut vector = vector;
                        vectors.append(&mut vector);
                    },
                },
            }
            i += 1;
        }
        Ok(vectors)
    }

    /// The store's figures, read in one go, and the number of its tags.
    pub fn stats(&self) -> (stats: (VexusStats, usize))
        requires
            self.wf(),
        ensures
            stats.0.total_vectors == figure(self.store().count()),
            stats.0.dimensions == self.store().dimensions(),
            stats.0.capacity == figure(self.store().capacity()),
            stats.0.total_vectors <= stats.0.capacity,
            stats.1 == self.tags().entries.len(),
    {
        (self.store.stats(), self.tags.len())
    }

    /// Writes the mapping and takes an image of the vectors, and lays out
    /// the steps that put the first at `map_path` and then the second at
    /// `index_path`. The two are put in place one after the other: a reader
    /// who comes between finds the new mapping beside the old vectors.
    pub fn save(&self, map_path: &str, index_path: &str) -> (saved: Result<
        Vec<FileStep>,
        VexusError,
    >)
        requires
            self.wf(),
        ensures
            match saved {
                Ok(steps) => {
                    &&& self.store().fits_image()
                    &&& exists|image: Seq<u8>|
                        {
                            &&& #[trigger] self.store().pictured(image)
                            &&& views(steps@) == replacing(
                                map_path@,
                                map_bytes(self.tags().entries),
                            ) + replacing(index_path@, image)
                        }
                },
                Err(error) => {
                    &&& !self.store().fits_image()
                    &&& error == VexusError::ImageTooLarge
                },
            },
    {
        let mapping = self.tags.encode();
        match self.store.image() {
            Err(error) => Err(error),
            Ok(image) => {
                assert(self.store().pictured(image@));
                let first = replace_file(map_path, mapping);
                let second = replace_file(index_path, image);
                let ghost a = first@;
                let ghost b = second@;
                let steps = one_after_another(first, second);
                assert(views(steps@) =~= views(a) + views(b));
                Ok(steps)
            },
        }
    }

    /// Makes a store from the bytes of a mapping and an image of vectors,
    /// for vectors of `dim` scalars and with room for at least `capacity` of
    /// them.
    ///
    /// The image is one that a store wrote: the engine cannot be given any
    /// other bytes to read. Bytes that are not those of a mapping are turned
    /// away first. After that it fails where `VexusIndex::load` does. The
    /// two artifacts are taken as they come: nothing here can tell whether
    /// they were written together.
    pub fn load(mapping: &[u8], image: &[u8], dim: u32, capacity: u32) -> (made: Result<
        TagIndex,
        VexusError,
    >)
        requires
            image_written(image@),
        ensures
            spells_nothing(mapping@) <==> made matches Err(VexusError::MappingCorrupt),
            match made {
                Ok(index) => {
                    &&& index.wf()
                    &&& spells(mapping@, index.tags().entries)
                    &&& index.tags().next == next_after(index.tags().entries)
                    &&& index.store().dimensions() == dim
                    &&& index.store().count() <= index.store().capacity()
                    &&& index.store().restored(image@, capacity)
                },
                Err(VexusError::MappingCorrupt) => true,
                Err(VexusError::Construction { step, .. }) => {
                    step == Step::Create || step == Step::Reserve
                },
                Err(VexusError::Engine { step, .. }) => step == Step::Load,
                Err(VexusError::ImageMismatch) => true,
                Err(_) => false,
            },
    {
        let tags = match TagMap::decode(mapping) {
            None => {
                return Err(VexusError::MappingCorrupt);
            },
            Some(tags) => tags,
        };
        match VexusIndex::load(image, dim, capacity) {
            Err(error) => Err(error),
            Ok(store) => Ok(TagIndex { store, tags }),
        }
    }

    /// Makes a second store of this one's tags and vectors, with room for
    /// at least `capacity` vectors: writes both and reads them back. Every
    /// tag has in the copy the label it has here, and every label its
    /// vector; the next new tag gets no label above the one it would get
    /// here. It fails where `VexusIndex::duplicate` does.
    pub fn duplicate(&self, capacity: u32) -> (made: Result<TagIndex, VexusError>)
        requires
            self.wf(),
        ensures
            !self.store().fits_image() <==> made matches Err(VexusError::ImageTooLarge),
            match made {
                Ok(copy) => {
                    &&& copy.wf()
                    &&& copy.tags().entries == self.tags().entries
                    &&& copy.tags().next <= self.tags().next
                    &&& self.store().mirrored(copy.store(), capacity)
                },
                Err(VexusError::Construction { step, .. }) => {
                    step == Step::Create || step == Step::Reserve
                },
                Err(VexusError::ImageTooLarge) => true,
                Err(VexusError::Engine { step, .. }) => step == Step::Load,
                Err(VexusError::ImageMismatch) => true,
                Err(_) => false,
            },
    {
        let mapping = self.tags.encode();
        let image = match self.store.image() {
            Err(error) => {
                return Err(error);
            },
            Ok(image) => image,
        };
        let dimensions = self.store.dimensions();
        match TagIndex::load(mapping.as_slice(), image.as_slice(), dimensions, capacity) {
            Err(error) => Err(error),
            Ok(copy) => {
                proof {
                    self.tags.lemma_view_is_sound();
                    lemma_read_back(self.tags@, copy.tags@);
                }
                Ok(copy)
            },
        }
    }
}

} // verus!
