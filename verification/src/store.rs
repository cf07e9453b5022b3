//! The store: one engine, and the dimensions that every vector in it has.
//!
//! A vector is the bytes of its scalars, four for each dimension. The store
//! turns away every vector and every query of another length before the
//! engine sees it, makes room ahead of insertions, and replaces what a label
//! held when a vector comes under that label again.
use crate::capacity::{capped, grown, grown_capacity, is_tight, tight};
use crate::engine::{
    engine_add, engine_capacity, engine_capacity_of, engine_contains, engine_dimensions,
    engine_dimensions_of, engine_exact, engine_found, engine_get, engine_keeps_scalars,
    engine_load, engine_memory_usage, engine_multi, engine_multi_of, engine_new, engine_remove,
    engine_reserve, engine_save, engine_search, engine_serialized_length, engine_single,
    engine_size, engine_size_of, engine_vectors, fault_text, image_capacity, image_vectors,
    image_written, no_vectors, plain_distance, FREE_LABEL,
};
use crate::error::{Step, VexusError};
use crate::persist::{replace_file, replacing, views, FileStep};
use crate::recover::{name_of, RecoverTask, RecoveryReport, RecoveryState};
use vstd::prelude::*;
use vstd::slice::slice_subrange;

verus! {

/// How many neighbours each vector is linked to inside the engine.
pub const CONNECTIVITY: usize = 16;

/// How many candidates the engine weighs when it inserts a vector.
pub const EXPANSION_ADD: usize = 128;

/// How many candidates the engine weighs when it answers a query.
pub const EXPANSION_SEARCH: usize = 64;

/// The bytes of one scalar of a vector.
pub const SCALAR_BYTES: usize = 4;

/// A snapshot of a store's figures. A figure says its number as far as 32
/// bits can: a number beyond them shows as the largest they hold.
#[derive(Debug, Clone, Copy, PartialEq, Eq, Structural)]
pub struct VexusStats {
    /// The number of vectors in the store.
    pub total_vectors: u32,
    /// The number of scalars in each vector.
    pub dimensions: u32,
    /// The number of vectors the store has room for.
    pub capacity: u32,
    /// The engine's estimate of the memory it uses, in bytes.
    pub memory_usage: u32,
}

/// The figure that shows `number`: the number itself, or the largest that
/// 32 bits hold where the number is beyond them.
pub open spec fn figure(number: nat) -> u32 {
    if number <= u32::MAX {
        number as u32
    } else {
        u32::MAX
    }
}

/// Shows a number as a figure.
pub fn figure_of(number: usize) -> (shown: u32)
    ensures
        shown == figure(number as nat),
{
    if number > u32::MAX as usize {
        u32::MAX
    } else {
        number as u32
    }
}

impl VexusStats {
    /// The snapshot of a store of `dimensions` whose engine reports `size`,
    /// `capacity` and `memory` bytes in use.
    pub fn of(size: usize, dimensions: u32, capacity: usize, memory: usize) -> (stats: VexusStats)
        ensures
            stats.total_vectors == figure(size as nat),
            stats.dimensions == dimensions,
            stats.capacity == figure(capacity as nat),
            stats.memory_usage == figure(memory as nat),
    {
        VexusStats {
            total_vectors: figure_of(size),
            dimensions,
            capacity: figure_of(capacity),
            memory_usage: figure_of(memory),
        }
    }
}

/// What became of the room of a store when vectors were to go in. The
/// store goes on either way: where the engine gave no room, it is the engine
/// that then takes the vector or refuses it.
#[derive(Debug, Clone, Copy, PartialEq, Eq, Structural)]
pub enum Room {
    /// The store had room in hand, and the engine was not asked for more.
    Enough,
    /// The store was tight, and the engine gave the room asked for.
    Grown,
    /// The store was tight, and the engine gave no room.
    Refused,
}

/// Whether an insertion was done, without what became of the room.
pub open spec fn settled(done: Result<Room, VexusError>) -> Result<(), VexusError> {
    match done {
        Ok(_) => Ok(()),
        Err(error) => Err(error),
    }
}

/// One answer to a query: the label of a vector of the store and how far
/// the vector lies from the query.
#[derive(Debug, Clone, Copy, PartialEq, Eq, Structural)]
pub struct Neighbor {
    /// The vector's label.
    pub label: u64,
    /// The distance, as the bit pattern of its 32-bit scalar. The nearer the
    /// vector, the smaller the scalar.
    pub distance: u32,
}

impl Neighbor {
    /// The answers that the engine's labels stand for, each beside the
    /// distance at its position, in the engine's order. A label without a
    /// distance, or a distance without a label, makes no answer.
    pub open spec fn paired(labels: Seq<u64>, distances: Seq<u32>) -> Seq<Neighbor> {
        let count = if labels.len() <= distances.len() {
            labels.len()
        } else {
            distances.len()
        };
        Seq::new(count, |i: int| (Neighbor { label: labels[i], distance: distances[i] }))
    }

    /// Whether the answers come nearest first, as far as that can be told
    /// from the bits of their distances: it can where each distance is zero
    /// or more.
    pub open spec fn nearest_first(hits: Seq<Neighbor>) -> bool {
        (forall|i: int| 0 <= i < hits.len() ==> plain_distance((#[trigger] hits[i]).distance))
            ==> forall|i: int, j: int|
            0 <= i <= j < hits.len() ==> hits[i].distance <= hits[j].distance
    }

    /// Pairs each label with the distance at its position.
    pub fn pair(labels: &Vec<u64>, distances: &Vec<u32>) -> (hits: Vec<Neighbor>)
        ensures
            hits@ == Neighbor::paired(labels@, distances@),
    {
        let count = if labels.len() <= distances.len() {
            labels.len()
        } else {
            distances.len()
        };
        let mut hits: Vec<Neighbor> = Vec::new();
        let mut i: usize = 0;
        while i < count
            invariant
                i <= count,
                count <= labels@.len(),
                count <= distances@.len(),
                count == Neighbor::paired(labels@, distances@).len(),
                hits@ == Neighbor::paired(labels@, distances@).subrange(0, i as int),
            decreases count - i,
        {
            hits.push(Neighbor { label: labels[i], distance: distances[i] });
            i += 1;
            assert(hits@ =~= Neighbor::paired(labels@, distances@).subrange(0, i as int));
        }
        assert(hits@ =~= Neighbor::paired(labels@, distances@));
        hits
    }
}

/// One answer to a query, for a caller that keeps labels of 32 bits.
#[derive(Debug, Clone, Copy, PartialEq, Eq, Structural)]
pub struct SearchResult {
    /// The low 32 bits of the vector's label.
    pub id: u32,
    /// The distance, as the bit pattern of its 32-bit scalar. The nearer the
    /// vector, the smaller the scalar.
    pub distance: u32,
}

impl SearchResult {
    /// The answers with each label cut to its low 32 bits.
    pub open spec fn narrowed(hits: Seq<Neighbor>) -> Seq<SearchResult> {
        Seq::new(
            hits.len(),
            |i: int| (SearchResult { id: hits[i].label as u32, distance: hits[i].distance }),
        )
    }

    /// Whether the answers come nearest first, as far as that can be told
    /// from the bits of their distances: it can where each distance is zero
    /// or more.
    pub open spec fn nearest_first(hits: Seq<SearchResult>) -> bool {
        (forall|i: int| 0 <= i < hits.len() ==> plain_distance((#[trigger] hits[i]).distance))
            ==> forall|i: int, j: int|
            0 <= i <= j < hits.len() ==> hits[i].distance <= hits[j].distance
    }

    /// Cuts the label of each answer to its low 32 bits.
    pub fn narrow(hits: &Vec<Neighbor>) -> (results: Vec<SearchResult>)
        ensures
            results@ == SearchResult::narrowed(hits@),
    {
        let mut results: Vec<SearchResult> = Vec::new();
        let mut i: usize = 0;
        while i < hits.len()
            invariant
                i <= hits@.len(),
                results@ == SearchResult::narrowed(hits@).subrange(0, i as int),
            decreases hits@.len() - i,
        {
            let id = #[verifier::truncate]
            (hits[i].label as u32);
            results.push(SearchResult { id, distance: hits[i].distance });
            i += 1;
            assert(results@ =~= SearchResult::narrowed(hits@).subrange(0, i as int));
        }
        assert(results@ =~= SearchResult::narrowed(hits@));
        results
    }
}

/// The bytes of the vector at `position` in a batch whose vectors have
/// `width` bytes each.
pub open spec fn batch_item(vectors: Seq<u8>, width: nat, position: nat) -> Seq<u8> {
    vectors.subrange((position * width) as int, ((position + 1) * width) as int)
}

/// The vectors of a store that held `before`, after the first `upto` pairs
/// of a batch went in, one after the other.
pub open spec fn batch_vectors(
    before: Map<u64, Seq<u8>>,
    ids: Seq<u32>,
    vectors: Seq<u8>,
    width: nat,
    upto: nat,
) -> Map<u64, Seq<u8>>
    decreases upto,
{
    if upto == 0 {
        before
    } else {
        batch_vectors(before, ids, vectors, width, (upto - 1) as nat).insert(
            ids[upto - 1] as u64,
            batch_item(vectors, width, (upto - 1) as nat),
        )
    }
}

/// How many of the first `upto` labels of a batch the store did not hold
/// when their turn came.
pub open spec fn batch_fresh(
    before: Map<u64, Seq<u8>>,
    ids: Seq<u32>,
    vectors: Seq<u8>,
    width: nat,
    upto: nat,
) -> nat
    decreases upto,
{
    if upto == 0 {
        0
    } else {
        let held = batch_vectors(before, ids, vectors, width, (upto - 1) as nat);
        let earlier = batch_fresh(before, ids, vectors, width, (upto - 1) as nat);
        if held.contains_key(ids[upto - 1] as u64) {
            earlier
        } else {
            earlier + 1
        }
    }
}

/// The labels of the first `upto` pairs of a batch, each once however often
/// it comes.
pub open spec fn batch_labels(ids: Seq<u32>, upto: nat) -> Set<u64> {
    Set::new(|label: u64| exists|i: int| 0 <= i < upto && (#[trigger] ids[i]) as u64 == label)
}

/// Whether an image suits a store of `dim` dimensions: the engine that read
/// it holds vectors of `dimensions` scalars, keeps them as 32-bit scalars if
/// `exact`, and takes several under one label if `multi`.
pub open spec fn suits(dim: u32, dimensions: nat, exact: bool, multi: bool) -> bool {
    dimensions == dim && exact && !multi
}

/// Decides whether an image suits a store of `dim` dimensions.
pub fn image_matches(dim: u32, dimensions: usize, exact: bool, multi: bool) -> (ok: bool)
    ensures
        ok == suits(dim, dimensions as nat, exact, multi),
{
    dimensions as u128 == dim as u128 && exact && !multi
}

/// The engine's refusal at `step`, with its own words.
fn refused(step: Step, fault: &cxx::Exception) -> (error: VexusError)
    ensures
        error is Engine,
        error->Engine_step == step,
{
    VexusError::Engine { step, reason: fault_text(fault) }
}

/// The engine's refusal at `step` of making a store, with its own words.
fn unmade(step: Step, fault: &cxx::Exception) -> (error: VexusError)
    ensures
        error is Construction,
        error->Construction_step == step,
{
    VexusError::Construction { step, reason: fault_text(fault) }
}

/// A store of vectors of one length, each under a numeric label.
pub struct VexusIndex {
    index: usearch::Index,
    dimensions: u32,
}

impl VexusIndex {
    /// Whether the store is sound: its engine holds vectors of the store's
    /// dimensions, one and no more under each label, keeps them as they were
    /// given, and counts no more of them than it has room for. Every store
    /// that this library hands out is sound, and every operation keeps it
    /// so.
    pub closed spec fn wf(&self) -> bool {
        &&& engine_dimensions(self.index) == self.dimensions
        &&& engine_exact(self.index)
        &&& !engine_multi(self.index)
        &&& engine_single(self.index)
        &&& engine_size(self.index) <= engine_capacity(self.index)
    }

    /// Whether the store counts one vector for each label it holds: the
    /// number of its vectors is the number of its labels. It is so in every
    /// store that was made empty, and stays so as long as the engine refuses
    /// no vector.
    pub open spec fn tallied(&self) -> bool {
        &&& self.vectors().dom().finite()
        &&& self.count() == self.vectors().len()
    }

    /// How many vectors stand under `label`: one or none.
    pub open spec fn held(&self, label: u64) -> nat {
        if self.vectors().contains_key(label) {
            1
        } else {
            0
        }
    }

    /// The vector under each label, as the bytes of its scalars.
    pub closed spec fn vectors(&self) -> Map<u64, Seq<u8>> {
        engine_vectors(self.index)
    }

    /// The number of vectors in the store.
    pub closed spec fn count(&self) -> nat {
        engine_size(self.index)
    }

    /// The number of vectors the store has room for.
    pub closed spec fn capacity(&self) -> nat {
        engine_capacity(self.index)
    }

    /// The number of scalars in each vector of the store.
    pub closed spec fn spec_dimensions(&self) -> u32 {
        self.dimensions
    }

    /// The bytes of one vector of the store.
    pub open spec fn width(&self) -> nat {
        (SCALAR_BYTES * self.dimensions()) as nat
    }

    /// Whether `vector` has the length of the store's vectors: four bytes
    /// for each dimension.
    pub open spec fn fits(&self, vector: Seq<u8>) -> bool {
        vector.len() == self.width()
    }

    /// Whether `byte_len` bytes are the vectors of `labels` labels.
    pub open spec fn batch_fits(&self, labels: nat, byte_len: nat) -> bool {
        byte_len == labels * self.width()
    }

    /// The error with which bytes of the wrong length are turned away.
    pub open spec fn mismatch(&self, bytes: Seq<u8>) -> VexusError {
        VexusError::DimensionMismatch {
            expected: self.dimensions(),
            byte_len: bytes.len() as usize,
        }
    }

    /// `width` bytes of zero: what stands for a vector that is not there.
    pub open spec fn zeros(width: nat) -> Seq<u8> {
        Seq::new(width, |i: int| 0u8)
    }

    /// The vector under `label`, or zeros of its length if there is none.
    pub open spec fn vector_or_zeros(&self, label: u64) -> Seq<u8> {
        if self.vectors().contains_key(label) {
            self.vectors()[label]
        } else {
            Self::zeros(self.width())
        }
    }

    /// The vectors under the first `upto` of `ids`, one after the other,
    /// with zeros in the place of each that is not there.
    pub open spec fn gathered(&self, ids: Seq<u32>, upto: nat) -> Seq<u8>
        decreases upto,
    {
        if upto == 0 {
            Seq::empty()
        } else {
            self.gathered(ids, (upto - 1) as nat) + self.vector_or_zeros(ids[upto - 1] as u64)
        }
    }

    /// Whether the store holds a vector under a label whose low 32 bits are
    /// `id`.
    pub open spec fn holds_label_of(&self, id: u32) -> bool {
        exists|label: u64| #[trigger] self.vectors().contains_key(label) && label as u32 == id
    }

    /// What making room for one more vector makes of the room of the store
    /// `self`: a store that is not tight keeps its room; one that is has
    /// afterwards at least half as much again, or what it had where the
    /// engine gave none.
    pub open spec fn room_for_one(&self, after: VexusIndex) -> bool {
        if is_tight(self.count(), 1, self.capacity()) {
            ||| after.capacity() == self.capacity()
            ||| {
                &&& after.capacity() >= self.capacity()
                &&& after.capacity() >= capped(grown(self.capacity()))
            }
        } else {
            after.capacity() == self.capacity()
        }
    }

    /// What making room for `incoming` more vectors makes of the room of
    /// the store `self`: a store that they would not fill keeps its room;
    /// one that they would has afterwards at least half as much again as the
    /// vectors held and coming need, or what it had where the engine gave
    /// none.
    pub open spec fn room_for(&self, incoming: nat, after: VexusIndex) -> bool {
        if is_tight(self.count(), incoming, self.capacity()) {
            ||| after.capacity() == self.capacity()
            ||| {
                &&& after.capacity() >= self.capacity()
                &&& after.capacity() >= capped(grown(self.count() + incoming))
            }
        } else {
            after.capacity() == self.capacity()
        }
    }

    /// What `room` says of the store `self` and of `after`, where `incoming`
    /// vectors were to go in and `target` was the room to ask for: whether
    /// the store was tight, and what room it has afterwards.
    pub open spec fn made_room(
        &self,
        incoming: nat,
        target: nat,
        after: VexusIndex,
        room: Room,
    ) -> bool {
        match room {
            Room::Enough => {
                &&& !is_tight(self.count(), incoming, self.capacity())
                &&& after.capacity() == self.capacity()
            },
            Room::Grown => {
                &&& is_tight(self.count(), incoming, self.capacity())
                &&& after.capacity() >= self.capacity()
                &&& after.capacity() >= target
            },
            Room::Refused => {
                &&& is_tight(self.count(), incoming, self.capacity())
                &&& after.capacity() == self.capacity()
            },
        }
    }

    /// The room that is asked for ahead of one insertion into a tight
    /// store: half as much again as the store has.
    pub open spec fn target_for_one(&self) -> nat {
        capped(grown(self.capacity()))
    }

    /// The room that is asked for ahead of `incoming` insertions that would
    /// fill the store: half as much again as the vectors held and coming
    /// need.
    pub open spec fn target_for(&self, incoming: nat) -> nat {
        capped(grown(self.count() + incoming))
    }

    /// What putting a vector of the right length under `label` makes of the
    /// store `self`, for each way the engine can answer. Where it takes the
    /// vector, `after` holds it under the label and counts one more unless
    /// the label was there. Where it will not take out what the label held,
    /// nothing has changed. Where it takes that out and then refuses the
    /// vector, the label is gone, and `after` counts what is left, or one
    /// more where the engine had taken a place for the vector before it
    /// refused.
    pub open spec fn placed(
        &self,
        label: u64,
        vector: Seq<u8>,
        after: VexusIndex,
        done: Result<(), VexusError>,
    ) -> bool {
        match done {
            Ok(()) => {
                &&& after.vectors() == self.vectors().insert(label, vector)
                &&& after.count() + self.held(label) == self.count() + 1
            },
            Err(VexusError::Engine { step: Step::Remove, .. }) => {
                &&& after.vectors() == self.vectors()
                &&& after.count() == self.count()
            },
            Err(VexusError::Engine { step: Step::Add, .. }) => {
                &&& after.vectors() == self.vectors().remove(label)
                &&& self.count() <= after.count() + self.held(label)
                &&& after.count() + self.held(label) <= self.count() + 1
            },
            Err(_) => false,
        }
    }

    /// What inserting `vector` under `label` makes of the store `self`. A
    /// vector of the wrong length is turned away with the store untouched,
    /// and so is one that comes under the label that the engine keeps for
    /// itself. Of any other the engine decides: see `placed`.
    pub open spec fn inserted(
        &self,
        label: u64,
        vector: Seq<u8>,
        after: VexusIndex,
        done: Result<(), VexusError>,
    ) -> bool {
        if !self.fits(vector) {
            after == *self && done == Err::<(), VexusError>(self.mismatch(vector))
        } else if label == FREE_LABEL {
            after == *self && done == Err::<(), VexusError>(VexusError::ReservedLabel)
        } else {
            self.placed(label, vector, after, done)
        }
    }

    /// What putting the pairs of a batch of the right length into the store
    /// `self` makes of it, for each way the engine can answer. Where it
    /// takes every vector, `after` is the store with each pair put in, in
    /// order, and counts one vector for each label if the store did, however
    /// often a label came. Where it refuses at some position, the pairs
    /// before that one
    /// are in; the label at the position is gone if what it held had been
    /// taken out before the engine refused, and `after` then counts what is
    /// left, or one more where the engine had taken a place for the vector.
    pub open spec fn batch_placed(
        &self,
        ids: Seq<u32>,
        vectors: Seq<u8>,
        after: VexusIndex,
        done: Result<(), VexusError>,
    ) -> bool {
        let before = self.vectors();
        let width = self.width();
        match done {
            Ok(()) => {
                &&& after.vectors() == batch_vectors(before, ids, vectors, width, ids.len())
                &&& after.count() == self.count() + batch_fresh(
                    before,
                    ids,
                    vectors,
                    width,
                    ids.len(),
                )
                &&& self.tallied() ==> after.tallied()
            },
            Err(VexusError::BatchItem { position, step: Step::Remove, .. }) => {
                &&& position < ids.len()
                &&& after.vectors() == batch_vectors(before, ids, vectors, width, position as nat)
                &&& after.count() == self.count() + batch_fresh(
                    before,
                    ids,
                    vectors,
                    width,
                    position as nat,
                )
            },
            Err(VexusError::BatchItem { position, step: Step::Add, .. }) => {
                let reached = batch_vectors(before, ids, vectors, width, position as nat);
                let counted = self.count() + batch_fresh(
                    before,
                    ids,
                    vectors,
                    width,
                    position as nat,
                );
                let gone: nat = if reached.contains_key(ids[position as int] as u64) {
                    1
                } else {
                    0
                };
                &&& position < ids.len()
                &&& after.vectors() == reached.remove(ids[position as int] as u64)
                &&& counted <= after.count() + gone
                &&& after.count() + gone <= counted + 1
            },
            Err(_) => false,
        }
    }

    /// What inserting a batch makes of the store `self`. A batch whose
    /// vectors are not one of the right length for each label is turned
    /// away with the store untouched. Of any other the engine decides: see
    /// `batch_placed`.
    pub open spec fn batch_inserted(
        &self,
        ids: Seq<u32>,
        vectors: Seq<u8>,
        after: VexusIndex,
        done: Result<(), VexusError>,
    ) -> bool {
        if self.batch_fits(ids.len(), vectors.len()) {
            self.batch_placed(ids, vectors, after, done)
        } else {
            after == *self && done == Err::<(), VexusError>(VexusError::BatchSizeMismatch)
        }
    }

    /// What taking out the vector under `label` makes of the store `self`,
    /// for each way the engine can answer. Where it agrees, the label is
    /// gone from `after`, which counts one less if the label was there.
    /// Where it refuses, nothing has changed.
    pub open spec fn unplaced(
        &self,
        label: u64,
        after: VexusIndex,
        done: Result<(), VexusError>,
    ) -> bool {
        match done {
            Ok(()) => {
                &&& after.vectors() == self.vectors().remove(label)
                &&& after.count() <= self.count()
                &&& after.count() + self.held(label) == self.count()
            },
            Err(VexusError::Engine { step: Step::Remove, .. }) => {
                &&& after.vectors() == self.vectors()
                &&& after.count() == self.count()
            },
            Err(_) => false,
        }
    }

    /// What the engine answers to `query` for at most `k` vectors: its
    /// labels, each beside its distance. Which vectors it names is its own
    /// matter; it is the same answer whenever the same store is asked the
    /// same.
    pub closed spec fn answer_to(&self, query: Seq<u8>, k: nat) -> Seq<Neighbor> {
        let found = engine_found(self.index, query, k);
        Neighbor::paired(found.0, found.1)
    }

    /// What a query for at most `k` vectors brings. A query of the wrong
    /// length is turned away. To any other the engine answers or refuses;
    /// where it answers, what comes back is its answer to this query for
    /// this `k`: at most `k` vectors, each of which the store holds, nearest
    /// first.
    pub open spec fn answered(
        &self,
        query: Seq<u8>,
        k: nat,
        found: Result<Vec<Neighbor>, VexusError>,
    ) -> bool {
        if self.fits(query) {
            match found {
                Ok(hits) => {
                    &&& hits@ == self.answer_to(query, k)
                    &&& hits@.len() <= k
                    &&& forall|i: int|
                        0 <= i < hits@.len() ==> self.vectors().contains_key(
                            (#[trigger] hits@[i]).label,
                        )
                    &&& Neighbor::nearest_first(hits@)
                },
                Err(error) => error is Engine && error->Engine_step == Step::Search,
            }
        } else {
            found == Err::<Vec<Neighbor>, VexusError>(self.mismatch(query))
        }
    }

    /// What handing out `vector` brings, which is the vector under a label
    /// or zeros where there is none: the vector, always. A store of no
    /// dimensions hands out the empty vector.
    pub open spec fn handed_out(&self, vector: Seq<u8>, got: Result<Vec<u8>, VexusError>) -> bool {
        match got {
            Ok(bytes) => if self.dimensions() == 0 {
                bytes@.len() == 0
            } else {
                bytes@ == vector
            },
            Err(_) => false,
        }
    }

    /// Whether the store is small enough for an image: the bytes of one
    /// vector and the number of its places each fit in 32 bits, in which an
    /// image says them.
    pub open spec fn fits_image(&self) -> bool {
        &&& self.width() <= u32::MAX
        &&& self.capacity() <= u32::MAX
    }

    /// A sound store counts no more vectors than it has room for.
    pub proof fn lemma_counts_within_room(&self)
        requires
            self.wf(),
        ensures
            self.count() <= self.capacity(),
    {
    }

    /// An empty store for vectors of `dim` scalars with room for `capacity`
    /// of them. It fails where the engine cannot be made or cannot reserve
    /// the room.
    pub fn new(dim: u32, capacity: u32) -> (made: Result<VexusIndex, VexusError>)
        ensures
            match made {
                Ok(store) => {
                    &&& store.wf()
                    &&& store.count() <= store.capacity()
                    &&& store.tallied()
                    &&& store.dimensions() == dim
                    &&& store.capacity() >= capacity
                    &&& store.count() == 0
                    &&& store.vectors() == no_vectors()
                },
                Err(VexusError::Construction { step, .. }) => {
                    step == Step::Create || step == Step::Reserve
                },
                Err(_) => false,
            },
    {
        match engine_new(dim as usize, CONNECTIVITY, EXPANSION_ADD, EXPANSION_SEARCH) {
            Err(fault) => Err(unmade(Step::Create, &fault)),
            Ok(index) => {
                let mut index = index;
                match engine_reserve(&mut index, capacity as usize) {
                    Err(fault) => Err(unmade(Step::Reserve, &fault)),
                    Ok(()) => Ok(VexusIndex { index, dimensions: dim }),
                }
            },
        }
    }

    /// What reading `image` for a store with room for `capacity` vectors
    /// makes: a store with the vectors of the image, which counts one vector
    /// for each label. It has the room that the image brings where that is
    /// enough, and else at least the room asked for.
    pub open spec fn restored(&self, image: Seq<u8>, capacity: u32) -> bool {
        &&& self.vectors() == image_vectors(image)
        &&& self.vectors().dom().finite()
        &&& self.tallied()
        &&& self.capacity() >= image_capacity(image)
        &&& self.capacity() >= capacity
        &&& capacity <= image_capacity(image) ==> self.capacity() == image_capacity(image)
    }

    /// Makes a store of the vectors in `image`, for vectors of `dim` scalars
    /// and with room for at least `capacity` of them: see `restored`.
    ///
    /// The image is one that a store wrote, by `image` or `save`: the engine
    /// cannot be given any other bytes to read. It fails where the engine
    /// cannot be made, cannot read the image or cannot reserve the room, and
    /// where the image is not one of vectors of `dim` 32-bit scalars with
    /// one taken under each label.
    pub fn load(image: &[u8], dim: u32, capacity: u32) -> (made: Result<VexusIndex, VexusError>)
        requires
            image_written(image@),
        ensures
            match made {
                Ok(store) => {
                    &&& store.wf()
                    &&& store.count() <= store.capacity()
                    &&& store.dimensions() == dim
                    &&& store.restored(image@, capacity)
                },
                Err(VexusError::Construction { step, .. }) => {
                    step == Step::Create || step == Step::Reserve
                },
                Err(VexusError::Engine { step, .. }) => step == Step::Load,
                Err(VexusError::ImageMismatch) => true,
                Err(_) => false,
            },
    {
        let made = engine_new(dim as usize, CONNECTIVITY, EXPANSION_ADD, EXPANSION_SEARCH);
        let mut index = match made {
            Err(fault) => {
                return Err(unmade(Step::Create, &fault));
            },
            Ok(index) => index,
        };
        match engine_load(&mut index, image) {
            Err(fault) => {
                return Err(refused(Step::Load, &fault));
            },
            Ok(()) => {},
        }
        let dimensions = engine_dimensions_of(&index);
        let exact = engine_keeps_scalars(&index);
        let multi = engine_multi_of(&index);
        if !image_matches(dim, dimensions, exact, multi) {
            return Err(VexusError::ImageMismatch);
        }
        if capacity as usize > engine_capacity_of(&index) {
            match engine_reserve(&mut index, capacity as usize) {
                Err(fault) => {
                    return Err(unmade(Step::Reserve, &fault));
                },
                Ok(()) => {},
            }
        }
        Ok(VexusIndex { index, dimensions: dim })
    }

    /// The number of scalars in each vector of the store.
    #[verifier::when_used_as_spec(spec_dimensions)]
    pub fn dimensions(&self) -> (dimensions: u32)
        ensures
            dimensions == self.dimensions(),
    {
        self.dimensions
    }

    /// The store's figures, read in one go. The store never counts more
    /// vectors than it has room for, and where it counts one for each label
    /// the figure of its vectors is that of its labels. Nothing is said of
    /// the memory in use: it is the engine's estimate.
    pub fn stats(&self) -> (stats: VexusStats)
        requires
            self.wf(),
        ensures
            stats.total_vectors == figure(self.count()),
            stats.dimensions == self.dimensions(),
            stats.capacity == figure(self.capacity()),
            stats.total_vectors <= stats.capacity,
            self.count() <= self.capacity(),
            self.tallied() ==> stats.total_vectors == figure(self.vectors().len()),
    {
        let size = engine_size_of(&self.index);
        let capacity = engine_capacity_of(&self.index);
        let memory = engine_memory_usage(&self.index);
        VexusStats::of(size, self.dimensions, capacity, memory)
    }

    /// Tells whether `vector` has the length of the store's vectors.
    pub fn accepts(&self, vector: &[u8]) -> (ok: bool)
        ensures
            ok == self.fits(vector@),
    {
        vector.len() as u128 == SCALAR_BYTES as u128 * (self.dimensions as u128)
    }

    /// Whether the store holds a vector under `label`.
    pub fn contains_label(&self, label: u64) -> (held: bool)
        ensures
            held == self.vectors().contains_key(label),
    {
        engine_contains(&self.index, label)
    }

    /// Whether the store holds a vector under `id`.
    pub fn contains(&self, id: u32) -> (held: bool)
        ensures
            held == self.vectors().contains_key(id as u64),
    {
        self.contains_label(id as u64)
    }

    /// Grows the store ahead of one insertion: if one more vector would fill
    /// it, asks the engine for half as much room again as it has. Returns
    /// whether the engine was asked and gave it. No vector is touched.
    ///
    /// Where the store grew it has more room than before, unless it had none
    /// or all that can be counted.
    pub fn grow_for_insert(&mut self) -> (grew: bool)
        requires
            old(self).wf(),
        ensures
            final(self).wf(),
            final(self).vectors() == old(self).vectors(),
            final(self).count() == old(self).count(),
            final(self).dimensions() == old(self).dimensions(),
            final(self).capacity() >= old(self).capacity(),
            grew ==> is_tight(old(self).count(), 1, old(self).capacity()),
            grew ==> final(self).capacity() >= capped(grown(old(self).capacity())),
            grew && 0 < old(self).capacity() < usize::MAX
                ==> final(self).capacity() > old(self).capacity(),
            !grew ==> final(self).capacity() == old(self).capacity(),
    {
        let size = engine_size_of(&self.index);
        let capacity = engine_capacity_of(&self.index);
        if tight(size, 1, capacity) {
            let target = grown_capacity(capacity, 0);
            engine_reserve(&mut self.index, target).is_ok()
        } else {
            false
        }
    }

    /// Grows the store ahead of `incoming` insertions: if they would fill
    /// it, asks the engine for half as much room again as the vectors held
    /// and coming need. Returns whether the engine was asked and gave it. No
    /// vector is touched.
    pub fn grow_for_batch(&mut self, incoming: usize) -> (grew: bool)
        requires
            old(self).wf(),
        ensures
            final(self).wf(),
            final(self).vectors() == old(self).vectors(),
            final(self).count() == old(self).count(),
            final(self).dimensions() == old(self).dimensions(),
            final(self).capacity() >= old(self).capacity(),
            grew ==> is_tight(old(self).count(), incoming as nat, old(self).capacity()),
            grew ==> final(self).capacity() >= capped(
                grown(old(self).count() + incoming as nat),
            ),
            !grew ==> final(self).capacity() == old(self).capacity(),
    {
        let size = engine_size_of(&self.index);
        let capacity = engine_capacity_of(&self.index);
        if tight(size, incoming, capacity) {
            let target = grown_capacity(size, incoming);
            engine_reserve(&mut self.index, target).is_ok()
        } else {
            false
        }
    }

    /// Tells whether `incoming` more vectors would fill the store.
    pub fn tight_for(&self, incoming: usize) -> (answer: bool)
        ensures
            answer == is_tight(self.count(), incoming as nat, self.capacity()),
    {
        tight(engine_size_of(&self.index), incoming, engine_capacity_of(&self.index))
    }

    /// What became of the room: enough where the store was not tight, and
    /// else grown or refused as the engine gave room or not.
    pub fn room_made(was_tight: bool, grew: bool) -> (room: Room)
        ensures
            room == if !was_tight {
                Room::Enough
            } else if grew {
                Room::Grown
            } else {
                Room::Refused
            },
    {
        if !was_tight {
            Room::Enough
        } else if grew {
            Room::Grown
        } else {
            Room::Refused
        }
    }

    /// Puts `vector` under `label` without looking at its length or at the
    /// room left: takes out what the label held, then hands the vector to
    /// the engine. The step at which the engine refused comes back with its
    /// words.
    fn place(&mut self, label: u64, vector: &[u8]) -> (done: Result<(), (Step, String)>)
        requires
            old(self).wf(),
            old(self).fits(vector@),
            label != FREE_LABEL,
        ensures
            final(self).wf(),
            final(self).dimensions() == old(self).dimensions(),
            final(self).capacity() == old(self).capacity(),
            match done {
                Ok(()) => old(self).placed(label, vector@, *final(self), Ok::<(), VexusError>(())),
                Err((step, reason)) => {
                    &&& step == Step::Remove || step == Step::Add
                    &&& old(self).placed(
                        label,
                        vector@,
                        *final(self),
                        Err::<(), VexusError>(VexusError::Engine { step, reason }),
                    )
                },
            },
    {
        match engine_remove(&mut self.index, label) {
            Err(fault) => Err((Step::Remove, fault_text(&fault))),
            Ok(_) => match engine_add(&mut self.index, label, vector) {
                Err(fault) => Err((Step::Add, fault_text(&fault))),
                Ok(()) => {
                    assert(self.vectors() =~= old(self).vectors().insert(label, vector@));
                    Ok(())
                },
            },
        }
    }

    /// Inserts `vector` under `label`, in place of what the label held: see
    /// `inserted`. Before the engine is given the vector the store grows if
    /// it is tight, whether or not the engine then has the room; what became
    /// of the room is handed back with the success, see `made_room`, so that
    /// a caller can tell a store that could not grow.
    pub fn insert_or_update(&mut self, label: u64, vector: &[u8]) -> (done: Result<
        Room,
        VexusError,
    >)
        requires
            old(self).wf(),
        ensures
            final(self).wf(),
            final(self).count() <= final(self).capacity(),
            final(self).dimensions() == old(self).dimensions(),
            old(self).room_for_one(*final(self)),
            old(self).inserted(label, vector@, *final(self), settled(done)),
            done is Ok ==> old(self).made_room(
                1,
                old(self).target_for_one(),
                *final(self),
                done->Ok_0,
            ),
    {
        if !self.accepts(vector) {
            return Err(
                VexusError::DimensionMismatch { expected: self.dimensions, byte_len: vector.len() },
            );
        }
        if label == FREE_LABEL {
            return Err(VexusError::ReservedLabel);
        }
        let was_tight = self.tight_for(1);
        let grew = self.grow_for_insert();
        match self.place(label, vector) {
            Ok(()) => Ok(Self::room_made(was_tight, grew)),
            Err((step, reason)) => Err(VexusError::Engine { step, reason }),
        }
    }

    /// Inserts `vector` under `id`, in place of what `id` held: see
    /// `insert_or_update`.
    pub fn add(&mut self, id: u32, vector: &[u8]) -> (done: Result<Room, VexusError>)
        requires
            old(self).wf(),
        ensures
            final(self).wf(),
            final(self).count() <= final(self).capacity(),
            final(self).dimensions() == old(self).dimensions(),
            old(self).room_for_one(*final(self)),
            old(self).inserted(id as u64, vector@, *final(self), settled(done)),
            done is Ok ==> old(self).made_room(
                1,
                old(self).target_for_one(),
                *final(self),
                done->Ok_0,
            ),
    {
        self.insert_or_update(id as u64, vector)
    }

    /// Inserts the vectors of a batch, each under the label at its position
    /// and in place of what that label held: see `batch_inserted`.
    ///
    /// `vectors` holds one vector after the other. Before the first goes in
    /// the store grows once if the batch would fill it, whether or not the
    /// engine then has the room. The pairs go in one by one until the engine
    /// refuses one; those that went in before stay.
    pub fn add_batch(&mut self, ids: &[u32], vectors: &[u8]) -> (done: Result<Room, VexusError>)
        requires
            old(self).wf(),
        ensures
            final(self).wf(),
            final(self).count() <= final(self).capacity(),
            final(self).dimensions() == old(self).dimensions(),
            old(self).room_for(ids@.len(), *final(self)),
            old(self).batch_inserted(ids@, vectors@, *final(self), settled(done)),
            done is Ok ==> old(self).made_room(
                ids@.len(),
                old(self).target_for(ids@.len()),
                *final(self),
                done->Ok_0,
            ),
    {
        let count = ids.len();
        let total = vectors.len();
        let width: u64 = SCALAR_BYTES as u64 * (self.dimensions as u64);
        assert(count as u128 * (width as u128) <= 0x1_0000_0000_0000_0000 * 0x4_0000_0000)
            by (nonlinear_arith)
            requires
                count <= 0x1_0000_0000_0000_0000,
                width <= 0x4_0000_0000,
        ;
        if total as u128 != count as u128 * (width as u128) {
            return Err(VexusError::BatchSizeMismatch);
        }
        let was_tight = self.tight_for(count);
        let grew = self.grow_for_batch(count);
        let ghost grown_store = *self;
        let ghost before = old(self).vectors();
        let ghost started = old(self).count();
        let mut i: usize = 0;
        while i < count
            invariant
                i <= count,
                count == ids@.len(),
                width == old(self).width(),
                vectors@.len() == count * width,
                vectors@.len() == total,
                self.wf(),
                self.dimensions() == old(self).dimensions(),
                old(self).room_for(ids@.len(), *self),
                self.capacity() == grown_store.capacity(),
                old(self).tallied() ==> self.tallied(),
                before == old(self).vectors(),
                started == old(self).count(),
                self.vectors() == batch_vectors(before, ids@, vectors@, width as nat, i as nat),
                self.count() == started + batch_fresh(
                    before,
                    ids@,
                    vectors@,
                    width as nat,
                    i as nat,
                ),
            decreases count - i,
        {
            assert((i + 1) * width <= count * width && i * width + width == (i + 1) * width
                && width <= (i + 1) * width) by (nonlinear_arith)
                requires
                    0 <= i < count,
                    0 <= width,
            ;
            let each: usize = width as usize;
            let start: usize = i * each;
            let item = slice_subrange(vectors, start, start + each);
            assert(item@ == batch_item(vectors@, width as nat, i as nat));
            let ghost earlier = *self;
            match self.place(ids[i] as u64, item) {
                Err((step, reason)) => {
                    return Err(VexusError::BatchItem { position: i, step, reason });
                },
                Ok(()) => {
                    proof {
                        if earlier.tallied() {
                            lemma_insert_keeps_tally(earlier, ids@[i as int] as u64, item@, *self);
                        }
                    }
                },
            }
            i += 1;
        }
        Ok(Self::room_made(was_tight, grew))
    }

    /// Takes out the vector under `label`, if there is one: see `unplaced`.
    /// Where there is none, nothing is asked of the engine and nothing
    /// changes.
    pub fn remove_label(&mut self, label: u64) -> (done: Result<(), VexusError>)
        requires
            old(self).wf(),
        ensures
            final(self).wf(),
            final(self).count() <= final(self).capacity(),
            final(self).dimensions() == old(self).dimensions(),
            final(self).capacity() == old(self).capacity(),
            old(self).unplaced(label, *final(self), done),
            !old(self).vectors().contains_key(label) ==> done is Ok && *final(self) == *old(self),
    {
        if !engine_contains(&self.index, label) {
            assert(self.vectors().remove(label) =~= self.vectors());
            return Ok(());
        }
        match engine_remove(&mut self.index, label) {
            Err(fault) => Err(refused(Step::Remove, &fault)),
            Ok(_) => Ok(()),
        }
    }

    /// Takes out the vector under `id`, if there is one: see `unplaced`.
    pub fn remove(&mut self, id: u32) -> (done: Result<(), VexusError>)
        requires
            old(self).wf(),
        ensures
            final(self).wf(),
            final(self).count() <= final(self).capacity(),
            final(self).dimensions() == old(self).dimensions(),
            final(self).capacity() == old(self).capacity(),
            old(self).unplaced(id as u64, *final(self), done),
            !old(self).vectors().contains_key(id as u64) ==> done is Ok && *final(self) == *old(
                self,
            ),
    {
        self.remove_label(id as u64)
    }

    /// The vectors of the store nearest to `query`, at most `k` of them,
    /// each with its distance: see `answered`. Which vectors the engine
    /// names, and how far it finds them, is its own matter.
    pub fn nearest(&self, query: &[u8], k: u32) -> (found: Result<Vec<Neighbor>, VexusError>)
        requires
            self.wf(),
        ensures
            self.answered(query@, k as nat, found),
    {
        if !self.accepts(query) {
            return Err(
                VexusError::DimensionMismatch { expected: self.dimensions, byte_len: query.len() },
            );
        }
        match engine_search(&self.index, query, k as usize) {
            Err(fault) => Err(refused(Step::Search, &fault)),
            Ok((labels, distances)) => {
                let hits = Neighbor::pair(&labels, &distances);
                assert forall|i: int| 0 <= i < hits@.len() implies self.vectors().contains_key(
                    (#[trigger] hits@[i]).label,
                ) by {
                    assert(self.vectors().contains_key(labels@[i]));
                }
                assert(Neighbor::nearest_first(hits@)) by {
                    if forall|i: int|
                        0 <= i < hits@.len() ==> plain_distance((#[trigger] hits@[i]).distance) {
                        assert forall|i: int| 0 <= i < distances@.len() implies plain_distance(
                            #[trigger] distances@[i],
                        ) by {
                            assert(hits@[i].distance == distances@[i]);
                        }
                    }
                }
                Ok(hits)
            },
        }
    }

    /// What a query for at most `k` vectors brings a caller that keeps
    /// labels of 32 bits: what `answered` says, of the low 32 bits of each
    /// label.
    pub open spec fn answered_in_short(
        &self,
        query: Seq<u8>,
        k: nat,
        found: Result<Vec<SearchResult>, VexusError>,
    ) -> bool {
        if self.fits(query) {
            match found {
                Ok(hits) => {
                    &&& hits@ == SearchResult::narrowed(self.answer_to(query, k))
                    &&& hits@.len() <= k
                    &&& forall|i: int|
                        0 <= i < hits@.len() ==> self.holds_label_of((#[trigger] hits@[i]).id)
                    &&& SearchResult::nearest_first(hits@)
                },
                Err(error) => error is Engine && error->Engine_step == Step::Search,
            }
        } else {
            found == Err::<Vec<SearchResult>, VexusError>(self.mismatch(query))
        }
    }

    /// The vectors of the store nearest to `query`, at most `k` of them,
    /// each with its distance and the low 32 bits of its label: the answers
    /// of `nearest`, narrowed. See `answered_in_short`.
    pub fn search(&self, query: &[u8], k: u32) -> (found: Result<Vec<SearchResult>, VexusError>)
        requires
            self.wf(),
        ensures
            self.answered_in_short(query@, k as nat, found),
    {
        match self.nearest(query, k) {
            Err(error) => Err(error),
            Ok(hits) => {
                let results = SearchResult::narrow(&hits);
                assert forall|i: int| 0 <= i < results@.len() implies self.holds_label_of(
                    (#[trigger] results@[i]).id,
                ) by {
                    assert(self.vectors().contains_key(hits@[i].label));
                }
                assert(SearchResult::nearest_first(results@)) by {
                    if forall|i: int|
                        0 <= i < results@.len() ==> plain_distance(
                            (#[trigger] results@[i]).distance,
                        ) {
                        assert forall|i: int| 0 <= i < hits@.len() implies plain_distance(
                            (#[trigger] hits@[i]).distance,
                        ) by {
                            assert(results@[i].distance == hits@[i].distance);
                        }
                        assert forall|i: int, j: int|
                            0 <= i <= j < results@.len() implies results@[i].distance
                            <= results@[j].distance by {
                            assert(hits@[i].distance <= hits@[j].distance);
                        }
                    }
                }
                Ok(results)
            },
        }
    }

    /// Zeros of the length of one vector: what is handed out in place of a
    /// vector that is not there.
    pub fn blank(&self) -> (zeros: Vec<u8>)
        ensures
            zeros@ == Self::zeros(self.width()),
    {
        let each: u64 = SCALAR_BYTES as u64;
        let scalars: u64 = self.dimensions as u64;
        assert(each == 4 && scalars <= u32::MAX);
        let width: u64 = each * scalars;
        let mut zeros: Vec<u8> = Vec::new();
        let mut i: u64 = 0;
        while i < width
            invariant
                i <= width,
                width == self.width(),
                zeros@ == Self::zeros(i as nat),
            decreases width - i,
        {
            zeros.push(0u8);
            i += 1;
            assert(zeros@ =~= Self::zeros(i as nat));
        }
        zeros
    }

    /// The vector under `label`, or zeros of its length if the store holds
    /// none: see `handed_out`. It never fails. A caller that must tell the
    /// two apart asks `contains_label`.
    pub fn vector_of(&self, label: u64) -> (got: Result<Vec<u8>, VexusError>)
        requires
            self.wf(),
        ensures
            self.handed_out(self.vector_or_zeros(label), got),
    {
        if self.dimensions == 0 {
            return Ok(Vec::new());
        }
        match engine_get(&self.index, label, self.dimensions as usize) {
            Err(fault) => Err(refused(Step::Get, &fault)),
            Ok((written, room)) => {
                if written > 0 {
                    Ok(room)
                } else {
                    Ok(self.blank())
                }
            },
        }
    }

    /// The vector under `id`, or zeros of its length if the store holds
    /// none: see `vector_of`.
    pub fn get(&self, id: u32) -> (got: Result<Vec<u8>, VexusError>)
        requires
            self.wf(),
        ensures
            self.handed_out(self.vector_or_zeros(id as u64), got),
    {
        self.vector_of(id as u64)
    }

    /// The vectors under `ids`, one after the other in the order asked,
    /// with zeros in the place of each that the store does not hold, so that
    /// every label finds its vector at its own position: see `handed_out`.
    /// It never fails.
    pub fn get_batch(&self, ids: &[u32]) -> (got: Result<Vec<u8>, VexusError>)
        requires
            self.wf(),
        ensures
            self.handed_out(self.gathered(ids@, ids@.len()), got),
    {
        let mut vectors: Vec<u8> = Vec::new();
        if self.dimensions == 0 {
            return Ok(vectors);
        }
        let mut i: usize = 0;
        while i < ids.len()
            invariant
                i <= ids@.len(),
                self.wf(),
                self.dimensions() > 0,
                vectors@ == self.gathered(ids@, i as nat),
            decreases ids@.len() - i,
        {
            match self.get(ids[i]) {
                Err(error) => {
                    return Err(error);
                },
                Ok(vector) => {
                    let mut vector = vector;
                    vectors.append(&mut vector);
                },
            }
            i += 1;
        }
        Ok(vectors)
    }

    /// Whether `image` is an image that the store `self` wrote of itself:
    /// it holds the store's vectors.
    pub open spec fn pictured(&self, image: Seq<u8>) -> bool {
        &&& image_written(image)
        &&& image_vectors(image) == self.vectors()
    }

    /// Tells whether the store is small enough for an image.
    pub fn can_be_pictured(&self) -> (ok: bool)
        requires
            self.wf(),
        ensures
            ok == self.fits_image(),
    {
        let each: u64 = SCALAR_BYTES as u64;
        let scalars: u64 = self.dimensions as u64;
        assert(each == 4 && scalars <= u32::MAX);
        each * scalars <= u32::MAX as u64 && engine_capacity_of(&self.index) as u64
            <= u32::MAX as u64
    }

    /// Takes an image of the store: the bytes from which `load` makes a
    /// store with the same vectors. It fails for a store that is too large
    /// for an image, and for no other.
    pub fn image(&self) -> (taken: Result<Vec<u8>, VexusError>)
        requires
            self.wf(),
        ensures
            match taken {
                Ok(image) => self.fits_image() && self.pictured(image@),
                Err(error) => !self.fits_image() && error == VexusError::ImageTooLarge,
            },
    {
        if !self.can_be_pictured() {
            return Err(VexusError::ImageTooLarge);
        }
        let length = engine_serialized_length(&self.index);
        match engine_save(&self.index, length) {
            Err(fault) => Err(refused(Step::Save, &fault)),
            Ok(image) => Ok(image),
        }
    }

    /// Takes an image of the store and lays out the steps that put it at
    /// `index_path`. The image holds the store's vectors. It fails for a
    /// store that is too large for an image, and for no other.
    pub fn save(&self, index_path: &str) -> (saved: Result<Vec<FileStep>, VexusError>)
        requires
            self.wf(),
        ensures
            match saved {
                Ok(steps) => {
                    &&& self.fits_image()
                    &&& exists|image: Seq<u8>|
                        {
                            &&& #[trigger] self.pictured(image)
                            &&& views(steps@) == replacing(index_path@, image)
                        }
                },
                Err(error) => !self.fits_image() && error == VexusError::ImageTooLarge,
            },
    {
        match self.image() {
            Err(error) => Err(error),
            Ok(image) => Ok(replace_file(index_path, image)),
        }
    }

    /// What reading the store `self` back from its own image makes, with
    /// room for at least `capacity` vectors: a store with the same vectors.
    /// The copy counts one vector for each label, and so counts what this
    /// store counts if this one does too.
    pub open spec fn mirrored(&self, copy: VexusIndex, capacity: u32) -> bool {
        &&& copy.vectors() == self.vectors()
        &&& copy.tallied()
        &&& self.tallied() ==> copy.count() == self.count()
        &&& copy.dimensions() == self.dimensions()
        &&& copy.capacity() >= capacity
        &&& copy.capacity() >= copy.count()
    }

    /// Makes a second store of this one's vectors, with room for at least
    /// `capacity` of them: takes an image of the store and reads it back.
    /// See `mirrored`. A store that is too large for an image has no second;
    /// any other has one unless `load` fails.
    pub fn duplicate(&self, capacity: u32) -> (made: Result<VexusIndex, VexusError>)
        requires
            self.wf(),
        ensures
            !self.fits_image() <==> made matches Err(VexusError::ImageTooLarge),
            match made {
                Ok(copy) => copy.wf() && self.mirrored(copy, capacity),
                Err(VexusError::ImageTooLarge) => true,
                Err(VexusError::Construction { step, .. }) => {
                    step == Step::Create || step == Step::Reserve
                },
                Err(VexusError::Engine { step, .. }) => step == Step::Load,
                Err(VexusError::ImageMismatch) => true,
                Err(_) => false,
            },
    {
        match self.image() {
            Err(error) => Err(error),
            Ok(image) => VexusIndex::load(image.as_slice(), self.dimensions, capacity),
        }
    }

    /// A run, not yet begun, that refills a store from the table at
    /// `db_path`: from the rows of `table_type`, narrowed to one diary where
    /// `filter_diary_name` names it.
    pub fn recover_from_sqlite(
        &self,
        db_path: String,
        table_type: String,
        filter_diary_name: Option<String>,
    ) -> (task: RecoverTask)
        ensures
            task.db_path()@ == db_path@,
            task.table_type()@ == table_type@,
            name_of(task.filter_diary_name()) == name_of(filter_diary_name),
            *task.state() == RecoveryState::Idle,
            task.report() == RecoveryReport::none(),
    {
        RecoverTask::new(db_path, table_type, filter_diary_name)
    }
}

/// The figures of a store made for `dim` dimensions with room for
/// `capacity` vectors show those dimensions and at least that room.
pub proof fn lemma_fresh_figures(store: VexusIndex, stats: VexusStats, dim: u32, capacity: u32)
    requires
        store.dimensions() == dim,
        store.capacity() >= capacity,
        stats.dimensions == store.dimensions(),
        stats.capacity == figure(store.capacity()),
    ensures
        stats.dimensions == dim,
        stats.capacity >= capacity,
{
}

/// A store that was tight and was given room ahead of an insertion has
/// more room than before, and room for what it counts: at least half as
/// much again as it had, as far as a number can say. Only a store without
/// any room, or with all that can be counted, gains none.
pub proof fn lemma_grown_store_has_more_room(before: VexusIndex, after: VexusIndex)
    requires
        after.wf(),
        before.made_room(1, before.target_for_one(), after, Room::Grown),
    ensures
        is_tight(before.count(), 1, before.capacity()),
        after.capacity() >= capped(grown(before.capacity())),
        after.capacity() >= after.count(),
        0 < before.capacity() < usize::MAX ==> after.capacity() > before.capacity(),
{
    after.lemma_counts_within_room();
}

/// A vector of the wrong length never changes the number of vectors in a
/// store: the store that turned it away is the store that was.
pub proof fn lemma_misfit_changes_nothing(
    before: VexusIndex,
    label: u64,
    vector: Seq<u8>,
    after: VexusIndex,
    done: Result<(), VexusError>,
)
    requires
        vector.len() != SCALAR_BYTES * before.dimensions(),
        before.inserted(label, vector, after, done),
    ensures
        done is Err,
        done->Err_0 is DimensionMismatch,
        after.count() == before.count(),
        after.vectors() == before.vectors(),
{
}

/// A store read from the image of another holds the vectors of the other,
/// under every label the same vector or none in both. It counts as many
/// where the other counts one vector for each label.
pub proof fn lemma_image_restores(
    saved: VexusIndex,
    image: Seq<u8>,
    loaded: VexusIndex,
    capacity: u32,
)
    requires
        saved.pictured(image),
        loaded.restored(image, capacity),
        loaded.dimensions() == saved.dimensions(),
    ensures
        loaded.vectors() == saved.vectors(),
        loaded.tallied(),
        saved.tallied() ==> loaded.count() == saved.count(),
        forall|label: u64| loaded.vector_or_zeros(label) == saved.vector_or_zeros(label),
{
}

/// A store that counts one vector for each label still does so after a
/// vector went in: the count rises by one for a label that is new, and not
/// at all for one that was there.
pub proof fn lemma_insert_keeps_tally(
    before: VexusIndex,
    label: u64,
    vector: Seq<u8>,
    after: VexusIndex,
)
    requires
        before.tallied(),
        before.placed(label, vector, after, Ok::<(), VexusError>(())),
    ensures
        after.tallied(),
        after.count() == before.count() + if before.vectors().contains_key(label) {
            0nat
        } else {
            1nat
        },
{
    broadcast use vstd::map::group_map_axioms, vstd::set::group_set_axioms;

    assert(after.vectors().dom() =~= before.vectors().dom().insert(label));
}

/// A store that counts one vector for each label still does so after a
/// vector was taken out.
pub proof fn lemma_remove_keeps_tally(before: VexusIndex, label: u64, after: VexusIndex)
    requires
        before.tallied(),
        before.unplaced(label, after, Ok::<(), VexusError>(())),
    ensures
        after.tallied(),
{
    broadcast use vstd::map::group_map_axioms, vstd::set::group_set_axioms;

    assert(after.vectors().dom() =~= before.vectors().dom().remove(label));
}

/// Between two states of a store that counts one vector for each label,
/// the count rises by the number of labels that are new, however often
/// each of them came: where the later state holds the labels of the earlier
/// one and `fresh` others, it counts that many more.
pub proof fn lemma_tally_counts_distinct_labels(
    before: VexusIndex,
    after: VexusIndex,
    fresh: Set<u64>,
)
    requires
        before.tallied(),
        after.tallied(),
        fresh.finite(),
        fresh.disjoint(before.vectors().dom()),
        after.vectors().dom() == before.vectors().dom().union(fresh),
    ensures
        after.count() == before.count() + fresh.len(),
{
    vstd::set_lib::lemma_set_disjoint_lens(before.vectors().dom(), fresh);
}

/// After the first `upto` pairs of a batch went in, a store holds the labels
/// it held and the labels of those pairs, and no other; they are finitely
/// many.
pub proof fn lemma_batch_labels(
    before: Map<u64, Seq<u8>>,
    ids: Seq<u32>,
    vectors: Seq<u8>,
    width: nat,
    upto: nat,
)
    requires
        upto <= ids.len(),
    ensures
        batch_labels(ids, upto).finite(),
        batch_vectors(before, ids, vectors, width, upto).dom() == before.dom().union(
            batch_labels(ids, upto),
        ),
    decreases upto,
{
    broadcast use vstd::map::group_map_axioms, vstd::set::group_set_axioms;

    if upto == 0 {
        assert(batch_labels(ids, 0) =~= Set::empty());
        assert(before.dom().union(batch_labels(ids, 0)) =~= before.dom());
    } else {
        let last = (upto - 1) as nat;
        lemma_batch_labels(before, ids, vectors, width, last);
        let label = ids[last as int] as u64;
        assert forall|other: u64| batch_labels(ids, upto).contains(other) implies batch_labels(
            ids,
            last,
        ).insert(label).contains(other) by {
            let i = choose|i: int| 0 <= i < upto && (#[trigger] ids[i]) as u64 == other;
            if i < last {
                assert(batch_labels(ids, last).contains(other));
            }
        }
        assert forall|other: u64| batch_labels(ids, last).insert(label).contains(
            other,
        ) implies batch_labels(ids, upto).contains(other) by {
            if other == label {
                assert(ids[last as int] as u64 == other);
            } else {
                let i = choose|i: int| 0 <= i < last && (#[trigger] ids[i]) as u64 == other;
                assert(ids[i] as u64 == other);
            }
        }
        assert(batch_labels(ids, upto) =~= batch_labels(ids, last).insert(label));
        assert(batch_vectors(before, ids, vectors, width, upto).dom() =~= before.dom().union(
            batch_labels(ids, upto),
        ));
    }
}

/// A batch of any length adds one to the count for each label that is new,
/// however often a label comes in it: a store that counts one vector for
/// each label counts, after the batch went in, as many more as the batch
/// has labels that the store did not hold.
pub proof fn lemma_batch_counts_distinct_labels(
    before: VexusIndex,
    ids: Seq<u32>,
    vectors: Seq<u8>,
    after: VexusIndex,
)
    requires
        before.tallied(),
        before.batch_placed(ids, vectors, after, Ok::<(), VexusError>(())),
    ensures
        after.tallied(),
        after.count() == before.count() + batch_labels(ids, ids.len()).difference(
            before.vectors().dom(),
        ).len(),
{
    broadcast use vstd::map::group_map_axioms, vstd::set::group_set_axioms;

    lemma_batch_labels(before.vectors(), ids, vectors, before.width(), ids.len());
    let labels = batch_labels(ids, ids.len());
    let fresh = labels.difference(before.vectors().dom());
    vstd::set_lib::lemma_len_difference(labels, before.vectors().dom());
    assert(fresh.finite());
    assert(before.vectors().dom().union(fresh) =~= before.vectors().dom().union(labels));
    lemma_tally_counts_distinct_labels(before, after, fresh);
}

} // verus!
