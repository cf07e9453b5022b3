//! The nearest-neighbour engine, `usearch::Index`, as this library sees it.
//!
//! Nothing in this file is proved. Each function hands its arguments to one
//! method of the engine, and its contract records what that method is known
//! to do. Vectors cross this boundary as bytes, four for each 32-bit scalar
//! in the machine's byte order, and distances as the bit patterns of their
//! 32-bit scalars.
use vstd::prelude::*;

verus! {

#[verifier::external_type_specification]
#[verifier::external_body]
pub struct ExIndex(usearch::Index);

#[verifier::external_type_specification]
#[verifier::external_body]
pub struct ExException(cxx::Exception);

/// The vector that the engine holds under each label, as bytes.
pub uninterp spec fn engine_vectors(index: usearch::Index) -> Map<u64, Seq<u8>>;

/// The number of vectors that the engine counts as its own.
pub uninterp spec fn engine_size(index: usearch::Index) -> nat;

/// The limit that the last reservation set: the number of vectors beyond
/// which the engine takes no more until it is given room again.
pub uninterp spec fn engine_capacity(index: usearch::Index) -> nat;

/// The number of scalars in each vector of the engine.
pub uninterp spec fn engine_dimensions(index: usearch::Index) -> nat;

/// Whether the engine keeps each vector as the 32-bit scalars it was given.
pub uninterp spec fn engine_exact(index: usearch::Index) -> bool;

/// Whether the engine takes several vectors under one label.
pub uninterp spec fn engine_multi(index: usearch::Index) -> bool;

/// Whether no label has more than one vector in the engine.
pub uninterp spec fn engine_single(index: usearch::Index) -> bool;

/// What the engine answers to a query for `count` vectors: labels and,
/// beside each, its distance from the query. It is the engine's own matter,
/// but the same for the same engine, query and count.
pub uninterp spec fn engine_found(index: usearch::Index, query: Seq<u8>, count: nat) -> (
    Seq<u64>,
    Seq<u32>,
);

/// The length of the image that the engine writes of itself.
pub uninterp spec fn engine_image_length(index: usearch::Index) -> nat;

/// Whether the bytes are an image that an engine wrote of itself. No other
/// bytes may be given to an engine to read.
pub uninterp spec fn image_written(image: Seq<u8>) -> bool;

/// The vectors that a saved image of an engine holds.
pub uninterp spec fn image_vectors(image: Seq<u8>) -> Map<u64, Seq<u8>>;

/// The limit with which an engine comes out of reading a saved image: the
/// image brings room for the places it holds, and no more.
pub uninterp spec fn image_capacity(image: Seq<u8>) -> nat;

/// What no operation on an existing engine changes: the length of its
/// vectors, the way it keeps them, how many it takes under one label, and
/// whether any label has more than one.
pub open spec fn same_kind(before: usearch::Index, after: usearch::Index) -> bool {
    &&& engine_dimensions(after) == engine_dimensions(before)
    &&& engine_exact(after) == engine_exact(before)
    &&& engine_multi(after) == engine_multi(before)
    &&& engine_single(after) == engine_single(before)
}

/// Whether the bits are those of a distance that is zero or more, infinity
/// included. Among such distances the greater has the greater bits.
pub open spec fn plain_distance(bits: u32) -> bool {
    bits <= 0x7F80_0000
}

/// Whether the distances come smallest first, as far as that can be told
/// from their bits: it can where each of them is zero or more.
pub open spec fn smallest_first(distances: Seq<u32>) -> bool {
    (forall|i: int| 0 <= i < distances.len() ==> plain_distance(#[trigger] distances[i]))
        ==> forall|i: int, j: int|
        0 <= i <= j < distances.len() ==> distances[i] <= distances[j]
}

/// The one label under which the engine takes no vector: it marks with it
/// the places of vectors that were taken out.
pub const FREE_LABEL: u64 = u64::MAX;

/// The map without any label.
pub open spec fn no_vectors() -> Map<u64, Seq<u8>> {
    Map::empty()
}

/// `usearch::Index::new`, for squared Euclidean distance over 32-bit
/// scalars with one vector for each label. An engine that comes back is
/// empty, has the dimensions asked for and keeps vectors as given.
#[verifier::external_body]
pub(crate) fn engine_new(
    dimensions: usize,
    connectivity: usize,
    expansion_add: usize,
    expansion_search: usize,
) -> (made: Result<usearch::Index, cxx::Exception>)
    ensures
        made is Ok ==> engine_vectors(made->Ok_0) == no_vectors(),
        made is Ok ==> engine_size(made->Ok_0) == 0,
        made is Ok ==> engine_dimensions(made->Ok_0) == dimensions,
        made is Ok ==> engine_exact(made->Ok_0),
        made is Ok ==> !engine_multi(made->Ok_0),
        made is Ok ==> engine_single(made->Ok_0),
{
    usearch::Index::new(&usearch::IndexOptions {
        dimensions,
        metric: usearch::MetricKind::L2sq,
        quantization: usearch::ScalarKind::F32,
        connectivity,
        expansion_add,
        expansion_search,
        multi: false,
    })
}

/// `usearch::Index::reserve`. It never drops a vector and never lowers the
/// limit; where it succeeds the limit is at least the one asked for, and
/// where it fails the limit is what it was.
#[verifier::external_body]
pub(crate) fn engine_reserve(index: &mut usearch::Index, capacity: usize) -> (done: Result<
    (),
    cxx::Exception,
>)
    ensures
        engine_vectors(*final(index)) == engine_vectors(*old(index)),
        engine_size(*final(index)) == engine_size(*old(index)),
        engine_capacity(*final(index)) >= engine_capacity(*old(index)),
        same_kind(*old(index), *final(index)),
        done is Ok ==> engine_capacity(*final(index)) >= capacity,
        done is Err ==> engine_capacity(*final(index)) == engine_capacity(*old(index)),
{
    index.reserve(capacity)
}

/// `usearch::Index::size`.
#[verifier::external_body]
pub(crate) fn engine_size_of(index: &usearch::Index) -> (size: usize)
    ensures
        size == engine_size(*index),
{
    index.size()
}

/// `usearch::Index::capacity`.
#[verifier::external_body]
pub(crate) fn engine_capacity_of(index: &usearch::Index) -> (capacity: usize)
    ensures
        capacity == engine_capacity(*index),
{
    index.capacity()
}

/// `usearch::Index::dimensions`.
#[verifier::external_body]
pub(crate) fn engine_dimensions_of(index: &usearch::Index) -> (dimensions: usize)
    ensures
        dimensions == engine_dimensions(*index),
{
    index.dimensions()
}

/// `usearch::Index::memory_usage`. The figure depends on what the allocator
/// did, so nothing is said of it.
#[verifier::external_body]
pub(crate) fn engine_memory_usage(index: &usearch::Index) -> (bytes: usize) {
    index.memory_usage()
}

/// `usearch::Index::scalar_kind`: whether the engine keeps 32-bit scalars.
#[verifier::external_body]
pub(crate) fn engine_keeps_scalars(index: &usearch::Index) -> (kept: bool)
    ensures
        kept == engine_exact(*index),
{
    match index.scalar_kind() {
        usearch::ScalarKind::F32 => true,
        _ => false,
    }
}

/// `usearch::Index::multi`.
#[verifier::external_body]
pub(crate) fn engine_multi_of(index: &usearch::Index) -> (multi: bool)
    ensures
        multi == engine_multi(*index),
{
    index.multi()
}

/// `usearch::Index::add`, on a label that the engine does not hold and does
/// not keep for itself. Where it succeeds the engine holds the vector under
/// the label and counts one more. Where it fails the engine holds what it
/// held; it counts what it counted, or one more where it had taken a place
/// for the vector before it failed. Either way it counts no more than it
/// has room for.
#[verifier::external_body]
pub(crate) fn engine_add(index: &mut usearch::Index, key: u64, vector: &[u8]) -> (done: Result<
    (),
    cxx::Exception,
>)
    requires
        engine_exact(*old(index)),
        key != FREE_LABEL,
        !engine_vectors(*old(index)).contains_key(key),
        vector@.len() % 4 == 0,
    ensures
        engine_capacity(*final(index)) == engine_capacity(*old(index)),
        same_kind(*old(index), *final(index)),
        done is Ok ==> engine_vectors(*final(index)) == engine_vectors(*old(index)).insert(
            key,
            vector@,
        ),
        done is Ok ==> engine_size(*final(index)) == engine_size(*old(index)) + 1,
        done is Err ==> engine_vectors(*final(index)) == engine_vectors(*old(index)),
        done is Err ==> engine_size(*old(index)) <= engine_size(*final(index)),
        done is Err ==> engine_size(*final(index)) <= engine_size(*old(index)) + 1,
        engine_size(*final(index)) <= engine_capacity(*final(index)),
{
    let scalars: Vec<usearch::Distance> = vector.chunks_exact(4).map(
        |c| usearch::Distance::from_ne_bytes([c[0], c[1], c[2], c[3]]),
    ).collect();
    index.add(key, &scalars)
}

/// `usearch::Index::remove`. It returns how many vectors it took out, which
/// is none exactly when the engine did not hold the label, and no more than
/// one where no label has more than one vector.
#[verifier::external_body]
pub(crate) fn engine_remove(index: &mut usearch::Index, key: u64) -> (done: Result<
    usize,
    cxx::Exception,
>)
    ensures
        engine_capacity(*final(index)) == engine_capacity(*old(index)),
        same_kind(*old(index), *final(index)),
        done is Ok ==> engine_vectors(*final(index)) == engine_vectors(*old(index)).remove(key),
        done is Ok ==> engine_size(*final(index)) + done->Ok_0 == engine_size(*old(index)),
        done is Ok ==> (done->Ok_0 > 0 <==> engine_vectors(*old(index)).contains_key(key)),
        done is Ok && engine_single(*old(index)) ==> done->Ok_0 <= 1,
        done is Err ==> engine_vectors(*final(index)) == engine_vectors(*old(index)),
        done is Err ==> engine_size(*final(index)) == engine_size(*old(index)),
{
    index.remove(key)
}

/// `usearch::Index::contains`.
#[verifier::external_body]
pub(crate) fn engine_contains(index: &usearch::Index, key: u64) -> (held: bool)
    ensures
        held == engine_vectors(*index).contains_key(key),
{
    index.contains(key)
}

/// `usearch::Index::search`: labels and, beside each, its distance from the
/// query, as the engine answers this query for this count. There are at
/// most `count` of them, the engine holds each label, and the distances
/// come smallest first. Which labels come back is the engine's own matter.
#[verifier::external_body]
pub(crate) fn engine_search(index: &usearch::Index, query: &[u8], count: usize) -> (found:
    Result<(Vec<u64>, Vec<u32>), cxx::Exception>)
    requires
        query@.len() % 4 == 0,
    ensures
        found is Ok ==> found->Ok_0.0@.len() == found->Ok_0.1@.len(),
        found is Ok ==> found->Ok_0.0@.len() <= count,
        found is Ok ==> forall|i: int|
            0 <= i < found->Ok_0.0@.len() ==> engine_vectors(*index).contains_key(
                #[trigger] found->Ok_0.0@[i],
            ),
        found is Ok ==> smallest_first(found->Ok_0.1@),
        found is Ok ==> (found->Ok_0.0@, found->Ok_0.1@) == engine_found(
            *index,
            query@,
            count as nat,
        ),
{
    let scalars: Vec<usearch::Distance> = query.chunks_exact(4).map(
        |c| usearch::Distance::from_ne_bytes([c[0], c[1], c[2], c[3]]),
    ).collect();
    let matches = index.search(&scalars, count)?;
    Ok((matches.keys, matches.distances.iter().map(|d| d.to_bits()).collect()))
}

/// `usearch::Index::get`, with room for one vector of the engine's
/// dimensions, which the engine never refuses. It returns how many vectors
/// it wrote, which is none exactly when the engine does not hold the label,
/// and the bytes of the room, which then hold the vector.
#[verifier::external_body]
pub(crate) fn engine_get(index: &usearch::Index, key: u64, scalars: usize) -> (got: Result<
    (usize, Vec<u8>),
    cxx::Exception,
>)
    requires
        engine_exact(*index),
        scalars == engine_dimensions(*index),
        scalars > 0,
    ensures
        got is Ok,
        got is Ok ==> got->Ok_0.1@.len() == 4 * scalars,
        got is Ok ==> (got->Ok_0.0 > 0 <==> engine_vectors(*index).contains_key(key)),
        got is Ok && got->Ok_0.0 > 0 ==> got->Ok_0.1@ == engine_vectors(*index)[key],
{
    let mut room: Vec<usearch::Distance> = vec![Default::default(); scalars];
    let written = index.get(key, &mut room)?;
    Ok((written, room.iter().flat_map(|x| x.to_ne_bytes()).collect()))
}

/// `usearch::Index::serialized_length`: the length of the image that the
/// engine writes of itself.
#[verifier::external_body]
pub(crate) fn engine_serialized_length(index: &usearch::Index) -> (length: usize)
    ensures
        length == engine_image_length(*index),
{
    index.serialized_length()
}

/// `usearch::Index::save_to_buffer`, into a buffer of `length` bytes, of an
/// engine whose number of places and whose bytes in one vector each fit in
/// 32 bits: that is how the image says them. It succeeds where the buffer
/// is long enough for the image. An image that comes back is one that an
/// engine wrote, and holds the vectors of the engine.
#[verifier::external_body]
pub(crate) fn engine_save(index: &usearch::Index, length: usize) -> (saved: Result<
    Vec<u8>,
    cxx::Exception,
>)
    requires
        4 * engine_dimensions(*index) <= u32::MAX,
        engine_capacity(*index) <= u32::MAX,
    ensures
        length >= engine_image_length(*index) ==> saved is Ok,
        saved is Ok ==> saved->Ok_0@.len() == length,
        saved is Ok ==> image_written(saved->Ok_0@),
        saved is Ok ==> image_vectors(saved->Ok_0@) == engine_vectors(*index),
{
    let mut image = vec![0u8; length];
    index.save_to_buffer(&mut image)?;
    Ok(image)
}

/// `usearch::Index::load_from_buffer`, of an image that an engine wrote:
/// the engine's reader takes much of what it reads on faith. Where it
/// succeeds the engine holds the vectors of the image and has the room that
/// the image brings, which is room for what it counts. Where it then takes
/// one vector under a label, no label has more than one: no engine that
/// takes one lets a second in. It then counts one vector for each label.
/// Its dimensions and scalars are those of the image too, and are read from
/// the engine afterwards.
#[verifier::external_body]
pub(crate) fn engine_load(index: &mut usearch::Index, image: &[u8]) -> (done: Result<
    (),
    cxx::Exception,
>)
    requires
        image_written(image@),
    ensures
        done is Ok ==> engine_vectors(*final(index)) == image_vectors(image@),
        done is Ok ==> engine_vectors(*final(index)).dom().finite(),
        done is Ok && engine_single(*final(index)) ==> engine_size(*final(index))
            == engine_vectors(*final(index)).len(),
        done is Ok ==> engine_capacity(*final(index)) == image_capacity(image@),
        done is Ok && !engine_multi(*final(index)) ==> engine_single(*final(index)),
        done is Ok ==> engine_size(*final(index)) <= engine_capacity(*final(index)),
{
    index.load_from_buffer(image)
}

/// `cxx::Exception::what`: the engine's own words for a failure.
#[verifier::external_body]
pub(crate) fn fault_text(fault: &cxx::Exception) -> (text: String) {
    fault.what().to_string()
}

} // verus!
