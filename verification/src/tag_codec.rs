//! The bytes of a mapping between tags and labels.
//!
//! A mapping is written as the number of its pairs and then the pairs in
//! their order. Each pair is its label, the length of its tag in bytes, and
//! the tag in UTF-8. Every number takes eight bytes, lowest first. The label
//! that the next new tag gets is not written: it is the label after the
//! highest one written, or zero for a mapping without pairs.
use crate::tags::TagMapView;
use vstd::bytes::{
    lemma_auto_spec_u64_to_from_le_bytes, spec_u64_from_le_bytes, spec_u64_to_le_bytes,
};
use vstd::prelude::*;
use vstd::utf8::{encode_utf8, encode_utf8_decode_utf8};

verus! {

/// The bytes of one pair.
pub open spec fn entry_bytes(entry: (Seq<char>, u64)) -> Seq<u8> {
    spec_u64_to_le_bytes(entry.1) + spec_u64_to_le_bytes(encode_utf8(entry.0).len() as u64)
        + encode_utf8(entry.0)
}

/// The bytes of pairs, one after the other.
pub open spec fn entries_bytes(entries: Seq<(Seq<char>, u64)>) -> Seq<u8>
    decreases entries.len(),
{
    if entries.len() == 0 {
        Seq::empty()
    } else {
        entry_bytes(entries[0]) + entries_bytes(entries.drop_first())
    }
}

/// The bytes of a mapping with these pairs.
pub open spec fn map_bytes(entries: Seq<(Seq<char>, u64)>) -> Seq<u8> {
    spec_u64_to_le_bytes(entries.len() as u64) + entries_bytes(entries)
}

/// The label after the highest among the pairs, or zero if there is no
/// pair.
pub open spec fn next_after(entries: Seq<(Seq<char>, u64)>) -> nat
    decreases entries.len(),
{
    if entries.len() == 0 {
        0
    } else {
        let before = next_after(entries.drop_last());
        let own = (entries.last().1 + 1) as nat;
        if own > before {
            own
        } else {
            before
        }
    }
}

/// Whether the pairs can be written: their number and the length of each
/// tag fit in 64 bits.
pub open spec fn writable(entries: Seq<(Seq<char>, u64)>) -> bool {
    &&& entries.len() <= u64::MAX
    &&& forall|i: int|
        0 <= i < entries.len() ==> encode_utf8((#[trigger] entries[i]).0).len() <= u64::MAX
}

/// Whether the pairs are those of a mapping that can be written and read
/// back: no tag and no label occurs twice, and a label is left over for the
/// next tag.
pub open spec fn restorable(entries: Seq<(Seq<char>, u64)>) -> bool {
    &&& writable(entries)
    &&& (TagMapView { entries, next: next_after(entries) }).wf()
}

/// Whether `bytes` are a mapping with these pairs, written out, and the
/// pairs are such as can be read back.
pub open spec fn spells(bytes: Seq<u8>, entries: Seq<(Seq<char>, u64)>) -> bool {
    restorable(entries) && bytes == map_bytes(entries)
}

/// Whether `bytes` are no mapping that can be read back, whatever its
/// pairs.
pub open spec fn spells_nothing(bytes: Seq<u8>) -> bool {
    forall|entries: Seq<(Seq<char>, u64)>| !#[trigger] spells(bytes, entries)
}

/// Every label among the pairs is below the label after the highest.
pub proof fn lemma_next_after_above(entries: Seq<(Seq<char>, u64)>)
    ensures
        forall|i: int| 0 <= i < entries.len() ==> (#[trigger] entries[i]).1 < next_after(entries),
    decreases entries.len(),
{
    if entries.len() > 0 {
        lemma_next_after_above(entries.drop_last());
        assert forall|i: int| 0 <= i < entries.len() implies (#[trigger] entries[i]).1
            < next_after(entries) by {
            if i < entries.len() - 1 {
                assert(entries.drop_last()[i] == entries[i]);
            }
        }
    }
}

/// The label after the highest is no more than any bound above all labels.
pub proof fn lemma_next_after_below(entries: Seq<(Seq<char>, u64)>, bound: nat)
    requires
        forall|i: int| 0 <= i < entries.len() ==> (#[trigger] entries[i]).1 < bound,
    ensures
        next_after(entries) <= bound,
    decreases entries.len(),
{
    if entries.len() > 0 {
        assert forall|i: int| 0 <= i < entries.drop_last().len() implies (
        #[trigger] entries.drop_last()[i]).1 < bound by {
            assert(entries.drop_last()[i] == entries[i]);
        }
        lemma_next_after_below(entries.drop_last(), bound);
        assert(entries[entries.len() - 1].1 < bound);
    }
}

/// The bytes of two runs of pairs, one behind the other, are the bytes of
/// the first and then those of the second.
pub proof fn lemma_entries_bytes_concat(
    first: Seq<(Seq<char>, u64)>,
    second: Seq<(Seq<char>, u64)>,
)
    ensures
        entries_bytes(first + second) == entries_bytes(first) + entries_bytes(second),
    decreases first.len(),
{
    if first.len() == 0 {
        assert(first + second =~= second);
        assert(entries_bytes(first) + entries_bytes(second) =~= entries_bytes(second));
    } else {
        let all = first + second;
        assert(all[0] == first[0]);
        assert(all.drop_first() =~= first.drop_first() + second);
        lemma_entries_bytes_concat(first.drop_first(), second);
        assert(entries_bytes(all) =~= entries_bytes(first) + entries_bytes(second));
    }
}

/// The bytes of pairs with one more behind them.
pub proof fn lemma_entries_bytes_push(entries: Seq<(Seq<char>, u64)>, entry: (Seq<char>, u64))
    ensures
        entries_bytes(entries.push(entry)) == entries_bytes(entries) + entry_bytes(entry),
{
    let one = seq![entry];
    assert(one.drop_first() =~= Seq::empty());
    assert(entries_bytes(one.drop_first()) =~= Seq::empty());
    assert(entries_bytes(one) =~= entry_bytes(entry));
    assert(entries.push(entry) =~= entries + one);
    lemma_entries_bytes_concat(entries, one);
}

/// What can be read off bytes that begin with a pair: its label in the
/// first eight, the length of its tag in the next eight, then the tag, and
/// behind it what followed the pair.
pub proof fn lemma_entry_read(entry: (Seq<char>, u64), rest: Seq<u8>)
    requires
        encode_utf8(entry.0).len() <= u64::MAX,
    ensures
        ({
            let bytes = entry_bytes(entry) + rest;
            let length = encode_utf8(entry.0).len() as int;
            &&& bytes.len() == 16 + length + rest.len()
            &&& spec_u64_from_le_bytes(bytes.subrange(0, 8)) == entry.1
            &&& spec_u64_from_le_bytes(bytes.subrange(8, 16)) == length
            &&& bytes.subrange(16, 16 + length) == encode_utf8(entry.0)
            &&& bytes.skip(16 + length) == rest
        }),
{
    lemma_auto_spec_u64_to_from_le_bytes();
    let bytes = entry_bytes(entry) + rest;
    let length = encode_utf8(entry.0).len() as int;
    assert(bytes.subrange(0, 8) =~= spec_u64_to_le_bytes(entry.1));
    assert(bytes.subrange(8, 16) =~= spec_u64_to_le_bytes(length as u64));
    assert(bytes.subrange(16, 16 + length) =~= encode_utf8(entry.0));
    assert(bytes.skip(16 + length) =~= rest);
}

/// Two runs of as many pairs with the same bytes are the same run.
pub proof fn lemma_entries_bytes_injective(
    first: Seq<(Seq<char>, u64)>,
    second: Seq<(Seq<char>, u64)>,
)
    requires
        writable(first),
        writable(second),
        first.len() == second.len(),
        entries_bytes(first) == entries_bytes(second),
    ensures
        first == second,
    decreases first.len(),
{
    if first.len() == 0 {
        assert(first =~= second);
    } else {
        let a = first[0];
        let b = second[0];
        let rest_a = entries_bytes(first.drop_first());
        let rest_b = entries_bytes(second.drop_first());
        lemma_entry_read(a, rest_a);
        lemma_entry_read(b, rest_b);
        encode_utf8_decode_utf8(a.0);
        encode_utf8_decode_utf8(b.0);
        assert(a.1 == b.1);
        assert(encode_utf8(a.0) == encode_utf8(b.0));
        assert(a.0 == b.0);
        assert(rest_a == rest_b);
        assert forall|i: int| 0 <= i < first.drop_first().len() implies encode_utf8(
            (#[trigger] first.drop_first()[i]).0,
        ).len() <= u64::MAX by {
            assert(first.drop_first()[i] == first[i + 1]);
        }
        assert forall|i: int| 0 <= i < second.drop_first().len() implies encode_utf8(
            (#[trigger] second.drop_first()[i]).0,
        ).len() <= u64::MAX by {
            assert(second.drop_first()[i] == second[i + 1]);
        }
        lemma_entries_bytes_injective(first.drop_first(), second.drop_first());
        assert(first =~= seq![a] + first.drop_first());
        assert(second =~= seq![b] + second.drop_first());
    }
}

/// No two mappings are written as the same bytes: what is read back from
/// the bytes of a mapping can only be its own pairs, in their order.
pub proof fn lemma_map_bytes_injective(
    first: Seq<(Seq<char>, u64)>,
    second: Seq<(Seq<char>, u64)>,
)
    requires
        writable(first),
        writable(second),
        map_bytes(first) == map_bytes(second),
    ensures
        first == second,
{
    lemma_auto_spec_u64_to_from_le_bytes();
    let a = spec_u64_to_le_bytes(first.len() as u64);
    let b = spec_u64_to_le_bytes(second.len() as u64);
    assert(map_bytes(first).subrange(0, 8) =~= a);
    assert(map_bytes(second).subrange(0, 8) =~= b);
    assert(first.len() as u64 == second.len() as u64);
    assert(map_bytes(first).skip(8) =~= entries_bytes(first));
    assert(map_bytes(second).skip(8) =~= entries_bytes(second));
    lemma_entries_bytes_injective(first, second);
}

/// A sound mapping that can be written can be read back, and the label
/// that its next new tag gets after that is none that it has handed out
/// and still holds, and none above the one it would have got.
pub proof fn lemma_sound_is_restorable(map: TagMapView)
    requires
        map.wf(),
        writable(map.entries),
    ensures
        restorable(map.entries),
        next_after(map.entries) <= map.next,
{
    lemma_next_after_above(map.entries);
    lemma_next_after_below(map.entries, map.next);
}

/// Reading what was written gives the mapping back: a mapping read from
/// the bytes of a sound one has its pairs in their order, and so gives
/// every tag the label it had. Its next new tag gets no label above the
/// one it would have got.
pub proof fn lemma_read_back(written: TagMapView, read: TagMapView)
    requires
        written.wf(),
        writable(written.entries),
        restorable(read.entries),
        read.next == next_after(read.entries),
        map_bytes(read.entries) == map_bytes(written.entries),
    ensures
        read.entries == written.entries,
        read.next <= written.next,
        forall|tag: Seq<char>| read.label_of(tag) == written.label_of(tag),
        forall|label: u64| read.tag_of(label) == written.tag_of(label),
{
    lemma_map_bytes_injective(read.entries, written.entries);
    lemma_sound_is_restorable(written);
}

} // verus!
