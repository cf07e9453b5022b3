//! When a store grows, and by how much.
//!
//! A store keeps one slot in hand: it grows as soon as the vectors it holds
//! and those about to come would fill it. It then asks for half as much
//! again, rounded up.
use vstd::prelude::*;

verus! {

/// One and a half times `n`, rounded up.
pub open spec fn grown(n: nat) -> nat {
    (3 * n + 1) / 2
}

/// `n`, or the largest `usize` if `n` is beyond it.
pub open spec fn capped(n: nat) -> nat {
    if n <= usize::MAX {
        n
    } else {
        usize::MAX as nat
    }
}

/// Whether `incoming` more vectors would fill a store of `capacity` that
/// holds `size`.
pub open spec fn is_tight(size: nat, incoming: nat, capacity: nat) -> bool {
    size + incoming >= capacity
}

/// Decides whether to grow before `incoming` vectors are inserted.
pub fn tight(size: usize, incoming: usize, capacity: usize) -> (answer: bool)
    ensures
        answer == is_tight(size as nat, incoming as nat, capacity as nat),
{
    size as u128 + incoming as u128 >= capacity as u128
}

/// The capacity to ask for: half as much again as `base + extra`, rounded
/// up, and no more than a `usize` can say.
pub fn grown_capacity(base: usize, extra: usize) -> (target: usize)
    ensures
        target == capped(grown((base + extra) as nat)),
{
    let wide: u128 = (3 * (base as u128 + extra as u128) + 1) / 2;
    if wide > usize::MAX as u128 {
        usize::MAX
    } else {
        wide as usize
    }
}

/// Growing gains room: from any capacity but none and the largest that can
/// be counted, what is asked for is more.
pub proof fn lemma_growth_gains_room(n: nat)
    requires
        0 < n < usize::MAX,
    ensures
        capped(grown(n)) > n,
{
}

} // verus!
