//! The two places where the game draws on chance: shuffling the wall and
//! rolling a number in a range. Both go through `rand`.

use vstd::prelude::*;
use crate::tile::Tile;
use rand::RngExt;
use rand::seq::SliceRandom;

verus! {

/// Calls `SliceRandom::shuffle` of `rand` with the thread-local generator.
/// The contract claims only that the result is a permutation of the input
/// (the crate documents that the slice is shuffled in place); which
/// permutation comes out is left open.
#[verifier::external_body]
pub(crate) fn shuffle_tiles(tiles: &mut Vec<Tile>)
    ensures
        final(tiles)@.to_multiset() == old(tiles)@.to_multiset(),
        final(tiles)@.len() == old(tiles)@.len(),
{
    tiles.shuffle(&mut rand::rng());
}

/// Calls `RngExt::random_range` of `rand` with the thread-local generator on
/// the inclusive range `lo..=hi`. The contract claims only that the result lies
/// in the range, which the crate documents; the range must not be empty, since
/// the crate panics on an empty one.
#[verifier::external_body]
pub(crate) fn roll_inclusive(lo: u8, hi: u8) -> (r: u8)
    requires
        lo <= hi,
    ensures
        lo <= r <= hi,
{
    rand::rng().random_range(lo..=hi)
}

} // verus!
