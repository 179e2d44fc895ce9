//! Nukidora: with fewer than four players, a North tile may be set aside as
//! a dora, and the player then draws a replacement tile.

use vstd::prelude::*;
use crate::tile::{Tile, Honor, MatchPhase};
use crate::table::Hand;
use crate::naki::without_first;
use crate::round::GameState;
use crate::counting::contains_tile;

verus! {

/// The North tiles a player may set aside: none with four players; with
/// fewer, the North tile when the hand or the draw holds one, and in riichi
/// only when the draw is the North tile.
pub open spec fn nuki_choice(hand: Seq<Tile>, drawn: Tile, is_riichi: bool, phase: MatchPhase) -> Seq<Tile> {
    let north = Tile::Honor(Honor::North);
    if phase != MatchPhase::Yonma && hand.push(drawn).contains(north) && (!is_riichi || drawn == north) {
        seq![north]
    } else {
        Seq::empty()
    }
}

pub fn nuki_options(hand: &[Tile], drawn: Tile, is_riichi: bool, phase: MatchPhase) -> (o: Vec<Tile>)
    ensures
        o@ == nuki_choice(hand@, drawn, is_riichi, phase),
{
    let north = Tile::Honor(Honor::North);
    let mut o: Vec<Tile> = Vec::new();
    if phase == MatchPhase::Yonma {
        return o;
    }
    let held = contains_tile(hand, &north) || drawn == north;
    assert(held == hand@.push(drawn).contains(north)) by {
        if hand@.contains(north) {
            let k = choose|k: int| 0 <= k < hand@.len() && hand@[k] == north;
            assert(hand@.push(drawn)[k] == north);
        }
        if drawn == north {
            assert(hand@.push(drawn)[hand@.len() as int] == north);
        }
        if hand@.push(drawn).contains(north) {
            let k = choose|k: int| 0 <= k < hand@.len() + 1 && hand@.push(drawn)[k] == north;
            if k < hand@.len() {
                assert(hand@[k] == north);
            }
        }
    }
    if held && (!is_riichi || drawn == north) {
        o.push(north);
    }
    o
}

/// Sets `tile` aside: the drawn tile, if it is the tile, goes straight to
/// the tiles set aside; otherwise the drawn tile joins the hand and the
/// first copy of `tile` leaves it. Either way no drawn tile is left, and a
/// replacement draw is now due.
pub fn apply_nukidora(
    hand: &mut Hand,
    drawn: &mut Option<Tile>,
    nuked: &mut Vec<Tile>,
    game: &mut GameState,
    tile: Tile,
)
    ensures
        final(hand).0@ == match *old(drawn) {
            Some(d) => if d == tile {
                old(hand).0@
            } else {
                without_first(old(hand).0@.push(d), tile)
            },
            None => without_first(old(hand).0@, tile),
        },
        *final(drawn) == None::<Tile>,
        final(nuked)@ == old(nuked)@.push(tile),
        *final(game) == (GameState { pending_rinshan: true, ..*old(game) }),
{
    match *drawn {
        Some(d) => {
            if d != tile {
                hand.0.push(d);
                hand.remove_tile_from_hand(&tile);
            }
        },
        None => {
            hand.remove_tile_from_hand(&tile);
        },
    }
    *drawn = None;
    nuked.push(tile);
    game.pending_rinshan = true;
}

} // verus!
