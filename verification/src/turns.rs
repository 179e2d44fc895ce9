//! What a player's own turn does to their tiles: a discard (forced from the
//! draw in riichi, refused when the kind is forbidden), a riichi discard, a
//! closed or added kan on the draw, and an open kan on a discard.

use vstd::prelude::*;
use crate::tile::{Tile, Mentsu, Kantsu};
use crate::counting::{count_tile, count_of, contains_tile, sort_seq, sort_tiles};
use crate::decompose::first_from;
use crate::naki::{without_first, drop_kind};
use crate::calls::pon_of;
use crate::table::{Hand, OpenMentsu, Kawa};

verus! {

/// The tile a discard puts in the pond: the drawn tile for a player in
/// riichi, the chosen tile otherwise.
pub open spec fn discarded(drawn: Option<Tile>, tile: Tile, is_riichi: bool) -> Tile {
    if is_riichi {
        drawn->0
    } else {
        tile
    }
}

/// The closed tiles after a discard: in riichi they stay as they were; a
/// tsumogiri keeps them too; otherwise the drawn tile joins the hand, the
/// first copy of the chosen tile leaves it, and the hand is sorted.
pub open spec fn hand_after_discard(h: Seq<Tile>, drawn: Option<Tile>, tile: Tile, is_tsumogiri: bool, is_riichi: bool) -> Seq<Tile> {
    if is_riichi {
        h
    } else {
        match drawn {
            Some(d) => if is_tsumogiri {
                sort_seq(h)
            } else {
                sort_seq(without_first(h.push(d), tile))
            },
            None => sort_seq(without_first(h, tile)),
        }
    }
}

/// A discard moves one tile and makes none: when the discarded tile is held
/// (for a tsumogiri, when it is the drawn tile), the closed hand after the
/// discard and the tile put in the pond hold together the tiles of the hand
/// and the drawn tile before it.
pub proof fn lemma_discard_keeps_the_tiles(h: Seq<Tile>, drawn: Option<Tile>, tile: Tile, is_tsumogiri: bool, is_riichi: bool)
    requires
        is_riichi ==> drawn is Some,
        !is_riichi && is_tsumogiri ==> drawn == Some(tile),
        !is_riichi && !is_tsumogiri ==> (match drawn {
            Some(d) => h.push(d).contains(tile),
            None => h.contains(tile),
        }),
    ensures
        hand_after_discard(h, drawn, tile, is_tsumogiri, is_riichi).push(discarded(drawn, tile, is_riichi)).to_multiset()
            == (match drawn {
            Some(d) => h.push(d),
            None => h,
        }).to_multiset(),
{
    broadcast use vstd::multiset::group_multiset_axioms, vstd::seq_lib::to_multiset_build;

    let put = discarded(drawn, tile, is_riichi);
    let after = hand_after_discard(h, drawn, tile, is_tsumogiri, is_riichi);
    if is_riichi {
    } else {
        match drawn {
            Some(d) => {
                if is_tsumogiri {
                    crate::counting::lemma_sort_seq(h);
                } else {
                    let w = without_first(h.push(d), tile);
                    crate::naki::lemma_without_first_multiset(h.push(d), tile);
                    crate::counting::lemma_sort_seq(w);
                    assert(h.push(d).to_multiset().count(tile) > 0) by {
                        vstd::seq_lib::to_multiset_contains(h.push(d), tile);
                    }
                    assert(after.push(put).to_multiset() =~= h.push(d).to_multiset());
                }
            },
            None => {
                let w = without_first(h, tile);
                crate::naki::lemma_without_first_multiset(h, tile);
                crate::counting::lemma_sort_seq(w);
                assert(h.to_multiset().count(tile) > 0) by {
                    vstd::seq_lib::to_multiset_contains(h, tile);
                }
                assert(after.push(put).to_multiset() =~= h.to_multiset());
            },
        }
    }
}

fn remove_first_copy(hand: &mut Vec<Tile>, tile: &Tile)
    ensures
        final(hand)@ == without_first(old(hand)@, *tile),
{
    let mut k: usize = 0;
    while k < hand.len()
        invariant
            k <= hand@.len(),
            hand@ == old(hand)@,
            first_from(hand@, *tile, 0) == first_from(hand@, *tile, k as int),
        decreases hand@.len() - k,
    {
        if hand[k] == *tile {
            hand.remove(k);
            return;
        }
        k = k + 1;
    }
}

/// A discard by the player on turn. It is refused (nothing changes) when
/// the tile it would put in the pond is forbidden this turn; otherwise the
/// tile goes to the pond and the hand changes as `hand_after_discard` says.
pub fn apply_discard(
    hand: &mut Hand,
    kawa: &mut Kawa,
    drawn: Option<Tile>,
    tile: Tile,
    is_tsumogiri: bool,
    is_riichi: bool,
    forbidden: &[Tile],
) -> (put: Option<Tile>)
    requires
        is_riichi ==> drawn is Some,
    ensures
        forbidden@.contains(discarded(drawn, tile, is_riichi)) ==> put is None && final(hand).0@ == old(hand).0@
            && final(kawa).0@ == old(kawa).0@,
        !forbidden@.contains(discarded(drawn, tile, is_riichi)) ==> put == Some(discarded(drawn, tile, is_riichi))
            && final(hand).0@ == hand_after_discard(old(hand).0@, drawn, tile, is_tsumogiri, is_riichi)
            && final(kawa).0@ == old(kawa).0@.push(discarded(drawn, tile, is_riichi)),
{
    let final_discard = if is_riichi {
        drawn.unwrap()
    } else {
        tile
    };
    if contains_tile(forbidden, &final_discard) {
        return None;
    }
    if !is_riichi {
        match drawn {
            Some(d) => {
                if !is_tsumogiri {
                    hand.0.push(d);
                    remove_first_copy(&mut hand.0, &tile);
                }
            },
            None => {
                remove_first_copy(&mut hand.0, &tile);
            },
        }
        sort_tiles(&mut hand.0);
    }
    kawa.0.push(final_discard);
    Some(final_discard)
}

/// A riichi is a double riichi when declared on the player's first discard
/// with no call made.
pub fn is_double_riichi(kawa: &Kawa, calls_made: bool) -> (b: bool)
    ensures
        b == (kawa.0@.len() == 0 && !calls_made),
{
    kawa.0.len() == 0 && !calls_made
}

/// The first open triplet of the kind among the first `n` melds.
pub open spec fn first_pon(open: Seq<Mentsu>, tile: Tile, n: int) -> int
    decreases n,
{
    if n <= 0 {
        -1
    } else if first_pon(open, tile, n - 1) != -1 {
        first_pon(open, tile, n - 1)
    } else if pon_of(open[n - 1], tile) {
        n - 1
    } else {
        -1
    }
}

fn keep_other(s: &Vec<Tile>, t: &Tile) -> (r: Vec<Tile>)
    ensures
        r@ == drop_kind(s@, *t),
{
    let mut r: Vec<Tile> = Vec::new();
    let mut k: usize = 0;
    while k < s.len()
        invariant
            k <= s@.len(),
            r@ == drop_kind(s@.take(k as int), *t),
        decreases s@.len() - k,
    {
        assert(s@.take(k + 1).drop_last() == s@.take(k as int));
        if s[k] != *t {
            r.push(s[k]);
        }
        k = k + 1;
    }
    assert(s@.take(k as int) == s@);
    r
}

/// A kan declared on the player's own draw. With four of the kind in hand
/// (the draw included) it is a closed kan; otherwise, with a pon of the kind
/// among the open melds, the first such pon becomes an added kan; otherwise
/// the declaration fails. The drawn tile joins the hand either way, and a
/// kan takes every copy of the kind from it.
pub fn apply_drawn_kan(hand: &mut Hand, open_mentsu: &mut OpenMentsu, drawn: Option<Tile>, tile: Tile) -> (kind: Option<Kantsu>)
    ensures
        ({
            let full = match drawn {
                Some(d) => old(hand).0@.push(d),
                None => old(hand).0@,
            };
            let p = first_pon(old(open_mentsu).0@, tile, old(open_mentsu).0@.len() as int);
            &&& count_tile(full, tile) % 256 == 4 ==> kind == Some(Kantsu::Ankan) && final(hand).0@ == drop_kind(
                full,
                tile,
            ) && final(open_mentsu).0@ == old(open_mentsu).0@.push(Mentsu::Ankan([tile, tile, tile, tile]))
            &&& count_tile(full, tile) % 256 != 4 && p != -1 ==> kind == Some(Kantsu::Shouminkan)
                && final(hand).0@ == drop_kind(full, tile)
                && final(open_mentsu).0@ == old(open_mentsu).0@.update(p, Mentsu::Shouminkan([tile, tile, tile, tile]))
            &&& count_tile(full, tile) % 256 != 4 && p == -1 ==> kind is None && final(hand).0@ == full
                && final(open_mentsu).0@ == old(open_mentsu).0@
        }),
{
    if let Some(d) = drawn {
        hand.0.push(d);
    }
    let count = count_of(hand.0.as_slice(), &tile) % 256;
    if count == 4 {
        open_mentsu.0.push(Mentsu::Ankan([tile, tile, tile, tile]));
        hand.0 = keep_other(&hand.0, &tile);
        return Some(Kantsu::Ankan);
    }
    let ghost om = open_mentsu.0@;
    let ghost full = hand.0@;
    let mut k: usize = 0;
    while k < open_mentsu.0.len()
        invariant
            k <= om.len(),
            open_mentsu.0@ == om,
            om == old(open_mentsu).0@,
            hand.0@ == full,
            full == match drawn {
                Some(d) => old(hand).0@.push(d),
                None => old(hand).0@,
            },
            count_tile(full, tile) % 256 != 4,
            first_pon(om, tile, k as int) == -1,
        decreases om.len() - k,
    {
        let is_pon = match &open_mentsu.0[k] {
            Mentsu::Koutsu(tiles, false) => tiles[0] == tile,
            _ => false,
        };
        if is_pon {
            assert(pon_of(om[k as int], tile));
            assert(first_pon(om, tile, k + 1) == k);
            proof {
                lemma_first_pon_stable(om, tile, k + 1, om.len() as int);
            }
            open_mentsu.0.set(k, Mentsu::Shouminkan([tile, tile, tile, tile]));
            hand.0 = keep_other(&hand.0, &tile);
            return Some(Kantsu::Shouminkan);
        }
        k = k + 1;
    }
    None
}

proof fn lemma_first_pon_stable(open: Seq<Mentsu>, tile: Tile, m: int, n: int)
    requires
        0 <= m <= n,
        first_pon(open, tile, m) != -1,
    ensures
        first_pon(open, tile, n) == first_pon(open, tile, m),
    decreases n - m,
{
    if m < n {
        lemma_first_pon_stable(open, tile, m, n - 1);
    }
}

/// An open kan on a discard: with three of the kind in hand, every copy
/// leaves the hand and the kan joins the open melds; otherwise nothing
/// changes.
pub fn apply_daiminkan(hand: &mut Hand, open_mentsu: &mut OpenMentsu, tile: Tile) -> (done: bool)
    ensures
        done == (count_tile(old(hand).0@, tile) % 256 == 3),
        done ==> final(hand).0@ == drop_kind(old(hand).0@, tile),
        done ==> final(open_mentsu).0@ == old(open_mentsu).0@.push(Mentsu::Daiminkan([tile, tile, tile, tile])),
        !done ==> final(hand).0@ == old(hand).0@ && final(open_mentsu).0@ == old(open_mentsu).0@,
{
    let count = count_of(hand.0.as_slice(), &tile) % 256;
    if count == 3 {
        open_mentsu.0.push(Mentsu::Daiminkan([tile, tile, tile, tile]));
        hand.0 = keep_other(&hand.0, &tile);
        true
    } else {
        false
    }
}

} // verus!
