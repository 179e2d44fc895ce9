//! What a player may declare: pon, chi and kan on a tile, the nine-kinds
//! abort, and the waits of a hand one tile short of a win with the furiten
//! rule that follows from them.

use vstd::prelude::*;
use crate::tile::{
    Tile, Honor, Mentsu, ChiTilePos, next_of, prev_of, next_tile_sequence, previous_tile_sequence,
    all_tiles, all_tiles_at, all_tiles_seq, valid_tile,
};
use crate::counting::{count_tile, count_of, contains_tile, sort_seq, sort_tiles};
use crate::decompose::{decompose, decompositions};
use crate::yaku::{seven_pairs, kokushi, chiitoitsu, kokushi_musou};
use crate::table::{Kawa, Tenpai};

verus! {

/// Pon needs two tiles of the discarded kind in the hand.
pub fn can_declare_pon(hand: &[Tile], tile: &Tile) -> (b: bool)
    ensures
        b == (count_tile(hand@, *tile) >= 2),
{
    count_of(hand, tile) >= 2
}

/// The called tile in the middle: the hand holds the tiles just below and
/// just above it.
pub open spec fn chi_middle(h: Seq<Tile>, t: Tile) -> bool {
    match prev_of(t) {
        Some(p) => match next_of(t) {
            Some(n) => h.contains(p) && h.contains(n),
            None => false,
        },
        None => false,
    }
}

/// The called tile on the left: the hand holds the two tiles above it.
pub open spec fn chi_left(h: Seq<Tile>, t: Tile) -> bool {
    match next_of(t) {
        Some(n) => match next_of(n) {
            Some(nn) => h.contains(n) && h.contains(nn),
            None => false,
        },
        None => false,
    }
}

/// The called tile on the right: the hand holds the two tiles below it.
pub open spec fn chi_right(h: Seq<Tile>, t: Tile) -> bool {
    match prev_of(t) {
        Some(p) => match prev_of(p) {
            Some(pp) => h.contains(p) && h.contains(pp),
            None => false,
        },
        None => false,
    }
}

pub open spec fn chi_if(b: bool, pos: ChiTilePos) -> Seq<ChiTilePos> {
    if b {
        seq![pos]
    } else {
        Seq::empty()
    }
}

/// The chi that can be made with `t`: middle, then left, then right.
pub open spec fn chi_options(h: Seq<Tile>, t: Tile) -> Seq<ChiTilePos> {
    chi_if(chi_middle(h, t), ChiTilePos::Middle) + chi_if(chi_left(h, t), ChiTilePos::Left) + chi_if(
        chi_right(h, t),
        ChiTilePos::Right,
    )
}

pub fn can_declare_chi(hand: &[Tile], tile: &Tile) -> (results: Vec<ChiTilePos>)
    ensures
        results@ == chi_options(hand@, *tile),
{
    let mut results: Vec<ChiTilePos> = Vec::new();
    let prev = previous_tile_sequence(tile);
    let next = next_tile_sequence(tile);
    let mut middle = false;
    if let Some(p) = prev {
        if let Some(n) = next {
            middle = contains_tile(hand, &p) && contains_tile(hand, &n);
        }
    }
    if middle {
        results.push(ChiTilePos::Middle);
    }
    let mut left = false;
    if let Some(n) = next {
        if let Some(nn) = next_tile_sequence(&n) {
            left = contains_tile(hand, &n) && contains_tile(hand, &nn);
        }
    }
    if left {
        results.push(ChiTilePos::Left);
    }
    let mut right = false;
    if let Some(p) = prev {
        if let Some(pp) = previous_tile_sequence(&p) {
            right = contains_tile(hand, &p) && contains_tile(hand, &pp);
        }
    }
    if right {
        results.push(ChiTilePos::Right);
    }
    assert(results@ =~= chi_options(hand@, *tile));
    results
}

/// The tile of the same suit as `t` with rank `n`; honors have none.
pub open spec fn same_suit_rank(t: Tile, n: int) -> Option<Tile> {
    match t {
        Tile::Man(_) => Some(Tile::Man(n as u8)),
        Tile::Pin(_) => Some(Tile::Pin(n as u8)),
        Tile::Sou(_) => Some(Tile::Sou(n as u8)),
        Tile::Honor(_) => None,
    }
}

/// The rank of a number tile; honors have none.
pub open spec fn rank_of(t: Tile) -> Option<int> {
    match t {
        Tile::Man(n) => Some(n as int),
        Tile::Pin(n) => Some(n as int),
        Tile::Sou(n) => Some(n as int),
        Tile::Honor(_) => None,
    }
}

/// The hand holds the tile of `t`'s suit with rank `n`.
pub open spec fn holds_rank(h: Seq<Tile>, t: Tile, n: int) -> bool {
    match same_suit_rank(t, n) {
        Some(x) => h.contains(x),
        None => false,
    }
}

/// Which chi are offered on a number tile of rank `n`, by the ranks the hand
/// holds in that suit: the called tile in the middle needs ranks `n - 1`
/// and `n + 1` (so `n` is 2 to 8), on the left ranks `n + 1` and `n + 2`
/// (`n` is 1 to 7), on the right ranks `n - 1` and `n - 2` (`n` is 3 to 9).
/// An honor is never offered a chi.
pub proof fn lemma_chi_positions_by_rank(h: Seq<Tile>, t: Tile)
    requires
        crate::tile::valid_tile(t),
    ensures
        t is Honor ==> chi_options(h, t).len() == 0,
        !(t is Honor) ==> {
            let n = rank_of(t)->0;
            &&& chi_options(h, t).contains(ChiTilePos::Middle) <==> (2 <= n <= 8 && holds_rank(
                h,
                t,
                n - 1,
            ) && holds_rank(h, t, n + 1))
            &&& chi_options(h, t).contains(ChiTilePos::Left) <==> (1 <= n <= 7 && holds_rank(
                h,
                t,
                n + 1,
            ) && holds_rank(h, t, n + 2))
            &&& chi_options(h, t).contains(ChiTilePos::Right) <==> (3 <= n <= 9 && holds_rank(
                h,
                t,
                n - 1,
            ) && holds_rank(h, t, n - 2))
        },
{
    let m = chi_if(chi_middle(h, t), ChiTilePos::Middle);
    let l = chi_if(chi_left(h, t), ChiTilePos::Left);
    let r = chi_if(chi_right(h, t), ChiTilePos::Right);
    let o = chi_options(h, t);
    assert(o == m + l + r);
    assert(o.contains(ChiTilePos::Middle) <==> chi_middle(h, t)) by {
        if chi_middle(h, t) {
            assert(o[0] == ChiTilePos::Middle);
        }
        if o.contains(ChiTilePos::Middle) {
            let i = choose|i: int| 0 <= i < o.len() && o[i] == ChiTilePos::Middle;
            if !chi_middle(h, t) {
                assert(o == l + r);
            }
        }
    }
    assert(o.contains(ChiTilePos::Left) <==> chi_left(h, t)) by {
        if chi_left(h, t) {
            assert(o[m.len() as int] == ChiTilePos::Left);
        }
        if o.contains(ChiTilePos::Left) {
            let i = choose|i: int| 0 <= i < o.len() && o[i] == ChiTilePos::Left;
            if !chi_left(h, t) {
                assert(o == m + r);
            }
        }
    }
    assert(o.contains(ChiTilePos::Right) <==> chi_right(h, t)) by {
        if chi_right(h, t) {
            assert(o[(m.len() + l.len()) as int] == ChiTilePos::Right);
        }
        if o.contains(ChiTilePos::Right) {
            let i = choose|i: int| 0 <= i < o.len() && o[i] == ChiTilePos::Right;
            if !chi_right(h, t) {
                assert(o == m + l);
            }
        }
    }
}

/// How many tiles of this kind the hand holds (kept to eight bits).
pub fn can_declare_kan_from_hand(hand: &[Tile], tile: &Tile) -> (n: u8)
    ensures
        n as int == count_tile(hand@, *tile) % 256,
{
    let c = count_of(hand, tile);
    (c % 256) as u8
}

/// An open triplet (a pon) of this kind.
pub open spec fn pon_of(m: Mentsu, t: Tile) -> bool {
    m matches Mentsu::Koutsu(ts, closed) && !closed && ts@[0] == t
}

/// A pon of this kind among the open melds can be raised to a kan.
pub fn can_declare_kan_from_pon(open_mentsu: &[Mentsu], tile: &Tile) -> (b: bool)
    ensures
        b == exists|i: int| 0 <= i < open_mentsu@.len() && pon_of(#[trigger] open_mentsu@[i], *tile),
{
    let mut k: usize = 0;
    while k < open_mentsu.len()
        invariant
            k <= open_mentsu@.len(),
            forall|i: int| 0 <= i < k ==> !pon_of(#[trigger] open_mentsu@[i], *tile),
        decreases open_mentsu@.len() - k,
    {
        let found = match &open_mentsu[k] {
            Mentsu::Koutsu(tiles, false) => tiles[0] == *tile,
            _ => false,
        };
        if found {
            assert(pon_of(open_mentsu@[k as int], *tile));
            return true;
        }
        k = k + 1;
    }
    false
}

/// The thirteen terminal and honor kinds: 1 and 9 of each suit, the four
/// winds and the three dragons.
pub open spec fn yaochuu_kind(k: int) -> Tile {
    if k == 0 {
        Tile::Man(1)
    } else if k == 1 {
        Tile::Man(9)
    } else if k == 2 {
        Tile::Pin(1)
    } else if k == 3 {
        Tile::Pin(9)
    } else if k == 4 {
        Tile::Sou(1)
    } else if k == 5 {
        Tile::Sou(9)
    } else if k == 6 {
        Tile::Honor(Honor::East)
    } else if k == 7 {
        Tile::Honor(Honor::South)
    } else if k == 8 {
        Tile::Honor(Honor::West)
    } else if k == 9 {
        Tile::Honor(Honor::North)
    } else if k == 10 {
        Tile::Honor(Honor::White)
    } else if k == 11 {
        Tile::Honor(Honor::Green)
    } else {
        Tile::Honor(Honor::Red)
    }
}

/// How many of the first `n` terminal and honor kinds the hand holds.
pub open spec fn kinds_held(h: Seq<Tile>, n: int) -> int
    decreases n,
{
    if n <= 0 {
        0
    } else {
        kinds_held(h, n - 1) + if h.contains(yaochuu_kind(n - 1)) {
            1int
        } else {
            0
        }
    }
}

fn yaochuu_kind_at(k: usize) -> (t: Tile)
    requires
        k < 13,
    ensures
        t == yaochuu_kind(k as int),
{
    match k {
        0 => Tile::Man(1),
        1 => Tile::Man(9),
        2 => Tile::Pin(1),
        3 => Tile::Pin(9),
        4 => Tile::Sou(1),
        5 => Tile::Sou(9),
        6 => Tile::Honor(Honor::East),
        7 => Tile::Honor(Honor::South),
        8 => Tile::Honor(Honor::West),
        9 => Tile::Honor(Honor::North),
        10 => Tile::Honor(Honor::White),
        11 => Tile::Honor(Honor::Green),
        _ => Tile::Honor(Honor::Red),
    }
}

/// The nine-kinds abort: at least nine different terminal and honor kinds
/// in the hand, before any call and before the player's first discard.
pub fn can_declare_kyuushu(hand: &[Tile], calls_made: bool, kawa: &Kawa) -> (b: bool)
    ensures
        b == (kinds_held(hand@, 13) >= 9 && !calls_made && kawa.0@.len() == 0),
{
    let mut held: u8 = 0;
    let mut k: usize = 0;
    while k < 13
        invariant
            k <= 13,
            held == kinds_held(hand@, k as int),
            held <= k,
        decreases 13 - k,
    {
        if contains_tile(hand, &yaochuu_kind_at(k)) {
            held = held + 1;
        }
        k = k + 1;
    }
    held >= 9 && !calls_made && kawa.0.len() == 0
}

/// Furiten: the player has discarded one of the tiles they wait on.
pub open spec fn furiten(kawa: Seq<Tile>, waits: Seq<Tile>) -> bool {
    exists|i: int| 0 <= i < waits.len() && kawa.contains(#[trigger] waits[i])
}

pub fn is_furiten(kawa: &Kawa, tenpai: &Tenpai) -> (b: bool)
    ensures
        b == furiten(kawa.0@, tenpai.0@),
{
    let mut k: usize = 0;
    while k < tenpai.0.len()
        invariant
            k <= tenpai.0@.len(),
            forall|i: int| 0 <= i < k ==> !kawa.0@.contains(#[trigger] tenpai.0@[i]),
        decreases tenpai.0@.len() - k,
    {
        if contains_tile(kawa.0.as_slice(), &tenpai.0[k]) {
            return true;
        }
        k = k + 1;
    }
    false
}

/// A (sorted) hand that is complete: a pair and sets, seven pairs, or
/// thirteen orphans.
pub open spec fn completes(s: Seq<Tile>) -> bool {
    decompositions(s).len() > 0 || seven_pairs(s) || kokushi(s)
}

/// The kinds among the first `n` of `all_tiles` that complete the hand.
pub open spec fn waits_upto(h: Seq<Tile>, n: int) -> Seq<Tile>
    decreases n,
{
    if n <= 0 {
        Seq::empty()
    } else {
        waits_upto(h, n - 1) + if completes(sort_seq(h.push(all_tiles_at(n - 1)))) {
            seq![all_tiles_at(n - 1)]
        } else {
            Seq::empty()
        }
    }
}

/// The waits of a hand: every kind that completes it, in the order of
/// `all_tiles`.
pub open spec fn waits(h: Seq<Tile>) -> Seq<Tile> {
    waits_upto(h, 34)
}

/// The tiles the closed hand waits on; the open melds play no part.
pub fn check_tenpai(raw_hand: &[Tile]) -> (waiting_on: Vec<Tile>)
    ensures
        waiting_on@ == waits(raw_hand@),
{
    let mut waiting_on: Vec<Tile> = Vec::new();
    let tiles = all_tiles();
    let mut k: usize = 0;
    while k < tiles.len()
        invariant
            tiles@ == all_tiles_seq(),
            k <= 34,
            waiting_on@ == waits_upto(raw_hand@, k as int),
        decreases 34 - k,
    {
        let tile = tiles[k];
        let mut hand_speculated: Vec<Tile> = Vec::new();
        let mut j: usize = 0;
        while j < raw_hand.len()
            invariant
                j <= raw_hand@.len(),
                hand_speculated@ == raw_hand@.take(j as int),
            decreases raw_hand@.len() - j,
        {
            hand_speculated.push(raw_hand[j]);
            j = j + 1;
        }
        assert(raw_hand@.take(j as int) == raw_hand@);
        hand_speculated.push(tile);
        sort_tiles(&mut hand_speculated);
        let ghost s = hand_speculated@;
        proof {
            crate::counting::lemma_sort_seq(raw_hand@.push(tile));
        }
        let splits = decompose(hand_speculated.as_slice());
        if splits.len() > 0 || chiitoitsu(hand_speculated.as_slice()) || kokushi_musou(
            hand_speculated.as_slice(),
        ) {
            waiting_on.push(tile);
        }
        proof {
            assert(splits@.len() == decompositions(s).len());
        }
        k = k + 1;
    }
    waiting_on
}

/// The waits of a hand are exactly the kinds that complete it: every wait
/// completes the hand, and every kind that completes it is a wait.
pub proof fn lemma_waits_exact(h: Seq<Tile>, k: int)
    requires
        0 <= k < 34,
    ensures
        forall|i: int| 0 <= i < waits(h).len() ==> completes(sort_seq(h.push(#[trigger] waits(h)[i]))),
        completes(sort_seq(h.push(all_tiles_at(k)))) ==> waits(h).contains(all_tiles_at(k)),
{
    lemma_waits_upto(h, 34, k);
}

/// A tile is a wait exactly when adding it to the hand makes a winning
/// shape of any of the three kinds: a pair and sets, seven distinct pairs,
/// or thirteen orphans.
pub proof fn lemma_wait_iff_winning_shape(h: Seq<Tile>, t: Tile)
    requires
        valid_tile(t),
    ensures
        waits(h).contains(t) <==> (decompositions(sort_seq(h.push(t))).len() > 0 || seven_pairs(
            sort_seq(h.push(t)),
        ) || kokushi(sort_seq(h.push(t)))),
{
    let k = crate::tile::lemma_valid_tile_listed(t);
    lemma_waits_exact(h, k);
    if waits(h).contains(t) {
        let i = choose|i: int| 0 <= i < waits(h).len() && waits(h)[i] == t;
        assert(completes(sort_seq(h.push(waits(h)[i]))));
    }
}

/// Seven pairs counts as a win for the waits: a tile that turns the hand
/// into seven distinct pairs is one of its waits.
pub proof fn lemma_seven_pairs_tile_is_wait(h: Seq<Tile>, t: Tile)
    requires
        valid_tile(t),
        seven_pairs(sort_seq(h.push(t))),
    ensures
        waits(h).contains(t),
{
    lemma_wait_iff_winning_shape(h, t);
}

/// A tile that completes thirteen orphans is one of the waits.
pub proof fn lemma_kokushi_tile_is_wait(h: Seq<Tile>, t: Tile)
    requires
        valid_tile(t),
        kokushi(sort_seq(h.push(t))),
    ensures
        waits(h).contains(t),
{
    lemma_wait_iff_winning_shape(h, t);
}

/// A tile after which the hand splits into a pair and sets is one of the
/// waits.
pub proof fn lemma_split_tile_is_wait(h: Seq<Tile>, t: Tile)
    requires
        valid_tile(t),
        decompositions(sort_seq(h.push(t))).len() > 0,
    ensures
        waits(h).contains(t),
{
    lemma_wait_iff_winning_shape(h, t);
}

proof fn lemma_waits_upto(h: Seq<Tile>, n: int, k: int)
    requires
        0 <= n <= 34,
    ensures
        forall|i: int|
            0 <= i < waits_upto(h, n).len() ==> completes(sort_seq(h.push(#[trigger] waits_upto(h, n)[i]))),
        0 <= k < n && completes(sort_seq(h.push(all_tiles_at(k)))) ==> waits_upto(h, n).contains(all_tiles_at(k)),
    decreases n,
{
    if n > 0 {
        lemma_waits_upto(h, n - 1, k);
        let prev = waits_upto(h, n - 1);
        let cur = waits_upto(h, n);
        assert forall|i: int| 0 <= i < cur.len() implies completes(sort_seq(h.push(#[trigger] cur[i]))) by {
            if i < prev.len() {
                assert(cur[i] == prev[i]);
            }
        }
        if 0 <= k < n && completes(sort_seq(h.push(all_tiles_at(k)))) {
            if k < n - 1 {
                let j = choose|j: int| 0 <= j < prev.len() && prev[j] == all_tiles_at(k);
                assert(cur[j] == prev[j]);
            } else {
                assert(cur[prev.len() as int] == all_tiles_at(k));
            }
        }
    }
}

} // verus!
