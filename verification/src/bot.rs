//! The judgement of a bot: a quick estimate of a hand's han, how much a
//! discard hurts the hand it steers for, and which tile to discard.

use vstd::prelude::*;
use crate::tile::{
    Tile, Honor, Mentsu, Wind, Suit, TargetYaku, all_valid, terminal, honor_tile, yaochuu,
    green_tile, dragon, index_of, tile_of, tile_to_index, index_to_tile, is_terminal, is_honor,
    is_yaochuuhai, is_green,
};
use crate::counting::{freq_seq, tiles_to_frequency_array, meld_tiles, combine_tiles, contains_tile};
use crate::shanten::{slots_with, fsum, shanten_of, ukeire_upto, calculate_shanten_from_array, ukeire_tiles};
use crate::scoring::{dora_of, get_dora_from_indicator};
use crate::yaku::{
    one_suit, one_suit_and_honors, all_simples, all_yaochuu, count_tiles_where, chinitsu, honitsu,
    tanyao, honroutou,
};

verus! {

/// Whether a tile belongs to a suit.
pub open spec fn in_suit(t: Tile, s: Suit) -> bool {
    match t {
        Tile::Man(_) => s == Suit::Man,
        Tile::Pin(_) => s == Suit::Pin,
        Tile::Sou(_) => s == Suit::Sou,
        Tile::Honor(_) => false,
    }
}

/// A number tile of rank 1, 2, 3, 7, 8 or 9.
pub open spec fn outer_number(t: Tile) -> bool {
    match t {
        Tile::Man(v) => v <= 3 && v >= 1 || v >= 7 && v <= 9,
        Tile::Pin(v) => v <= 3 && v >= 1 || v >= 7 && v <= 9,
        Tile::Sou(v) => v <= 3 && v >= 1 || v >= 7 && v <= 9,
        Tile::Honor(_) => false,
    }
}

/// A number tile whose rank lies in `n ..= n + 2`.
pub open spec fn in_window(t: Tile, n: u8) -> bool {
    match t {
        Tile::Man(v) => v >= n && v <= n + 2,
        Tile::Pin(v) => v >= n && v <= n + 2,
        Tile::Sou(v) => v >= n && v <= n + 2,
        Tile::Honor(_) => false,
    }
}

/// `n` when `b` holds, else nothing.
pub open spec fn pts(b: bool, n: int) -> int {
    if b {
        n
    } else {
        0
    }
}

/// How much discarding `t` costs the hand that steers for `target`: 800 for
/// a dora, and 10000 (20000 for a terminal towards nine gates) when the tile
/// is one the target hand keeps. `freq` is how many of the kind the hand
/// holds.
pub open spec fn discard_penalty(t: Tile, target: TargetYaku, freq: u8, is_dora: bool) -> int {
    pts(is_dora, 800) + match target {
        TargetYaku::Speed => 0,
        TargetYaku::Tanyao => pts(!yaochuu(t), 10000),
        TargetYaku::Honitsu(s) => pts(in_suit(t, s) || honor_tile(t), 10000),
        TargetYaku::Chinitsu(s) => pts(in_suit(t, s), 10000),
        TargetYaku::Ittsuu(s) => pts(in_suit(t, s), 10000),
        TargetYaku::SanshokuDoujun(n) => pts(in_window(t, n), 10000),
        TargetYaku::Chanta => pts(outer_number(t) || honor_tile(t), 10000),
        TargetYaku::Junchan => pts(outer_number(t), 10000),
        TargetYaku::Pinfu => pts(honor_tile(t), 10000),
        TargetYaku::Toitoi => pts(freq >= 2, 10000),
        TargetYaku::Sanankou => pts(freq >= 2, 10000),
        TargetYaku::Suuankou => pts(freq >= 2, 10000),
        TargetYaku::Chiitoitsu => pts(freq == 2, 10000),
        TargetYaku::Kokushi => pts(yaochuu(t) && freq == 1, 10000),
        TargetYaku::ChuurenPoutou(s) => if in_suit(t, s) {
            if terminal(t) {
                20000
            } else {
                10000
            }
        } else {
            0
        },
        TargetYaku::Daisangen => pts(dragon(t), 10000),
        TargetYaku::Tsuuiisou => pts(honor_tile(t), 10000),
        TargetYaku::Ryuuiisou => pts(green_tile(t), 10000),
    }
}

fn suit_matches(tile: &Tile, s: Suit) -> (b: bool)
    ensures
        b == in_suit(*tile, s),
{
    match tile {
        Tile::Man(_) => s == Suit::Man,
        Tile::Pin(_) => s == Suit::Pin,
        Tile::Sou(_) => s == Suit::Sou,
        Tile::Honor(_) => false,
    }
}

fn rank_outer(v: u8) -> (b: bool)
    ensures
        b == (v <= 3 && v >= 1 || v >= 7 && v <= 9),
{
    v >= 1 && v <= 3 || v >= 7 && v <= 9
}

pub fn get_discard_penalty(tile: &Tile, target: &TargetYaku, freq: u8, is_dora: bool) -> (penalty: i32)
    ensures
        penalty == discard_penalty(*tile, *target, freq, is_dora),
{
    let base: i32 = if is_dora {
        800
    } else {
        0
    };
    let is_honor = is_honor(tile);
    let is_terminal = is_terminal(tile);
    let is_yaochuuhai = is_yaochuuhai(tile);
    let extra: i32 = match target {
        TargetYaku::Speed => 0,
        TargetYaku::Tanyao => if !is_yaochuuhai {
            10000
        } else {
            0
        },
        TargetYaku::Honitsu(s) => if suit_matches(tile, *s) || is_honor {
            10000
        } else {
            0
        },
        TargetYaku::Chinitsu(s) => if suit_matches(tile, *s) {
            10000
        } else {
            0
        },
        TargetYaku::Ittsuu(s) => if suit_matches(tile, *s) {
            10000
        } else {
            0
        },
        TargetYaku::SanshokuDoujun(n) => {
            let inside = match tile {
                Tile::Man(v) => *v >= *n && (*v as u16) <= (*n as u16) + 2,
                Tile::Pin(v) => *v >= *n && (*v as u16) <= (*n as u16) + 2,
                Tile::Sou(v) => *v >= *n && (*v as u16) <= (*n as u16) + 2,
                Tile::Honor(_) => false,
            };
            if inside {
                10000
            } else {
                0
            }
        },
        TargetYaku::Chanta => {
            let outer = match tile {
                Tile::Man(v) => rank_outer(*v),
                Tile::Pin(v) => rank_outer(*v),
                Tile::Sou(v) => rank_outer(*v),
                Tile::Honor(_) => true,
            };
            if outer {
                10000
            } else {
                0
            }
        },
        TargetYaku::Junchan => {
            let outer = match tile {
                Tile::Man(v) => rank_outer(*v),
                Tile::Pin(v) => rank_outer(*v),
                Tile::Sou(v) => rank_outer(*v),
                Tile::Honor(_) => false,
            };
            if outer {
                10000
            } else {
                0
            }
        },
        TargetYaku::Pinfu => if is_honor {
            10000
        } else {
            0
        },
        TargetYaku::Toitoi | TargetYaku::Sanankou | TargetYaku::Suuankou => if freq >= 2 {
            10000
        } else {
            0
        },
        TargetYaku::Chiitoitsu => if freq == 2 {
            10000
        } else {
            0
        },
        TargetYaku::Kokushi => if is_yaochuuhai && freq == 1 {
            10000
        } else {
            0
        },
        TargetYaku::ChuurenPoutou(s) => if suit_matches(tile, *s) {
            if is_terminal {
                20000
            } else {
                10000
            }
        } else {
            0
        },
        TargetYaku::Daisangen => if *tile == Tile::Honor(Honor::White) || *tile == Tile::Honor(Honor::Green)
            || *tile == Tile::Honor(Honor::Red) {
            10000
        } else {
            0
        },
        TargetYaku::Tsuuiisou => if is_honor {
            10000
        } else {
            0
        },
        TargetYaku::Ryuuiisou => if is_green(tile) {
            10000
        } else {
            0
        },
    };
    base + extra
}

/// How many of the nine ranks of the suit starting at slot `off` the hand
/// holds, among the first `n`.
pub open spec fn ranks_held(f: Seq<u8>, off: int, n: int) -> int
    decreases n,
{
    if n <= 0 {
        0
    } else {
        ranks_held(f, off, n - 1) + pts(f[off + n - 1] > 0, 1)
    }
}

/// Ranks `i`, `i + 1`, `i + 2` in every suit: each suit holds one of them,
/// and the nine slots hold six tiles or more.
pub open spec fn color_window(f: Seq<u8>, i: int) -> bool {
    &&& (f[i] > 0 || f[i + 1] > 0 || f[i + 2] > 0)
    &&& (f[i + 9] > 0 || f[i + 10] > 0 || f[i + 11] > 0)
    &&& (f[i + 18] > 0 || f[i + 19] > 0 || f[i + 20] > 0)
    &&& f[i] + f[i + 9] + f[i + 18] + f[i + 1] + f[i + 10] + f[i + 19] + f[i + 2] + f[i + 11] + f[i
        + 20] >= 6
}

/// The points of the suits and the terminals: 5 for one suit or 2 with
/// honors, 1 for all simples, 2 for all terminals and honors, 1 for eight
/// terminals and honors in a hand that is not all simples.
#[verifier::opaque]
pub open spec fn suit_points(c: Seq<Tile>) -> int {
    (if one_suit(c) {
        5int
    } else if one_suit_and_honors(c) {
        2
    } else {
        0
    }) + pts(all_simples(c), 1) + pts(all_yaochuu(c), 2) + pts(
        count_tiles_where(c, |t: Tile| yaochuu(t)) >= 8 && !all_simples(c),
        1,
    )
}

/// One point for each of red, green, white, the seat wind and the round
/// wind held at least twice (a wind that is both counts twice).
#[verifier::opaque]
pub open spec fn value_pair_points(f: Seq<u8>, jikaze: Wind, bakaze: Wind) -> int {
    pts(f[33] >= 2, 1) + pts(f[32] >= 2, 1) + pts(f[31] >= 2, 1) + pts(
        f[index_of(Tile::Honor(jikaze.honor_of()))] >= 2,
        1,
    ) + pts(f[index_of(Tile::Honor(bakaze.honor_of()))] >= 2, 1)
}

/// 2 for four kinds held twice, 1 when a suit holds seven of its ranks, 1
/// for a three-colour window.
#[verifier::opaque]
pub open spec fn shape_points(f: Seq<u8>) -> int {
    pts(slots_with(f, 34, 2) >= 4, 2) + pts(
        ranks_held(f, 0, 9) >= 7 || ranks_held(f, 9, 9) >= 7 || ranks_held(f, 18, 9) >= 7,
        1,
    ) + pts(exists|i: int| 0 <= i < 7 && color_window(f, i), 1)
}

/// A quick estimate of the han a hand is heading for.
pub open spec fn estimated_han(c: Seq<Tile>, jikaze: Wind, bakaze: Wind) -> int {
    suit_points(c) + value_pair_points(freq_seq(c), jikaze, bakaze) + shape_points(freq_seq(c))
}

fn ranks_in(freq: &[u8; 34], off: usize) -> (n: u8)
    requires
        off <= 25,
    ensures
        n == ranks_held(freq@, off as int, 9),
{
    let mut n: u8 = 0;
    let mut k: usize = 0;
    while k < 9
        invariant
            k <= 9,
            off <= 25,
            n == ranks_held(freq@, off as int, k as int),
            n <= k,
        decreases 9 - k,
    {
        if freq[off + k] > 0 {
            n = n + 1;
        }
        k = k + 1;
    }
    n
}

fn count_pairs(freq: &[u8; 34]) -> (n: u8)
    ensures
        n == slots_with(freq@, 34, 2),
{
    let mut n: u8 = 0;
    let mut k: usize = 0;
    while k < 34
        invariant
            k <= 34,
            n == slots_with(freq@, k as int, 2),
            n <= k,
        decreases 34 - k,
    {
        if freq[k] >= 2 {
            n = n + 1;
        }
        k = k + 1;
    }
    n
}

fn count_yaochuu(hand: &[Tile]) -> (n: usize)
    ensures
        n == count_tiles_where(hand@, |t: Tile| yaochuu(t)),
{
    let mut n: usize = 0;
    let mut k: usize = 0;
    while k < hand.len()
        invariant
            k <= hand@.len(),
            n == count_tiles_where(hand@.take(k as int), |t: Tile| yaochuu(t)),
            n <= k,
        decreases hand@.len() - k,
    {
        assert(hand@.take(k + 1).drop_last() == hand@.take(k as int));
        if is_yaochuuhai(&hand[k]) {
            n = n + 1;
        }
        k = k + 1;
    }
    assert(hand@.take(k as int) == hand@);
    n
}

fn has_color_window(freq: &[u8; 34]) -> (b: bool)
    ensures
        b == exists|i: int| 0 <= i < 7 && color_window(freq@, i),
{
    let mut i: usize = 0;
    while i < 7
        invariant
            i <= 7,
            forall|j: int| 0 <= j < i ==> !color_window(freq@, j),
        decreases 7 - i,
    {
        let man_has = freq[i] > 0 || freq[i + 1] > 0 || freq[i + 2] > 0;
        let pin_has = freq[i + 9] > 0 || freq[i + 10] > 0 || freq[i + 11] > 0;
        let sou_has = freq[i + 18] > 0 || freq[i + 19] > 0 || freq[i + 20] > 0;
        if man_has && pin_has && sou_has {
            let total: u16 = freq[i] as u16 + freq[i + 9] as u16 + freq[i + 18] as u16 + freq[i + 1] as u16
                + freq[i + 10] as u16 + freq[i + 19] as u16 + freq[i + 2] as u16 + freq[i + 11] as u16
                + freq[i + 20] as u16;
            if total >= 6 {
                assert(color_window(freq@, i as int));
                return true;
            }
        }
        i = i + 1;
    }
    false
}

fn bump(h: u8, b: bool, n: u8) -> (r: u8)
    requires
        h + n <= 255,
    ensures
        r == h + pts(b, n as int),
{
    if b {
        h + n
    } else {
        h
    }
}

fn suit_part(combined_hand: &[Tile]) -> (han: u8)
    ensures
        han == suit_points(combined_hand@),
        han <= 8,
{
    proof {
        reveal(suit_points);
    }
    let cs = chinitsu(combined_hand);
    let hs = !cs && honitsu(combined_hand);
    let simple = tanyao(combined_hand);
    let outer = honroutou(combined_hand);
    let chanta_like = count_yaochuu(combined_hand) >= 8 && !simple;
    let mut han: u8 = 0;
    han = bump(han, cs, 5);
    han = bump(han, hs, 2);
    han = bump(han, simple, 1);
    han = bump(han, outer, 2);
    han = bump(han, chanta_like, 1);
    han
}

fn value_pair_part(freq: &[u8; 34], jikaze: &Wind, bakaze: &Wind) -> (han: u8)
    ensures
        han == value_pair_points(freq@, *jikaze, *bakaze),
        han <= 5,
{
    proof {
        reveal(value_pair_points);
    }
    let jh = tile_to_index(&Tile::Honor(jikaze.wind_to_honor()));
    let bh = tile_to_index(&Tile::Honor(bakaze.wind_to_honor()));
    let mut han: u8 = 0;
    han = bump(han, freq[33] >= 2, 1);
    han = bump(han, freq[32] >= 2, 1);
    han = bump(han, freq[31] >= 2, 1);
    han = bump(han, freq[jh] >= 2, 1);
    han = bump(han, freq[bh] >= 2, 1);
    han
}

fn shape_part(freq: &[u8; 34]) -> (han: u8)
    ensures
        han == shape_points(freq@),
        han <= 4,
{
    proof {
        reveal(shape_points);
    }
    let pairs = count_pairs(freq) >= 4;
    let straight = ranks_in(freq, 0) >= 7 || ranks_in(freq, 9) >= 7 || ranks_in(freq, 18) >= 7;
    let window = has_color_window(freq);
    let mut han: u8 = 0;
    han = bump(han, pairs, 2);
    han = bump(han, straight, 1);
    han = bump(han, window, 1);
    han
}

pub fn estimate_yaku_han(combined_hand: &[Tile], jikaze: &Wind, bakaze: &Wind) -> (han: u8)
    requires
        all_valid(combined_hand@),
        combined_hand@.len() <= 255,
    ensures
        han == estimated_han(combined_hand@, *jikaze, *bakaze),
        han <= 17,
{
    proof {
        crate::counting::lemma_short_kinds_fit(combined_hand@);
    }
    let freq = tiles_to_frequency_array(combined_hand);
    let a = suit_part(combined_hand);
    let b = value_pair_part(&freq, jikaze, bakaze);
    let c = shape_part(&freq);
    a + b + c
}

/// The copies of kind `j` not yet seen: four less those held and those the
/// table shows, and never below zero.
pub open spec fn unseen(f: Seq<u8>, vis: Seq<u8>, j: int) -> int {
    if 4 - f[j] - vis[j] > 0 {
        4 - f[j] - vis[j]
    } else {
        0
    }
}

/// The unseen copies of the first `n` kinds of `uke`.
pub open spec fn unseen_total(uke: Seq<usize>, f: Seq<u8>, vis: Seq<u8>, n: int) -> int
    decreases n,
{
    if n <= 0 {
        0
    } else {
        unseen_total(uke, f, vis, n - 1) + unseen(f, vis, uke[n - 1] as int)
    }
}

/// One of the kinds of `uke` lies in the discards `kawa`.
pub open spec fn any_discarded(uke: Seq<usize>, kawa: Seq<Tile>) -> bool {
    exists|j: int| 0 <= j < uke.len() && kawa.contains(tile_of(#[trigger] uke[j] as int))
}

/// Some indicator points at `t`.
pub open spec fn is_dora_of(inds: Seq<Tile>, t: Tile) -> bool {
    exists|k: int| 0 <= k < inds.len() && dora_of(#[trigger] inds[k]) == t
}

/// The score of discarding a tile of kind `i` from the counts `f` (lower is
/// better): a thousand for each step of shanten left, less the unseen copies
/// of the tiles that would then advance the hand, plus the penalty of the
/// target hand unless the player defends, plus 15000 when the hand would be
/// tenpai on a wait already discarded.
pub open spec fn discard_score(
    f: Seq<u8>,
    i: int,
    vis: Seq<u8>,
    kawa: Seq<Tile>,
    inds: Seq<Tile>,
    target: TargetYaku,
    defend: bool,
) -> int {
    let f2 = f.update(i, (f[i] - 1) as u8);
    let sh = shanten_of(f2);
    let uke = ukeire_upto(f2, sh, 34);
    sh * 1000 - unseen_total(uke, f2, vis, uke.len() as int) + (if defend {
        0
    } else {
        discard_penalty(tile_of(i), target, f[i], is_dora_of(inds, tile_of(i)))
    }) + (if sh == 0 && any_discarded(uke, kawa) {
        15000int
    } else {
        0
    })
}

pub(crate) fn unseen_count(uke: &Vec<usize>, freq: &[u8; 34], visible_tiles: &[u8; 34]) -> (n: i64)
    requires
        uke@.len() <= 34,
        forall|j: int| 0 <= j < uke@.len() ==> (#[trigger] uke@[j]) < 34,
    ensures
        n == unseen_total(uke@, freq@, visible_tiles@, uke@.len() as int),
        0 <= n <= 4 * uke@.len(),
{
    let mut n: i64 = 0;
    let mut k: usize = 0;
    while k < uke.len()
        invariant
            k <= uke@.len() <= 34,
            forall|j: int| 0 <= j < uke@.len() ==> (#[trigger] uke@[j]) < 34,
            n == unseen_total(uke@, freq@, visible_tiles@, k as int),
            0 <= n <= 4 * k,
        decreases uke@.len() - k,
    {
        let j = uke[k];
        let left: i64 = 4 - freq[j] as i64 - visible_tiles[j] as i64;
        if left > 0 {
            n = n + left;
        }
        k = k + 1;
    }
    n
}

fn wait_discarded(uke: &Vec<usize>, own_kawa: &[Tile]) -> (b: bool)
    requires
        forall|j: int| 0 <= j < uke@.len() ==> (#[trigger] uke@[j]) < 34,
    ensures
        b == any_discarded(uke@, own_kawa@),
{
    let mut k: usize = 0;
    while k < uke.len()
        invariant
            k <= uke@.len(),
            forall|j: int| 0 <= j < uke@.len() ==> (#[trigger] uke@[j]) < 34,
            forall|j: int| 0 <= j < k ==> !own_kawa@.contains(tile_of(#[trigger] uke@[j] as int)),
        decreases uke@.len() - k,
    {
        if contains_tile(own_kawa, &index_to_tile(uke[k])) {
            return true;
        }
        k = k + 1;
    }
    false
}

fn dora_check(dora_indicators: &[Tile], t: &Tile) -> (b: bool)
    ensures
        b == is_dora_of(dora_indicators@, *t),
{
    let mut k: usize = 0;
    while k < dora_indicators.len()
        invariant
            k <= dora_indicators@.len(),
            forall|j: int| 0 <= j < k ==> dora_of(#[trigger] dora_indicators@[j]) != *t,
        decreases dora_indicators@.len() - k,
    {
        if *t == get_dora_from_indicator(&dora_indicators[k]) {
            return true;
        }
        k = k + 1;
    }
    false
}

pub(crate) proof fn lemma_ukeire_below_34(f: Seq<u8>, c: int, n: int)
    requires
        n <= 34,
    ensures
        forall|j: int| 0 <= j < ukeire_upto(f, c, n).len() ==> (#[trigger] ukeire_upto(f, c, n)[j]) < 34,
        ukeire_upto(f, c, n).len() <= if n < 0 { 0 } else { n },
    decreases n,
{
    if n > 0 {
        lemma_ukeire_below_34(f, c, n - 1);
        let rest = ukeire_upto(f, c, n - 1);
        let all = ukeire_upto(f, c, n);
        assert forall|j: int| 0 <= j < all.len() implies (#[trigger] all[j]) < 34 by {
            if j < rest.len() {
                assert(all[j] == rest[j]);
            }
        }
    }
}

fn score_discard(
    freq: &mut [u8; 34],
    i: usize,
    visible_tiles: &[u8; 34],
    own_kawa: &[Tile],
    dora_indicators: &[Tile],
    target_yaku: TargetYaku,
    should_defend: bool,
) -> (score: i64)
    requires
        i < 34,
        old(freq)@[i as int] > 0,
        fsum(old(freq)@) <= 255,
    ensures
        final(freq)@ == old(freq)@,
        score == discard_score(
            old(freq)@,
            i as int,
            visible_tiles@,
            own_kawa@,
            dora_indicators@,
            target_yaku,
            should_defend,
        ),
{
    let ghost f = freq@;
    let original_freq = freq[i];
    freq[i] = freq[i] - 1;
    proof {
        crate::shanten::lemma_fsum_update(f, i as int, (f[i as int] - 1) as u8);
    }
    let ghost f2 = freq@;
    assert(f2 == f.update(i as int, (f[i as int] - 1) as u8));
    let shanten = calculate_shanten_from_array(freq);
    let ukeire = ukeire_tiles(freq, shanten);
    proof {
        lemma_ukeire_below_34(f2, shanten as int, 34);
    }
    let ukeire_count = unseen_count(&ukeire, freq, visible_tiles);
    let mut furiten_penalty: i64 = 0;
    if shanten == 0 && wait_discarded(&ukeire, own_kawa) {
        furiten_penalty = 15000;
    }
    let current_tile = index_to_tile(i);
    let is_dora = dora_check(dora_indicators, &current_tile);
    let penalty: i64 = if should_defend {
        0
    } else {
        get_discard_penalty(&current_tile, &target_yaku, original_freq, is_dora) as i64
    };
    freq[i] = original_freq;
    assert(freq@ =~= f);
    (shanten as i64) * 1000 - ukeire_count + penalty + furiten_penalty
}

pub open spec fn forbidden_view(forbidden: Option<&[Tile]>) -> Option<Seq<Tile>> {
    match forbidden {
        Some(f) => Some(f@),
        None => None,
    }
}

pub open spec fn forbids(forbidden: Option<Seq<Tile>>, t: Tile) -> bool {
    forbidden matches Some(fb) && fb.contains(t)
}

/// Kind `i` may be discarded: the hand holds it (among its closed tiles),
/// it is not forbidden, and when the player defends while holding a safe
/// tile it must be safe.
pub open spec fn discard_allowed(
    i: int,
    hand: Seq<Tile>,
    f: Seq<u8>,
    forbidden: Option<Seq<Tile>>,
    has_safe: bool,
    sf: Seq<u8>,
    defend: bool,
) -> bool {
    f[i] != 0 && hand.contains(tile_of(i)) && !forbids(forbidden, tile_of(i)) && !(has_safe && sf[i] == 0
        && defend)
}

/// Over the first `n` kinds: the kind of the lowest score so far (the first
/// of equal scores), its score, and whether any kind was allowed.
pub open spec fn pick_upto(
    n: int,
    hand: Seq<Tile>,
    f: Seq<u8>,
    vis: Seq<u8>,
    forbidden: Option<Seq<Tile>>,
    has_safe: bool,
    sf: Seq<u8>,
    defend: bool,
    kawa: Seq<Tile>,
    inds: Seq<Tile>,
    target: TargetYaku,
) -> (int, int, bool)
    decreases n,
{
    if n <= 0 {
        (0, 2147483647, false)
    } else {
        let p = pick_upto(n - 1, hand, f, vis, forbidden, has_safe, sf, defend, kawa, inds, target);
        let i = n - 1;
        if !discard_allowed(i, hand, f, forbidden, has_safe, sf, defend) {
            p
        } else {
            let sc = discard_score(f, i, vis, kawa, inds, target, defend);
            if sc < p.1 {
                (i, sc, true)
            } else {
                (p.0, p.1, true)
            }
        }
    }
}

/// The kind a bot picks among the first `n` is the first allowed kind of the
/// lowest score: any kind is picked only when some kind is allowed; the
/// picked kind is allowed and its score is the one reported; no allowed kind
/// scores lower; and every allowed kind before it scores higher.
pub proof fn lemma_pick_is_the_lowest(
    n: int,
    hand: Seq<Tile>,
    f: Seq<u8>,
    vis: Seq<u8>,
    forbidden: Option<Seq<Tile>>,
    has_safe: bool,
    sf: Seq<u8>,
    defend: bool,
    kawa: Seq<Tile>,
    inds: Seq<Tile>,
    target: TargetYaku,
)
    requires
        0 <= n,
    ensures
        ({
            let p = pick_upto(n, hand, f, vis, forbidden, has_safe, sf, defend, kawa, inds, target);
            &&& p.2 <==> exists|i: int| 0 <= i < n && #[trigger] discard_allowed(i, hand, f, forbidden, has_safe, sf, defend)
            &&& p.2 ==> 0 <= p.0 < n && discard_allowed(p.0, hand, f, forbidden, has_safe, sf, defend)
                && p.1 == discard_score(f, p.0, vis, kawa, inds, target, defend)
            &&& forall|i: int|
                0 <= i < n && #[trigger] discard_allowed(i, hand, f, forbidden, has_safe, sf, defend) ==> p.1
                    <= discard_score(f, i, vis, kawa, inds, target, defend)
            &&& p.2 ==> forall|i: int|
                0 <= i < p.0 && #[trigger] discard_allowed(i, hand, f, forbidden, has_safe, sf, defend) ==> p.1
                    < discard_score(f, i, vis, kawa, inds, target, defend)
        }),
    decreases n,
{
    if n > 0 {
        lemma_pick_is_the_lowest(n - 1, hand, f, vis, forbidden, has_safe, sf, defend, kawa, inds, target);
        lemma_discard_score_small(f, n - 1, vis, kawa, inds, target, defend);
        let q = pick_upto(n - 1, hand, f, vis, forbidden, has_safe, sf, defend, kawa, inds, target);
        if !q.2 {
            assert(q.1 == 2147483647) by {
                lemma_pick_start(n - 1, hand, f, vis, forbidden, has_safe, sf, defend, kawa, inds, target);
            }
        }
    }
}

proof fn lemma_unseen_total_nonneg(uke: Seq<usize>, f: Seq<u8>, vis: Seq<u8>, n: int)
    ensures
        unseen_total(uke, f, vis, n) >= 0,
    decreases n,
{
    if n > 0 {
        lemma_unseen_total_nonneg(uke, f, vis, n - 1);
    }
}

proof fn lemma_discard_score_small(
    f: Seq<u8>,
    i: int,
    vis: Seq<u8>,
    kawa: Seq<Tile>,
    inds: Seq<Tile>,
    target: TargetYaku,
    defend: bool,
)
    ensures
        discard_score(f, i, vis, kawa, inds, target, defend) < 2147483647,
{
    let f2 = f.update(i, (f[i] - 1) as u8);
    crate::shanten::lemma_shanten_at_most_six(f2);
    let sh = shanten_of(f2);
    let uke = ukeire_upto(f2, sh, 34);
    lemma_unseen_total_nonneg(uke, f2, vis, uke.len() as int);
}

proof fn lemma_pick_start(
    n: int,
    hand: Seq<Tile>,
    f: Seq<u8>,
    vis: Seq<u8>,
    forbidden: Option<Seq<Tile>>,
    has_safe: bool,
    sf: Seq<u8>,
    defend: bool,
    kawa: Seq<Tile>,
    inds: Seq<Tile>,
    target: TargetYaku,
)
    ensures
        !pick_upto(n, hand, f, vis, forbidden, has_safe, sf, defend, kawa, inds, target).2 ==> pick_upto(
            n,
            hand,
            f,
            vis,
            forbidden,
            has_safe,
            sf,
            defend,
            kawa,
            inds,
            target,
        ) == (0int, 2147483647int, false),
    decreases n,
{
    if n > 0 {
        lemma_pick_start(n - 1, hand, f, vis, forbidden, has_safe, sf, defend, kawa, inds, target);
    }
}

/// The first tile of the hand from position `k` on that is not forbidden.
pub open spec fn first_allowed(hand: Seq<Tile>, forbidden: Option<Seq<Tile>>, k: int) -> Option<Tile>
    decreases hand.len() - k,
{
    if k < 0 || k >= hand.len() {
        None
    } else if forbids(forbidden, hand[k]) {
        first_allowed(hand, forbidden, k + 1)
    } else {
        Some(hand[k])
    }
}

/// The discard a bot picks: the allowed kind of the lowest score. When no
/// kind is allowed, the first tile of the hand that is not forbidden, and
/// failing that the first kind (1 man).
pub open spec fn discard_choice(
    hand: Seq<Tile>,
    open: Seq<Mentsu>,
    vis: Seq<u8>,
    safe: Seq<Tile>,
    defend: bool,
    forbidden: Option<Seq<Tile>>,
    target: TargetYaku,
    inds: Seq<Tile>,
    kawa: Seq<Tile>,
) -> Tile {
    let f = freq_seq(hand + meld_tiles(open));
    let sf = freq_seq(safe);
    let has_safe = exists|k: int| 0 <= k < safe.len() && hand.contains(#[trigger] safe[k]);
    let p = pick_upto(34, hand, f, vis, forbidden, has_safe, sf, defend, kawa, inds, target);
    if !p.2 {
        match first_allowed(hand, forbidden, 0) {
            Some(t) => t,
            None => tile_of(p.0),
        }
    } else {
        tile_of(p.0)
    }
}

fn is_forbidden(forbidden: Option<&[Tile]>, t: &Tile) -> (b: bool)
    ensures
        b == forbids(forbidden_view(forbidden), *t),
{
    match forbidden {
        Some(f) => contains_tile(f, t),
        None => false,
    }
}

fn holds_safe_tile(hand: &[Tile], safe_tiles: &[Tile]) -> (b: bool)
    ensures
        b == exists|k: int| 0 <= k < safe_tiles@.len() && hand@.contains(#[trigger] safe_tiles@[k]),
{
    let mut k: usize = 0;
    while k < safe_tiles.len()
        invariant
            k <= safe_tiles@.len(),
            forall|j: int| 0 <= j < k ==> !hand@.contains(#[trigger] safe_tiles@[j]),
        decreases safe_tiles@.len() - k,
    {
        if contains_tile(hand, &safe_tiles[k]) {
            return true;
        }
        k = k + 1;
    }
    false
}

fn first_allowed_tile(hand: &[Tile], forbidden: Option<&[Tile]>) -> (r: Option<Tile>)
    ensures
        r == first_allowed(hand@, forbidden_view(forbidden), 0),
{
    let mut k: usize = 0;
    while k < hand.len()
        invariant
            k <= hand@.len(),
            first_allowed(hand@, forbidden_view(forbidden), 0) == first_allowed(
                hand@,
                forbidden_view(forbidden),
                k as int,
            ),
        decreases hand@.len() - k,
    {
        if !is_forbidden(forbidden, &hand[k]) {
            return Some(hand[k]);
        }
        k = k + 1;
    }
    None
}

/// Picks the tile to discard (see `discard_choice`). `visible_tiles` counts
/// the tiles the table shows, `safe_tiles` the tiles that cannot deal in,
/// `own_kawa` the player's own discards.
pub fn evaluate_discard(
    hand_plus_drawn: &[Tile],
    open_mentsu: &[Mentsu],
    visible_tiles: &[u8; 34],
    safe_tiles: &[Tile],
    should_defend: bool,
    forbidden: Option<&[Tile]>,
    target_yaku: TargetYaku,
    dora_indicators: &[Tile],
    own_kawa: &[Tile],
) -> (discard: Tile)
    requires
        all_valid(hand_plus_drawn@ + meld_tiles(open_mentsu@)),
        (hand_plus_drawn@ + meld_tiles(open_mentsu@)).len() <= 255,
        all_valid(safe_tiles@),
        safe_tiles@.len() <= 255,
    ensures
        discard == discard_choice(
            hand_plus_drawn@,
            open_mentsu@,
            visible_tiles@,
            safe_tiles@,
            should_defend,
            forbidden_view(forbidden),
            target_yaku,
            dora_indicators@,
            own_kawa@,
        ),
{
    proof {
        crate::counting::lemma_short_kinds_fit(safe_tiles@);
    }
    let safe_map = tiles_to_frequency_array(safe_tiles);
    let has_safe_tiles = holds_safe_tile(hand_plus_drawn, safe_tiles);
    let combined_hand = combine_tiles(hand_plus_drawn, open_mentsu);
    proof {
        crate::counting::lemma_short_kinds_fit(combined_hand@);
    }
    let mut freq_array = tiles_to_frequency_array(combined_hand.as_slice());
    proof {
        crate::shanten::lemma_fsum_freq_seq(combined_hand@);
    }
    let ghost f = freq_array@;
    let mut best_index: usize = 0;
    let mut best_score: i64 = 2147483647;
    let mut found_valid = false;
    let mut i: usize = 0;
    while i < 34
        invariant
            i <= 34,
            best_index < 34,
            freq_array@ == f,
            f == freq_seq(hand_plus_drawn@ + meld_tiles(open_mentsu@)),
            fsum(f) <= 255,
            (best_index as int, best_score as int, found_valid) == pick_upto(
                i as int,
                hand_plus_drawn@,
                f,
                visible_tiles@,
                forbidden_view(forbidden),
                has_safe_tiles,
                safe_map@,
                should_defend,
                own_kawa@,
                dora_indicators@,
                target_yaku,
            ),
        decreases 34 - i,
    {
        let current_tile = index_to_tile(i);
        let allowed = freq_array[i] != 0 && contains_tile(hand_plus_drawn, &current_tile)
            && !is_forbidden(forbidden, &current_tile) && !(has_safe_tiles && safe_map[i] == 0
            && should_defend);
        if allowed {
            found_valid = true;
            let score = score_discard(
                &mut freq_array,
                i,
                visible_tiles,
                own_kawa,
                dora_indicators,
                target_yaku,
                should_defend,
            );
            if score < best_score {
                best_score = score;
                best_index = i;
            }
        }
        i = i + 1;
    }
    if !found_valid {
        if let Some(t) = first_allowed_tile(hand_plus_drawn, forbidden) {
            return t;
        }
    }
    index_to_tile(best_index)
}

} // verus!
