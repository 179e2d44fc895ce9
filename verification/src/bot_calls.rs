//! The rules a bot follows around calls and defence, apart from its dice
//! and its temperament: which calls a target hand forbids or demands, how a
//! hand would stand after each call on offer, whether a call is worth a
//! roll at all, the suji that a threat's discards make safe, and the tiles
//! a riichi declaration rules out.

use vstd::prelude::*;
use crate::tile::{
    Tile, Honor, Mentsu, Wind, Suit, TargetYaku, ChiTilePos, all_valid, valid_tile, yaochuu, green_tile,
    honor_tile, next_of, prev_of, next_tile_sequence, previous_tile_sequence, is_yaochuuhai, is_green,
    is_honor,
};
use crate::counting::{freq_seq, meld_tiles, combine_tiles, tiles_to_frequency_array, contains_tile};
use crate::shanten::{shanten_of, ukeire_upto, calculate_shanten_from_array, ukeire_tiles};
use crate::scoring::{dora_total, pointing_at, get_dora_from_indicator};
use crate::bot::{estimated_han, estimate_yaku_han, in_suit};
use crate::naki::{without_first, drop_kind, chi_needs};
use crate::table::Hand;

verus! {

/// Target hands that must stay closed: no call helps them.
pub open spec fn closed_target(target: TargetYaku) -> bool {
    match target {
        TargetYaku::Pinfu => true,
        TargetYaku::Kokushi => true,
        TargetYaku::Suuankou => true,
        TargetYaku::Sanankou => true,
        TargetYaku::Chiitoitsu => true,
        TargetYaku::ChuurenPoutou(_) => true,
        _ => false,
    }
}

/// A call the target hand refuses: any call for a closed target; a call of
/// another suit (or an honor) towards chinitsu; of another suit towards
/// honitsu; of a terminal or honor towards tanyao; of a tile that is not
/// green towards ryuuiisou; of a number towards tsuuiisou.
pub open spec fn refuses_call(target: TargetYaku, t: Tile) -> bool {
    closed_target(target) || match target {
        TargetYaku::Chinitsu(s) => !in_suit(t, s),
        TargetYaku::Honitsu(s) => !in_suit(t, s) && !honor_tile(t),
        TargetYaku::Tanyao => yaochuu(t),
        TargetYaku::Ryuuiisou => !green_tile(t),
        TargetYaku::Tsuuiisou => !honor_tile(t),
        _ => false,
    }
}

fn suit_is(t: &Tile, s: Suit) -> (b: bool)
    ensures
        b == in_suit(*t, s),
{
    match t {
        Tile::Man(_) => s == Suit::Man,
        Tile::Pin(_) => s == Suit::Pin,
        Tile::Sou(_) => s == Suit::Sou,
        Tile::Honor(_) => false,
    }
}

pub fn call_refused(target: TargetYaku, called: &Tile) -> (b: bool)
    ensures
        b == refuses_call(target, *called),
{
    match target {
        TargetYaku::Pinfu | TargetYaku::Kokushi | TargetYaku::Suuankou | TargetYaku::Sanankou
        | TargetYaku::Chiitoitsu | TargetYaku::ChuurenPoutou(_) => true,
        TargetYaku::Chinitsu(s) => !suit_is(called, s),
        TargetYaku::Honitsu(s) => !suit_is(called, s) && !is_honor(called),
        TargetYaku::Tanyao => is_yaochuuhai(called),
        TargetYaku::Ryuuiisou => !is_green(called),
        TargetYaku::Tsuuiisou => !is_honor(called),
        _ => false,
    }
}

/// A call the target hand cannot do without: a dragon towards daisangen, an
/// honor towards tsuuiisou, a green tile towards ryuuiisou.
pub open spec fn critical_call(target: TargetYaku, t: Tile) -> bool {
    match target {
        TargetYaku::Daisangen => t == Tile::Honor(Honor::White) || t == Tile::Honor(Honor::Green) || t
            == Tile::Honor(Honor::Red),
        TargetYaku::Tsuuiisou => honor_tile(t),
        TargetYaku::Ryuuiisou => green_tile(t),
        _ => false,
    }
}

pub fn is_critical_call(target: TargetYaku, called: &Tile) -> (b: bool)
    ensures
        b == critical_call(target, *called),
{
    match target {
        TargetYaku::Daisangen => *called == Tile::Honor(Honor::White) || *called == Tile::Honor(Honor::Green)
            || *called == Tile::Honor(Honor::Red),
        TargetYaku::Tsuuiisou => is_honor(called),
        TargetYaku::Ryuuiisou => is_green(called),
        _ => false,
    }
}

/// How a hand stands, best first by the order of the fields: its estimated
/// han, minus its shanten, the kinds that advance it, its dora.
#[derive(Clone, Copy, PartialEq, Eq, Debug, Structural)]
pub struct CallScore {
    pub han: i32,
    pub neg_shanten: i32,
    pub ukeire: i32,
    pub dora: i32,
}

#[verifier::opaque]
pub open spec fn score_of(hand: Seq<Tile>, open: Seq<Mentsu>, jikaze: Wind, bakaze: Wind, inds: Seq<Tile>) -> CallScore {
    let c = hand + meld_tiles(open);
    let f = freq_seq(c);
    let sh = shanten_of(f);
    CallScore {
        han: estimated_han(c, jikaze, bakaze) as i32,
        neg_shanten: -sh as i32,
        ukeire: ukeire_upto(f, sh, 34).len() as i32,
        dora: dora_total(c, inds) as i32,
    }
}

/// Compares scores field by field.
pub open spec fn score_less(a: CallScore, b: CallScore) -> bool {
    a.han < b.han || (a.han == b.han && (a.neg_shanten < b.neg_shanten || (a.neg_shanten == b.neg_shanten
        && (a.ukeire < b.ukeire || (a.ukeire == b.ukeire && a.dora < b.dora)))))
}

fn less(a: &CallScore, b: &CallScore) -> (r: bool)
    ensures
        r == score_less(*a, *b),
{
    a.han < b.han || (a.han == b.han && (a.neg_shanten < b.neg_shanten || (a.neg_shanten == b.neg_shanten
        && (a.ukeire < b.ukeire || (a.ukeire == b.ukeire && a.dora < b.dora)))))
}

proof fn lemma_ukeire_len(f: Seq<u8>, c: int, n: int)
    requires
        0 <= n,
    ensures
        ukeire_upto(f, c, n).len() <= n,
    decreases n,
{
    if n > 0 {
        lemma_ukeire_len(f, c, n - 1);
    }
}

/// Scores the hand `hand` with the melds `open` (see `score_of`).
pub fn call_score(
    hand: &[Tile],
    open_mentsu: &[Mentsu],
    jikaze: &Wind,
    bakaze: &Wind,
    dora_indicators: &[Tile],
) -> (s: CallScore)
    requires
        all_valid(hand@ + meld_tiles(open_mentsu@)),
        (hand@ + meld_tiles(open_mentsu@)).len() <= 255,
        dora_indicators@.len() <= 255,
    ensures
        s == score_of(hand@, open_mentsu@, *jikaze, *bakaze, dora_indicators@),
{
    proof {
        reveal(score_of);
    }
    let combined = combine_tiles(hand, open_mentsu);
    proof {
        crate::counting::lemma_short_kinds_fit(combined@);
    }
    let mut freq = tiles_to_frequency_array(combined.as_slice());
    proof {
        crate::shanten::lemma_fsum_freq_seq(combined@);
    }
    let shanten = calculate_shanten_from_array(&mut freq);
    let ukeire = ukeire_tiles(&mut freq, shanten);
    proof {
        lemma_ukeire_len(freq@, shanten as int, 34);
    }
    let han = estimate_yaku_han(combined.as_slice(), jikaze, bakaze);
    let dora = dora_in(combined.as_slice(), dora_indicators);
    assert(-(shanten as int) == -shanten as int);
    CallScore { han: han as i32, neg_shanten: -(shanten as i64) as i32, ukeire: ukeire.len() as i32, dora: dora as i32 }
}

pub(crate) fn dora_in(hand: &[Tile], inds: &[Tile]) -> (n: u32)
    requires
        hand@.len() <= 255,
        inds@.len() <= 255,
    ensures
        n == dora_total(hand@, inds@),
        n <= 255 * 255,
{
    let mut n: u32 = 0;
    let mut k: usize = 0;
    while k < hand.len()
        invariant
            k <= hand@.len() <= 255,
            inds@.len() <= 255,
            n == dora_total(hand@.take(k as int), inds@),
            n <= k * 255,
        decreases hand@.len() - k,
    {
        assert(hand@.take(k + 1).drop_last() == hand@.take(k as int));
        let mut c: u32 = 0;
        let mut j: usize = 0;
        while j < inds.len()
            invariant
                j <= inds@.len() <= 255,
                k < hand@.len(),
                c == pointing_at(hand@[k as int], inds@.take(j as int)),
                c <= j,
            decreases inds@.len() - j,
        {
            assert(inds@.take(j + 1).drop_last() == inds@.take(j as int));
            if hand[k] == get_dora_from_indicator(&inds[j]) {
                c = c + 1;
            }
            j = j + 1;
        }
        assert(inds@.take(j as int) == inds@);
        n = n + c;
        k = k + 1;
    }
    assert(hand@.take(k as int) == hand@);
    n
}

/// Whether a call is worth a roll of the bot's dice: it must not break a
/// closed tenpai, must not be a cheap win the bot is too nervous for (under
/// two han with dora), must not raise the shanten, and must bring a yaku.
pub open spec fn call_worth_roll(
    is_closed: bool,
    pre_shanten: int,
    post_shanten: int,
    best_han: int,
    best_dora: int,
    refuses_cheap_win: bool,
) -> bool {
    !(is_closed && pre_shanten == 0) && !(refuses_cheap_win && best_han + best_dora < 2) && pre_shanten
        >= post_shanten && best_han > 0
}

pub fn call_eligible(
    is_closed: bool,
    pre_shanten: i32,
    post_shanten: i32,
    best_han: i32,
    best_dora: i32,
    refuses_cheap_win: bool,
) -> (b: bool)
    requires
        i32::MIN <= best_han + best_dora <= i32::MAX,
    ensures
        b == call_worth_roll(
            is_closed,
            pre_shanten as int,
            post_shanten as int,
            best_han as int,
            best_dora as int,
            refuses_cheap_win,
        ),
{
    !(is_closed && pre_shanten == 0) && !(refuses_cheap_win && best_han + best_dora < 2) && pre_shanten
        >= post_shanten && best_han > 0
}

/// The tiles a discard of a threat makes safe by suji: 4 clears 1 and 7, 5
/// clears 2 and 8, 6 clears 3 and 9, in the same suit.
pub open spec fn suji_of(t: Tile) -> Seq<Tile> {
    match t {
        Tile::Man(v) => if v == 4 {
            seq![Tile::Man(1), Tile::Man(7)]
        } else if v == 5 {
            seq![Tile::Man(2), Tile::Man(8)]
        } else if v == 6 {
            seq![Tile::Man(3), Tile::Man(9)]
        } else {
            Seq::empty()
        },
        Tile::Pin(v) => if v == 4 {
            seq![Tile::Pin(1), Tile::Pin(7)]
        } else if v == 5 {
            seq![Tile::Pin(2), Tile::Pin(8)]
        } else if v == 6 {
            seq![Tile::Pin(3), Tile::Pin(9)]
        } else {
            Seq::empty()
        },
        Tile::Sou(v) => if v == 4 {
            seq![Tile::Sou(1), Tile::Sou(7)]
        } else if v == 5 {
            seq![Tile::Sou(2), Tile::Sou(8)]
        } else if v == 6 {
            seq![Tile::Sou(3), Tile::Sou(9)]
        } else {
            Seq::empty()
        },
        Tile::Honor(_) => Seq::empty(),
    }
}

/// The suji tiles of the first `n` discards, in order.
pub open spec fn suji_upto(ds: Seq<Tile>, n: int) -> Seq<Tile>
    decreases n,
{
    if n <= 0 {
        Seq::empty()
    } else {
        suji_upto(ds, n - 1) + suji_of(ds[n - 1])
    }
}

fn push_suji(out: &mut Vec<Tile>, t: &Tile)
    ensures
        final(out)@ == old(out)@ + suji_of(*t),
{
    let pair: Option<(Tile, Tile)> = match t {
        Tile::Man(4) => Some((Tile::Man(1), Tile::Man(7))),
        Tile::Man(5) => Some((Tile::Man(2), Tile::Man(8))),
        Tile::Man(6) => Some((Tile::Man(3), Tile::Man(9))),
        Tile::Pin(4) => Some((Tile::Pin(1), Tile::Pin(7))),
        Tile::Pin(5) => Some((Tile::Pin(2), Tile::Pin(8))),
        Tile::Pin(6) => Some((Tile::Pin(3), Tile::Pin(9))),
        Tile::Sou(4) => Some((Tile::Sou(1), Tile::Sou(7))),
        Tile::Sou(5) => Some((Tile::Sou(2), Tile::Sou(8))),
        Tile::Sou(6) => Some((Tile::Sou(3), Tile::Sou(9))),
        _ => None,
    };
    if let Some((a, b)) = pair {
        out.push(a);
        out.push(b);
    }
    assert(out@ =~= old(out)@ + suji_of(*t));
}

/// The suji tiles of a threat's discards (see `suji_of`).
pub fn suji_safe_tiles(threat_discards: &[Tile]) -> (safe: Vec<Tile>)
    ensures
        safe@ == suji_upto(threat_discards@, threat_discards@.len() as int),
{
    let mut safe: Vec<Tile> = Vec::new();
    let mut k: usize = 0;
    while k < threat_discards.len()
        invariant
            k <= threat_discards@.len(),
            safe@ == suji_upto(threat_discards@, k as int),
        decreases threat_discards@.len() - k,
    {
        push_suji(&mut safe, &threat_discards[k]);
        k = k + 1;
    }
    safe
}

/// While choosing its riichi discard, a player may not discard a tile
/// outside its riichi options: those tiles join the tiles already forbidden.
pub open spec fn riichi_forbidden_upto(hand: Seq<Tile>, options: Seq<Tile>, n: int) -> Seq<Tile>
    decreases n,
{
    if n <= 0 {
        Seq::empty()
    } else {
        riichi_forbidden_upto(hand, options, n - 1) + if options.contains(hand[n - 1]) {
            Seq::<Tile>::empty()
        } else {
            seq![hand[n - 1]]
        }
    }
}

pub fn riichi_selection_forbidden(forbidden: &[Tile], hand_plus_drawn: &[Tile], riichi_options: &[Tile]) -> (out: Vec<Tile>)
    ensures
        out@ == forbidden@ + riichi_forbidden_upto(hand_plus_drawn@, riichi_options@, hand_plus_drawn@.len() as int),
{
    let mut out: Vec<Tile> = Vec::new();
    crate::counting::push_all(&mut out, forbidden);
    let mut k: usize = 0;
    while k < hand_plus_drawn.len()
        invariant
            k <= hand_plus_drawn@.len(),
            out@ == forbidden@ + riichi_forbidden_upto(hand_plus_drawn@, riichi_options@, k as int),
        decreases hand_plus_drawn@.len() - k,
    {
        if !contains_tile(riichi_options, &hand_plus_drawn[k]) {
            out.push(hand_plus_drawn[k]);
        }
        proof {
            assert(out@ =~= forbidden@ + riichi_forbidden_upto(hand_plus_drawn@, riichi_options@, k + 1));
        }
        k = k + 1;
    }
    out
}

/// The two tiles a chi takes from the hand, in the order they are taken,
/// and the run it forms.
pub open spec fn chi_pick(t: Tile, pos: ChiTilePos) -> (Tile, Tile, [Tile; 3]) {
    let n = next_of(t)->0;
    let nn = next_of(n)->0;
    let p = prev_of(t)->0;
    let pp = prev_of(p)->0;
    match pos {
        ChiTilePos::Left => (n, nn, [t, n, nn]),
        ChiTilePos::Middle => (p, n, [p, t, n]),
        ChiTilePos::Right => (pp, p, [pp, p, t]),
    }
}

/// The open kan on offer, scored.
pub open spec fn kan_candidate(hand: Seq<Tile>, open: Seq<Mentsu>, jikaze: Wind, bakaze: Wind, inds: Seq<Tile>, k: Tile) -> (
    CallScore,
    usize,
) {
    let after = drop_kind(hand, k);
    (score_of(after, open.push(Mentsu::Daiminkan([k, k, k, k])), jikaze, bakaze, inds), 0usize)
}

/// The pon on offer, scored.
pub open spec fn pon_candidate(hand: Seq<Tile>, open: Seq<Mentsu>, jikaze: Wind, bakaze: Wind, inds: Seq<Tile>, p: Tile) -> (
    CallScore,
    usize,
) {
    let after = without_first(without_first(hand, p), p);
    (score_of(after, open.push(Mentsu::Koutsu([p, p, p], false)), jikaze, bakaze, inds), 1usize)
}

/// The chi at the `i`-th position on offer, scored.
pub open spec fn chi_candidate(
    hand: Seq<Tile>,
    open: Seq<Mentsu>,
    jikaze: Wind,
    bakaze: Wind,
    inds: Seq<Tile>,
    t: Tile,
    pos: ChiTilePos,
    i: int,
) -> (CallScore, usize) {
    let pick = chi_pick(t, pos);
    let after = without_first(without_first(hand, pick.0), pick.1);
    (score_of(after, open.push(Mentsu::Shuntsu(pick.2, false)), jikaze, bakaze, inds), (2 + i) as usize)
}

/// The calls on offer as (score, action): 0 for the open kan, 1 for the pon,
/// `2 + i` for the chi at the `i`-th position, in that order.
pub open spec fn call_candidates(
    hand: Seq<Tile>,
    open: Seq<Mentsu>,
    jikaze: Wind,
    bakaze: Wind,
    inds: Seq<Tile>,
    kan: Option<Tile>,
    pon: Option<Tile>,
    chi_tile: Tile,
    chi_pos: Seq<ChiTilePos>,
) -> Seq<(CallScore, usize)> {
    let kans = match kan {
        Some(k) => seq![kan_candidate(hand, open, jikaze, bakaze, inds, k)],
        None => Seq::empty(),
    };
    let pons = match pon {
        Some(p) => seq![pon_candidate(hand, open, jikaze, bakaze, inds, p)],
        None => Seq::empty(),
    };
    kans + pons + Seq::new(
        chi_pos.len(),
        |i: int| chi_candidate(hand, open, jikaze, bakaze, inds, chi_tile, chi_pos[i], i),
    )
}

/// The best of the first `n` candidates; among equal scores the last.
pub open spec fn best_candidate(c: Seq<(CallScore, usize)>, n: int) -> Option<(CallScore, usize)>
    decreases n,
{
    if n <= 0 {
        None
    } else {
        let b = best_candidate(c, n - 1);
        match b {
            None => Some(c[n - 1]),
            Some(prev) => if score_less(c[n - 1].0, prev.0) {
                b
            } else {
                Some(c[n - 1])
            },
        }
    }
}
proof fn lemma_without_first_valid(s: Seq<Tile>, t: Tile)
    requires
        all_valid(s),
    ensures
        all_valid(without_first(s, t)),
        without_first(s, t).len() <= s.len(),
{
    crate::decompose::lemma_first_from(s, t, 0);
    if crate::decompose::first_from(s, t, 0) != -1 {
        let k = crate::decompose::first_from(s, t, 0);
        assert forall|i: int| 0 <= i < s.remove(k).len() implies valid_tile(#[trigger] s.remove(k)[i]) by {
            if i < k {
                assert(s.remove(k)[i] == s[i]);
            } else {
                assert(s.remove(k)[i] == s[i + 1]);
            }
        }
    }
}

proof fn lemma_drop_kind_valid(s: Seq<Tile>, t: Tile)
    requires
        all_valid(s),
    ensures
        all_valid(drop_kind(s, t)),
        drop_kind(s, t).len() <= s.len(),
    decreases s.len(),
{
    if s.len() > 0 {
        lemma_drop_kind_valid(s.drop_last(), t);
        let d = drop_kind(s.drop_last(), t);
        if s.last() != t {
            assert forall|i: int| 0 <= i < d.push(s.last()).len() implies valid_tile(#[trigger] d.push(s.last())[i]) by {
                if i < d.len() {
                    assert(d.push(s.last())[i] == d[i]);
                }
            }
        }
    }
}

/// The hand and melds after a call are as valid as before it.
proof fn lemma_after_call_valid(after: Seq<Tile>, open: Seq<Mentsu>, m: Mentsu)
    requires
        all_valid(after),
        all_valid(meld_tiles(open)),
        all_valid(m.tile_seq()),
    ensures
        all_valid(after + meld_tiles(open.push(m))),
        meld_tiles(open.push(m)) == meld_tiles(open) + m.tile_seq(),
{
    assert(open.push(m).drop_last() == open);
    let full = after + meld_tiles(open.push(m));
    assert forall|i: int| 0 <= i < full.len() implies valid_tile(#[trigger] full[i]) by {
        if i < after.len() {
            assert(full[i] == after[i]);
        } else if i < after.len() + meld_tiles(open).len() {
            assert(full[i] == meld_tiles(open)[i - after.len()]);
        } else {
            assert(full[i] == m.tile_seq()[i - after.len() - meld_tiles(open).len()]);
        }
    }
}

fn score_after(
    after: &Vec<Tile>,
    open_mentsu: &[Mentsu],
    meld: Mentsu,
    jikaze: &Wind,
    bakaze: &Wind,
    dora_indicators: &[Tile],
) -> (s: CallScore)
    requires
        all_valid(after@),
        all_valid(meld_tiles(open_mentsu@)),
        all_valid(meld.tile_seq()),
        after@.len() + meld_tiles(open_mentsu@).len() + 4 <= 255,
        meld.tile_seq().len() <= 4,
        dora_indicators@.len() <= 255,
    ensures
        s == score_of(after@, open_mentsu@.push(meld), *jikaze, *bakaze, dora_indicators@),
{
    let mut open: Vec<Mentsu> = Vec::new();
    let mut k: usize = 0;
    while k < open_mentsu.len()
        invariant
            k <= open_mentsu@.len(),
            open@ == open_mentsu@.take(k as int),
        decreases open_mentsu@.len() - k,
    {
        open.push(open_mentsu[k]);
        k = k + 1;
    }
    assert(open_mentsu@.take(k as int) == open_mentsu@);
    open.push(meld);
    proof {
        lemma_after_call_valid(after@, open_mentsu@, meld);
    }
    call_score(after.as_slice(), open.as_slice(), jikaze, bakaze, dora_indicators)
}

fn copy_tiles(s: &[Tile]) -> (v: Vec<Tile>)
    ensures
        v@ == s@,
{
    let mut v: Vec<Tile> = Vec::new();
    crate::counting::push_all(&mut v, s);
    assert(v@ =~= s@);
    v
}

fn keep_best(best: Option<(CallScore, usize)>, c: (CallScore, usize)) -> (out: Option<(CallScore, usize)>)
    ensures
        out == match best {
            None => Some(c),
            Some(prev) => if score_less(c.0, prev.0) {
                best
            } else {
                Some(c)
            },
        },
{
    match best {
        None => Some(c),
        Some(prev) => if less(&c.0, &prev.0) {
            best
        } else {
            Some(c)
        },
    }
}

fn chi_score(
    hand: &[Tile],
    open_mentsu: &[Mentsu],
    jikaze: &Wind,
    bakaze: &Wind,
    dora_indicators: &[Tile],
    chi_tile: Tile,
    pos: ChiTilePos,
    i: usize,
) -> (cand: (CallScore, usize))
    requires
        all_valid(hand@),
        all_valid(meld_tiles(open_mentsu@)),
        hand@.len() + meld_tiles(open_mentsu@).len() <= 200,
        dora_indicators@.len() <= 255,
        valid_tile(chi_tile),
        chi_needs(chi_tile, pos),
        i <= 3,
    ensures
        cand == chi_candidate(hand@, open_mentsu@, *jikaze, *bakaze, dora_indicators@, chi_tile, pos, i as int),
{
    let (a, b, run) = match pos {
        ChiTilePos::Left => {
            let next = next_tile_sequence(&chi_tile).unwrap();
            let next_next = next_tile_sequence(&next).unwrap();
            (next, next_next, [chi_tile, next, next_next])
        },
        ChiTilePos::Middle => {
            let prev = previous_tile_sequence(&chi_tile).unwrap();
            let next = next_tile_sequence(&chi_tile).unwrap();
            (prev, next, [prev, chi_tile, next])
        },
        ChiTilePos::Right => {
            let prev = previous_tile_sequence(&chi_tile).unwrap();
            let prev_prev = previous_tile_sequence(&prev).unwrap();
            (prev_prev, prev, [prev_prev, prev, chi_tile])
        },
    };
    assert((a, b, run) == chi_pick(chi_tile, pos));
    let mut hc = Hand(copy_tiles(hand));
    hc.remove_tile_from_hand(&a);
    hc.remove_tile_from_hand(&b);
    proof {
        lemma_without_first_valid(hand@, a);
        lemma_without_first_valid(without_first(hand@, a), b);
        assert(Mentsu::Shuntsu(run, false).tile_seq() == run@);
        assert(valid_tile(run[0]) && valid_tile(run[1]) && valid_tile(run[2]));
        assert(all_valid(run@));
    }
    let sc = score_after(&hc.0, open_mentsu, Mentsu::Shuntsu(run, false), jikaze, bakaze, dora_indicators);
    (sc, 2 + i)
}

/// The best call on offer (see `call_candidates` and `best_candidate`), if
/// any is on offer.
pub fn best_call(
    hand: &[Tile],
    open_mentsu: &[Mentsu],
    jikaze: &Wind,
    bakaze: &Wind,
    dora_indicators: &[Tile],
    kan: Option<Tile>,
    pon: Option<Tile>,
    chi_tile: Tile,
    chi_positions: &[ChiTilePos],
) -> (best: Option<(CallScore, usize)>)
    requires
        all_valid(hand@),
        all_valid(meld_tiles(open_mentsu@)),
        hand@.len() + meld_tiles(open_mentsu@).len() <= 200,
        dora_indicators@.len() <= 255,
        chi_positions@.len() <= 3,
        kan matches Some(k) ==> valid_tile(k),
        pon matches Some(p) ==> valid_tile(p),
        chi_positions@.len() > 0 ==> valid_tile(chi_tile),
        forall|i: int| 0 <= i < chi_positions@.len() ==> chi_needs(chi_tile, #[trigger] chi_positions@[i]),
    ensures
        ({
            let c = call_candidates(
                hand@,
                open_mentsu@,
                *jikaze,
                *bakaze,
                dora_indicators@,
                kan,
                pon,
                chi_tile,
                chi_positions@,
            );
            best == best_candidate(c, c.len() as int)
        }),
{
    let ghost c = call_candidates(
        hand@,
        open_mentsu@,
        *jikaze,
        *bakaze,
        dora_indicators@,
        kan,
        pon,
        chi_tile,
        chi_positions@,
    );
    let mut best: Option<(CallScore, usize)> = None;
    let mut n: usize = 0;
    if let Some(k) = kan {
        let mut after: Vec<Tile> = Vec::new();
        let mut j: usize = 0;
        while j < hand.len()
            invariant
                j <= hand@.len(),
                after@ == drop_kind(hand@.take(j as int), k),
            decreases hand@.len() - j,
        {
            assert(hand@.take(j + 1).drop_last() == hand@.take(j as int));
            if hand[j] != k {
                after.push(hand[j]);
            }
            j = j + 1;
        }
        assert(hand@.take(j as int) == hand@);
        proof {
            lemma_drop_kind_valid(hand@, k);
        }
        let sc = score_after(&after, open_mentsu, Mentsu::Daiminkan([k, k, k, k]), jikaze, bakaze, dora_indicators);
        best = keep_best(best, (sc, 0));
        n = n + 1;
    }
    let ghost kans = match kan {
        Some(k) => seq![kan_candidate(hand@, open_mentsu@, *jikaze, *bakaze, dora_indicators@, k)],
        None => Seq::empty(),
    };
    let ghost pons = match pon {
        Some(p) => seq![pon_candidate(hand@, open_mentsu@, *jikaze, *bakaze, dora_indicators@, p)],
        None => Seq::empty(),
    };
    let ghost chis = Seq::new(
        chi_positions@.len(),
        |i: int| chi_candidate(hand@, open_mentsu@, *jikaze, *bakaze, dora_indicators@, chi_tile, chi_positions@[i], i),
    );
    assert(c == kans + pons + chis);
    assert(n == kans.len());
    assert(best == best_candidate(c, n as int)) by {
        if kan is Some {
            assert(c[0] == kans[0]);
            assert(best_candidate(c, 0) is None);
        }
    }
    if let Some(p) = pon {
        let mut hp = Hand(copy_tiles(hand));
        hp.remove_tile_from_hand(&p);
        hp.remove_tile_from_hand(&p);
        proof {
            lemma_without_first_valid(hand@, p);
            lemma_without_first_valid(without_first(hand@, p), p);
        }
        let sc = score_after(&hp.0, open_mentsu, Mentsu::Koutsu([p, p, p], false), jikaze, bakaze, dora_indicators);
        proof {
            assert(c[n as int] == pons[0]);
        }
        best = keep_best(best, (sc, 1));
        n = n + 1;
    }
    let ghost base = n as int;
    let mut i: usize = 0;
    while i < chi_positions.len()
        invariant
            i <= chi_positions@.len() <= 3,
            n == base + i,
            c.len() == base + chi_positions@.len(),
            best == best_candidate(c, n as int),
            all_valid(hand@),
            all_valid(meld_tiles(open_mentsu@)),
            hand@.len() + meld_tiles(open_mentsu@).len() <= 200,
            dora_indicators@.len() <= 255,
            chi_positions@.len() > 0 ==> valid_tile(chi_tile),
            forall|j: int| 0 <= j < chi_positions@.len() ==> chi_needs(chi_tile, #[trigger] chi_positions@[j]),
            base == (if kan is Some { 1int } else { 0 }) + (if pon is Some { 1int } else { 0 }),
            c == kans + pons + chis,
            base == kans.len() + pons.len(),
            chis == Seq::new(
                chi_positions@.len(),
                |j: int| chi_candidate(hand@, open_mentsu@, *jikaze, *bakaze, dora_indicators@, chi_tile, chi_positions@[j], j),
            ),
        decreases chi_positions@.len() - i,
    {
        let cand = chi_score(hand, open_mentsu, jikaze, bakaze, dora_indicators, chi_tile, chi_positions[i], i);
        proof {
            assert(c[n as int] == chis[i as int]);
        }
        best = keep_best(best, cand);
        n = n + 1;
        i = i + 1;
    }
    best
}

/// What a bot does with the calls offered on a discard.
#[derive(Clone, Copy, PartialEq, Eq, Debug, Structural)]
pub enum CallAction {
    Ron,
    Daiminkan,
    Pon,
    Chi(ChiTilePos),
    Skip,
}

/// The call a bot makes on `discard`. A ron is taken unless it is a cheap
/// win (under two han) the bot is too nervous for. Otherwise, with a meld on
/// offer, the target hand may refuse the tile; then the best call on offer
/// (`best`, see `best_call`) is made when the target demands the tile, or
/// when the call is worth a roll and the roll (`roll_passes`) comes up.
pub open spec fn call_choice(
    ron_han: Option<u8>,
    refuses_cheap_win: bool,
    target: TargetYaku,
    discard: Tile,
    meld_offered: bool,
    is_closed: bool,
    pre_shanten: int,
    best: Option<(CallScore, usize)>,
    chi_positions: Seq<ChiTilePos>,
    roll_passes: bool,
) -> CallAction {
    if ron_han matches Some(h) && !(refuses_cheap_win && h < 2) {
        CallAction::Ron
    } else if !meld_offered || refuses_call(target, discard) {
        CallAction::Skip
    } else {
        match best {
            None => CallAction::Skip,
            Some((sc, idx)) => if critical_call(target, discard) || (call_worth_roll(
                is_closed,
                pre_shanten,
                -sc.neg_shanten,
                sc.han as int,
                sc.dora as int,
                refuses_cheap_win,
            ) && roll_passes) {
                if idx == 0 {
                    CallAction::Daiminkan
                } else if idx == 1 {
                    CallAction::Pon
                } else if idx - 2 < chi_positions.len() {
                    CallAction::Chi(chi_positions[idx - 2])
                } else {
                    CallAction::Skip
                }
            } else {
                CallAction::Skip
            },
        }
    }
}

pub fn decide_call(
    ron_han: Option<u8>,
    refuses_cheap_win: bool,
    target: TargetYaku,
    discard: &Tile,
    meld_offered: bool,
    is_closed: bool,
    pre_shanten: i32,
    best: Option<(CallScore, usize)>,
    chi_positions: &[ChiTilePos],
    roll_passes: bool,
) -> (a: CallAction)
    ensures
        a == call_choice(
            ron_han,
            refuses_cheap_win,
            target,
            *discard,
            meld_offered,
            is_closed,
            pre_shanten as int,
            best,
            chi_positions@,
            roll_passes,
        ),
{
    if let Some(h) = ron_han {
        if !(refuses_cheap_win && h < 2) {
            return CallAction::Ron;
        }
    }
    if !meld_offered || call_refused(target, discard) {
        return CallAction::Skip;
    }
    match best {
        None => CallAction::Skip,
        Some((sc, idx)) => {
            let post_shanten: i64 = -(sc.neg_shanten as i64);
            let worth = !(is_closed && pre_shanten == 0) && !(refuses_cheap_win && (sc.han as i64) + (
            sc.dora as i64) < 2) && (pre_shanten as i64) >= post_shanten && sc.han > 0;
            if is_critical_call(target, discard) || (worth && roll_passes) {
                if idx == 0 {
                    CallAction::Daiminkan
                } else if idx == 1 {
                    CallAction::Pon
                } else if idx - 2 < chi_positions.len() {
                    CallAction::Chi(chi_positions[idx - 2])
                } else {
                    CallAction::Skip
                }
            } else {
                CallAction::Skip
            }
        },
    }
}

} // verus!
