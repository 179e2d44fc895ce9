//! The yaku: each is a predicate on the tiles of the hand, on one split of
//! it into sets, or on the situation of the win.

use vstd::prelude::*;
use crate::tile::{
    Tile, Honor, Mentsu, Wind, terminal, honor_tile, yaochuu, green_tile, dragon, is_terminal,
    is_honor, is_yaochuuhai, is_green,
};
use crate::counting::{count_tile, count_of, contains_tile};
use crate::melds::{
    has_run_from, has_set_of, has_pair_of, has_shuntsu, has_koutsu_or_kan, has_jantou, ryanmen,
    is_ryanmen_wait, same_mentsu,
};
use crate::table::{Wall, Kawa};

verus! {

/// How many melds of `r` satisfy `p`.
pub open spec fn count_where(r: Seq<Mentsu>, p: spec_fn(Mentsu) -> bool) -> nat
    decreases r.len(),
{
    if r.len() == 0 {
        0
    } else {
        count_where(r.drop_last(), p) + if p(r.last()) {
            1nat
        } else {
            0nat
        }
    }
}

pub proof fn lemma_count_where_le(r: Seq<Mentsu>, p: spec_fn(Mentsu) -> bool)
    ensures
        count_where(r, p) <= r.len(),
    decreases r.len(),
{
    if r.len() > 0 {
        lemma_count_where_le(r.drop_last(), p);
    }
}

pub open spec fn is_man(t: Tile) -> bool {
    t is Man
}

pub open spec fn is_pin(t: Tile) -> bool {
    t is Pin
}

pub open spec fn is_sou(t: Tile) -> bool {
    t is Sou
}

pub open spec fn all_green_at(t: Tile) -> bool {
    green_tile(t)
}

pub open spec fn all_green(s: Seq<Tile>) -> bool {
    forall|i: int| 0 <= i < s.len() ==> all_green_at(#[trigger] s[i])
}

pub open spec fn all_simples_at(t: Tile) -> bool {
    !yaochuu(t)
}

pub open spec fn all_simples(s: Seq<Tile>) -> bool {
    forall|i: int| 0 <= i < s.len() ==> all_simples_at(#[trigger] s[i])
}

pub open spec fn all_yaochuu_at(t: Tile) -> bool {
    yaochuu(t)
}

pub open spec fn all_yaochuu(s: Seq<Tile>) -> bool {
    forall|i: int| 0 <= i < s.len() ==> all_yaochuu_at(#[trigger] s[i])
}

pub open spec fn all_honors_at(t: Tile) -> bool {
    honor_tile(t)
}

pub open spec fn all_honors(s: Seq<Tile>) -> bool {
    forall|i: int| 0 <= i < s.len() ==> all_honors_at(#[trigger] s[i])
}

pub open spec fn all_terminals_at(t: Tile) -> bool {
    terminal(t)
}

pub open spec fn all_terminals(s: Seq<Tile>) -> bool {
    forall|i: int| 0 <= i < s.len() ==> all_terminals_at(#[trigger] s[i])
}

pub open spec fn all_man(s: Seq<Tile>) -> bool {
    forall|i: int| 0 <= i < s.len() ==> is_man(#[trigger] s[i])
}

pub open spec fn all_pin(s: Seq<Tile>) -> bool {
    forall|i: int| 0 <= i < s.len() ==> is_pin(#[trigger] s[i])
}

pub open spec fn all_sou(s: Seq<Tile>) -> bool {
    forall|i: int| 0 <= i < s.len() ==> is_sou(#[trigger] s[i])
}

pub open spec fn one_suit(s: Seq<Tile>) -> bool {
    all_man(s) || all_pin(s) || all_sou(s)
}

/// One suit, honors allowed.
pub open spec fn one_suit_and_honors(s: Seq<Tile>) -> bool {
    (forall|i: int| 0 <= i < s.len() ==> is_man(#[trigger] s[i]) || honor_tile(s[i])) || (forall|
        i: int,
    |
        0 <= i < s.len() ==> is_pin(#[trigger] s[i]) || honor_tile(s[i])) || (forall|i: int|
        0 <= i < s.len() ==> is_sou(#[trigger] s[i]) || honor_tile(s[i]))
}

pub fn ryuuiisou(hand: &[Tile]) -> (b: bool)
    ensures
        b == all_green(hand@),
{
    let mut k: usize = 0;
    while k < hand.len()
        invariant
            k <= hand@.len(),
            forall|i: int| 0 <= i < k ==> all_green_at(#[trigger] hand@[i]),
        decreases hand@.len() - k,
    {
        if !(is_green(&hand[k])) {
            return false;
        }
        k = k + 1;
    }
    true
}

pub fn tanyao(hand: &[Tile]) -> (b: bool)
    ensures
        b == all_simples(hand@),
{
    let mut k: usize = 0;
    while k < hand.len()
        invariant
            k <= hand@.len(),
            forall|i: int| 0 <= i < k ==> all_simples_at(#[trigger] hand@[i]),
        decreases hand@.len() - k,
    {
        if !(!is_yaochuuhai(&hand[k])) {
            return false;
        }
        k = k + 1;
    }
    true
}

pub fn tsuuisou(hand: &[Tile]) -> (b: bool)
    ensures
        b == all_honors(hand@),
{
    let mut k: usize = 0;
    while k < hand.len()
        invariant
            k <= hand@.len(),
            forall|i: int| 0 <= i < k ==> all_honors_at(#[trigger] hand@[i]),
        decreases hand@.len() - k,
    {
        if !(is_honor(&hand[k])) {
            return false;
        }
        k = k + 1;
    }
    true
}

pub fn honroutou(hand: &[Tile]) -> (b: bool)
    ensures
        b == all_yaochuu(hand@),
{
    let mut k: usize = 0;
    while k < hand.len()
        invariant
            k <= hand@.len(),
            forall|i: int| 0 <= i < k ==> all_yaochuu_at(#[trigger] hand@[i]),
        decreases hand@.len() - k,
    {
        if !(is_yaochuuhai(&hand[k])) {
            return false;
        }
        k = k + 1;
    }
    true
}

pub fn chinroutou(hand: &[Tile]) -> (b: bool)
    ensures
        b == all_terminals(hand@),
{
    let mut k: usize = 0;
    while k < hand.len()
        invariant
            k <= hand@.len(),
            forall|i: int| 0 <= i < k ==> all_terminals_at(#[trigger] hand@[i]),
        decreases hand@.len() - k,
    {
        if !(is_terminal(&hand[k])) {
            return false;
        }
        k = k + 1;
    }
    true
}

pub fn chinitsu(hand: &[Tile]) -> (b: bool)
    ensures
        b == one_suit(hand@),
{
    let mut k: usize = 0;
    let mut man = true;
    let mut pin = true;
    let mut sou = true;
    while k < hand.len()
        invariant
            k <= hand@.len(),
            man == (forall|i: int| 0 <= i < k ==> is_man(#[trigger] hand@[i])),
            pin == (forall|i: int| 0 <= i < k ==> is_pin(#[trigger] hand@[i])),
            sou == (forall|i: int| 0 <= i < k ==> is_sou(#[trigger] hand@[i])),
        decreases hand@.len() - k,
    {
        let t = &hand[k];
        man = man && matches!(t, Tile::Man(_));
        pin = pin && matches!(t, Tile::Pin(_));
        sou = sou && matches!(t, Tile::Sou(_));
        k = k + 1;
    }
    man || pin || sou
}

pub fn honitsu(hand: &[Tile]) -> (b: bool)
    ensures
        b == one_suit_and_honors(hand@),
{
    let mut k: usize = 0;
    let mut man = true;
    let mut pin = true;
    let mut sou = true;
    while k < hand.len()
        invariant
            k <= hand@.len(),
            man == (forall|i: int| 0 <= i < k ==> is_man(#[trigger] hand@[i]) || honor_tile(hand@[i])),
            pin == (forall|i: int| 0 <= i < k ==> is_pin(#[trigger] hand@[i]) || honor_tile(hand@[i])),
            sou == (forall|i: int| 0 <= i < k ==> is_sou(#[trigger] hand@[i]) || honor_tile(hand@[i])),
        decreases hand@.len() - k,
    {
        let t = &hand[k];
        let h = is_honor(t);
        man = man && (matches!(t, Tile::Man(_)) || h);
        pin = pin && (matches!(t, Tile::Pin(_)) || h);
        sou = sou && (matches!(t, Tile::Sou(_)) || h);
        k = k + 1;
    }
    man || pin || sou
}

/// Adjacent equal tiles among the first `n + 1` tiles.
pub open spec fn adjacent_pairs(s: Seq<Tile>, n: int) -> nat
    decreases n,
{
    if n <= 0 {
        0
    } else {
        adjacent_pairs(s, n - 1) + if s[n - 1] == s[n] {
            1nat
        } else {
            0nat
        }
    }
}

/// Thirteen orphans on a sorted hand: fourteen terminals and honors in which
/// exactly one neighbouring pair is equal.
pub open spec fn kokushi(s: Seq<Tile>) -> bool {
    s.len() == 14 && all_yaochuu(s) && adjacent_pairs(s, 13) == 1
}

pub fn kokushi_musou(hand: &[Tile]) -> (b: bool)
    ensures
        b == kokushi(hand@),
{
    if hand.len() == 14 && honroutou(hand) {
        let mut pair_counter: u8 = 0;
        let mut i: usize = 0;
        while i < 13
            invariant
                hand@.len() == 14,
                i <= 13,
                pair_counter == adjacent_pairs(hand@, i as int),
                pair_counter <= i,
            decreases 13 - i,
        {
            if hand[i] == hand[i + 1] {
                pair_counter = pair_counter + 1;
            }
            i = i + 1;
        }
        pair_counter == 1
    } else {
        false
    }
}

/// Seven distinct pairs on a sorted hand: fourteen tiles whose positions
/// 2k and 2k+1 hold equal tiles, no two of the seven pairs alike.
pub open spec fn seven_pairs(s: Seq<Tile>) -> bool {
    &&& s.len() == 14
    &&& forall|k: int| 0 <= k < 7 ==> #[trigger] s[2 * k] == s[2 * k + 1]
    &&& forall|k1: int, k2: int| 0 <= k1 < k2 < 7 ==> #[trigger] s[2 * k1] != #[trigger] s[2 * k2]
}

pub fn chiitoitsu(hand: &[Tile]) -> (b: bool)
    ensures
        b == seven_pairs(hand@),
{
    if hand.len() != 14 {
        return false;
    }
    let mut i: usize = 0;
    let mut seen: Vec<Tile> = Vec::new();
    while i < hand.len() - 1
        invariant
            hand@.len() == 14,
            i == 2 * seen@.len(),
            i <= 14,
            forall|k: int| 0 <= k < seen@.len() ==> #[trigger] seen@[k] == hand@[2 * k],
            forall|k: int| 0 <= k < seen@.len() ==> #[trigger] hand@[2 * k] == hand@[2 * k + 1],
            forall|k1: int, k2: int|
                0 <= k1 < k2 < seen@.len() ==> #[trigger] hand@[2 * k1] != #[trigger] hand@[2 * k2],
        decreases 14 - i,
    {
        let ghost h = seen@.len() as int;
        if hand[i] != hand[i + 1] {
            assert(!(hand@[2 * h] == hand@[2 * h + 1]));
            return false;
        }
        if contains_tile(seen.as_slice(), &hand[i]) {
            let ghost k1 = choose|k1: int| 0 <= k1 < seen@.len() && seen@[k1] == hand@[i as int];
            assert(hand@[2 * k1] == hand@[2 * h]);
            return false;
        }
        assert forall|k1: int| 0 <= k1 < h implies #[trigger] hand@[2 * k1] != hand@[2 * h] by {
            assert(seen@[k1] == hand@[2 * k1]);
        }
        seen.push(hand[i]);
        i = i + 2;
    }
    true
}

pub open spec fn closed_run(m: Mentsu) -> bool {
    m matches Mentsu::Shuntsu(_, c) && c
}

/// The closed runs of a split, in order.
pub open spec fn closed_runs(r: Seq<Mentsu>) -> Seq<Mentsu>
    decreases r.len(),
{
    if r.len() == 0 {
        Seq::empty()
    } else if closed_run(r.last()) {
        closed_runs(r.drop_last()).push(r.last())
    } else {
        closed_runs(r.drop_last())
    }
}

fn collect_closed_runs(result: &[Mentsu]) -> (v: Vec<Mentsu>)
    ensures
        v@ == closed_runs(result@),
{
    let mut v: Vec<Mentsu> = Vec::new();
    let mut k: usize = 0;
    while k < result.len()
        invariant
            k <= result@.len(),
            v@ == closed_runs(result@.take(k as int)),
        decreases result@.len() - k,
    {
        assert(result@.take(k + 1).drop_last() == result@.take(k as int));
        if let Mentsu::Shuntsu(_, true) = result[k] {
            v.push(result[k]);
        }
        k = k + 1;
    }
    assert(result@.take(k as int) == result@);
    v
}

/// Two identical closed runs.
pub open spec fn twin_runs(r: Seq<Mentsu>) -> bool {
    let s = closed_runs(r);
    exists|i: int, j: int| 0 <= i < j < s.len() && #[trigger] s[i] == #[trigger] s[j]
}

pub fn iipeikou(result: &[Mentsu]) -> (b: bool)
    ensures
        b == twin_runs(result@),
{
    let shuntsu = collect_closed_runs(result);
    let ghost s = shuntsu@;
    let mut i: usize = 0;
    while i < shuntsu.len()
        invariant
            s == shuntsu@,
            s == closed_runs(result@),
            i <= s.len(),
            forall|a: int, c: int| 0 <= a < i && a < c < s.len() ==> #[trigger] s[a] != #[trigger] s[c],
        decreases s.len() - i,
    {
        let mut j: usize = i + 1;
        while j < shuntsu.len()
            invariant
                s == shuntsu@,
                s == closed_runs(result@),
                i < s.len(),
                i + 1 <= j <= s.len(),
                forall|c: int| i < c < j ==> s[i as int] != #[trigger] s[c],
            decreases s.len() - j,
        {
            if same_mentsu(&shuntsu[i], &shuntsu[j]) {
                assert(s[i as int] == s[j as int]);
                return true;
            }
            j = j + 1;
        }
        i = i + 1;
    }
    false
}

/// Four closed runs that form two identical couples (the sorted runs pair
/// up as first with second and third with fourth).
pub open spec fn double_twin_runs(r: Seq<Mentsu>) -> bool {
    let s = closed_runs(r);
    s.len() == 4 && ((s[0] == s[1] && s[2] == s[3]) || (s[0] == s[2] && s[1] == s[3]) || (s[0]
        == s[3] && s[1] == s[2]))
}

pub fn ryanpeikou(result: &[Mentsu]) -> (b: bool)
    ensures
        b == double_twin_runs(result@),
{
    let s = collect_closed_runs(result);
    if s.len() == 4 {
        (same_mentsu(&s[0], &s[1]) && same_mentsu(&s[2], &s[3])) || (same_mentsu(&s[0], &s[2])
            && same_mentsu(&s[1], &s[3])) || (same_mentsu(&s[0], &s[3]) && same_mentsu(
            &s[1],
            &s[2],
        ))
    } else {
        false
    }
}

/// The han one triplet or kan contributes as yakuhai: one for a dragon, one
/// for the seat wind, one for the round wind.
pub open spec fn yakuhai_value(m: Mentsu, jikaze: Wind, bakaze: Wind) -> nat {
    let set = match m {
        Mentsu::Koutsu(_, _) => true,
        Mentsu::Ankan(_) => true,
        Mentsu::Daiminkan(_) => true,
        Mentsu::Shouminkan(_) => true,
        _ => false,
    };
    if set {
        let t = m.tile_seq()[0];
        (if dragon(t) {
            1nat
        } else {
            0nat
        }) + (if t == Tile::Honor(jikaze.honor_of()) {
            1nat
        } else {
            0nat
        }) + (if t == Tile::Honor(bakaze.honor_of()) {
            1nat
        } else {
            0nat
        })
    } else {
        0
    }
}

pub open spec fn yakuhai_total(r: Seq<Mentsu>, jikaze: Wind, bakaze: Wind) -> nat
    decreases r.len(),
{
    if r.len() == 0 {
        0
    } else {
        yakuhai_total(r.drop_last(), jikaze, bakaze) + yakuhai_value(r.last(), jikaze, bakaze)
    }
}

pub proof fn lemma_yakuhai_total_le(r: Seq<Mentsu>, jikaze: Wind, bakaze: Wind)
    ensures
        yakuhai_total(r, jikaze, bakaze) <= 3 * r.len(),
    decreases r.len(),
{
    if r.len() > 0 {
        lemma_yakuhai_total_le(r.drop_last(), jikaze, bakaze);
    }
}

pub fn yakuhai(result: &[Mentsu], jikaze: &Wind, bakaze: &Wind) -> (n: u8)
    requires
        result@.len() <= 85,
    ensures
        n == yakuhai_total(result@, *jikaze, *bakaze),
{
    let jh = Tile::Honor(jikaze.wind_to_honor());
    let bh = Tile::Honor(bakaze.wind_to_honor());
    let mut total: u8 = 0;
    let mut k: usize = 0;
    while k < result.len()
        invariant
            k <= result@.len() <= 85,
            jh == Tile::Honor(jikaze.honor_of()),
            bh == Tile::Honor(bakaze.honor_of()),
            total == yakuhai_total(result@.take(k as int), *jikaze, *bakaze),
        decreases result@.len() - k,
    {
        proof {
            lemma_yakuhai_total_le(result@.take(k as int), *jikaze, *bakaze);
        }
        assert(result@.take(k + 1).drop_last() == result@.take(k as int));
        let m = &result[k];
        let tile_opt = match m {
            Mentsu::Koutsu(tiles, _) => Some(tiles[0]),
            Mentsu::Ankan(tiles) => Some(tiles[0]),
            Mentsu::Daiminkan(tiles) => Some(tiles[0]),
            Mentsu::Shouminkan(tiles) => Some(tiles[0]),
            _ => None,
        };
        if let Some(tile) = tile_opt {
            let mut count: u8 = 0;
            if tile == Tile::Honor(Honor::Red) || tile == Tile::Honor(Honor::Green) || tile
                == Tile::Honor(Honor::White) {
                count = count + 1;
            }
            if tile == jh {
                count = count + 1;
            }
            if tile == bh {
                count = count + 1;
            }
            total = total + count;
        }
        k = k + 1;
    }
    assert(result@.take(k as int) == result@);
    total
}

/// A closed triplet or a closed kan.
pub open spec fn concealed_set(m: Mentsu) -> bool {
    match m {
        Mentsu::Koutsu(_, c) => c,
        Mentsu::Ankan(_) => true,
        _ => false,
    }
}

/// A concealed set counted for sanankou: a closed triplet completed by ron
/// on a tile the hand already held twice was not concealed at the win.
pub open spec fn sanankou_set(m: Mentsu, w: Tile, is_tsumo: bool, thirteen: Seq<Tile>) -> bool {
    concealed_set(m) && !(m.tile_seq()[0] == w && !is_tsumo && count_tile(thirteen, w) == 2)
}

/// A concealed set counted for suuankou: one whose tile is not the winning
/// tile, or any on tsumo.
pub open spec fn suuankou_set(m: Mentsu, w: Tile, is_tsumo: bool) -> bool {
    concealed_set(m) && (m.tile_seq()[0] != w || is_tsumo)
}

pub open spec fn any_set(m: Mentsu) -> bool {
    match m {
        Mentsu::Koutsu(_, _) => true,
        Mentsu::Ankan(_) => true,
        Mentsu::Daiminkan(_) => true,
        Mentsu::Shouminkan(_) => true,
        _ => false,
    }
}

pub open spec fn any_kan(m: Mentsu) -> bool {
    match m {
        Mentsu::Ankan(_) => true,
        Mentsu::Daiminkan(_) => true,
        Mentsu::Shouminkan(_) => true,
        _ => false,
    }
}

/// Three concealed sets (sanankou).
pub open spec fn three_concealed(r: Seq<Mentsu>, w: Tile, is_tsumo: bool, thirteen: Seq<Tile>) -> bool {
    count_where(r, |m: Mentsu| sanankou_set(m, w, is_tsumo, thirteen)) == 3
}

/// Four concealed sets (suuankou).
pub open spec fn four_concealed(r: Seq<Mentsu>, w: Tile, is_tsumo: bool) -> bool {
    count_where(r, |m: Mentsu| suuankou_set(m, w, is_tsumo)) == 4
}

/// Four triplets or kans (toitoi).
pub open spec fn all_triplets(r: Seq<Mentsu>) -> bool {
    count_where(r, |m: Mentsu| any_set(m)) == 4
}

/// Exactly `n` kans among the melds.
pub open spec fn kan_count_is(r: Seq<Mentsu>, n: nat) -> bool {
    count_where(r, |m: Mentsu| any_kan(m)) == n
}

pub fn sanankou(result: &[Mentsu], winning_tile: &Tile, is_tsumo: bool, thirteen_tiles: &[Tile]) -> (b: bool)
    ensures
        b == three_concealed(result@, *winning_tile, is_tsumo, thirteen_tiles@),
{
    let ghost p = |m: Mentsu| sanankou_set(m, *winning_tile, is_tsumo, thirteen_tiles@);
    let mut n: usize = 0;
    let mut k: usize = 0;
    while k < result.len()
        invariant
            k <= result@.len(),
            p == (|m: Mentsu| sanankou_set(m, *winning_tile, is_tsumo, thirteen_tiles@)),
            n == count_where(result@.take(k as int), p),
            n <= k,
        decreases result@.len() - k,
    {
        assert(result@.take(k + 1).drop_last() == result@.take(k as int));
        let counted = match &result[k] {
            Mentsu::Koutsu(tiles, true) => !(tiles[0] == *winning_tile && !is_tsumo && count_of(
                thirteen_tiles,
                winning_tile,
            ) == 2),
            Mentsu::Ankan(tiles) => !(tiles[0] == *winning_tile && !is_tsumo && count_of(
                thirteen_tiles,
                winning_tile,
            ) == 2),
            _ => false,
        };
        if counted {
            n = n + 1;
        }
        k = k + 1;
    }
    assert(result@.take(k as int) == result@);
    n == 3
}

pub fn suuankou(result: &[Mentsu], winning_tile: &Tile, is_tsumo: bool) -> (b: bool)
    ensures
        b == four_concealed(result@, *winning_tile, is_tsumo),
{
    let ghost p = |m: Mentsu| suuankou_set(m, *winning_tile, is_tsumo);
    let mut n: usize = 0;
    let mut k: usize = 0;
    while k < result.len()
        invariant
            k <= result@.len(),
            p == (|m: Mentsu| suuankou_set(m, *winning_tile, is_tsumo)),
            n == count_where(result@.take(k as int), p),
            n <= k,
        decreases result@.len() - k,
    {
        assert(result@.take(k + 1).drop_last() == result@.take(k as int));
        let counted = match &result[k] {
            Mentsu::Koutsu(tiles, true) => tiles[0] != *winning_tile || is_tsumo,
            Mentsu::Ankan(tiles) => tiles[0] != *winning_tile || is_tsumo,
            _ => false,
        };
        if counted {
            n = n + 1;
        }
        k = k + 1;
    }
    assert(result@.take(k as int) == result@);
    n == 4
}

/// How many melds of the list are triplets or kans (`kans_only` false), or
/// kans (`kans_only` true).
fn count_sets(result: &[Mentsu], kans_only: bool) -> (n: usize)
    ensures
        n == count_where(result@, if kans_only { |m: Mentsu| any_kan(m) } else { |m: Mentsu| any_set(m) }),
{
    let ghost p = if kans_only { |m: Mentsu| any_kan(m) } else { |m: Mentsu| any_set(m) };
    let mut n: usize = 0;
    let mut k: usize = 0;
    while k < result.len()
        invariant
            k <= result@.len(),
            p == (if kans_only { |m: Mentsu| any_kan(m) } else { |m: Mentsu| any_set(m) }),
            n == count_where(result@.take(k as int), p),
            n <= k,
        decreases result@.len() - k,
    {
        assert(result@.take(k + 1).drop_last() == result@.take(k as int));
        let counted = match &result[k] {
            Mentsu::Koutsu(_, _) => !kans_only,
            Mentsu::Ankan(_) => true,
            Mentsu::Daiminkan(_) => true,
            Mentsu::Shouminkan(_) => true,
            _ => false,
        };
        if counted {
            n = n + 1;
        }
        k = k + 1;
    }
    assert(result@.take(k as int) == result@);
    n
}

pub fn toitoi(result: &[Mentsu]) -> (b: bool)
    ensures
        b == all_triplets(result@),
{
    count_sets(result, false) == 4
}

pub fn sankantsu(open_mentsu: &[Mentsu]) -> (b: bool)
    ensures
        b == kan_count_is(open_mentsu@, 3),
{
    count_sets(open_mentsu, true) == 3
}

pub fn suukantsu(open_mentsu: &[Mentsu]) -> (b: bool)
    ensures
        b == kan_count_is(open_mentsu@, 4),
{
    count_sets(open_mentsu, true) == 4
}

/// Exactly two kans: a house yaku of this game worth one han.
pub fn ryankantsu(open_mentsu: &[Mentsu]) -> (b: bool)
    ensures
        b == kan_count_is(open_mentsu@, 2),
{
    count_sets(open_mentsu, true) == 2
}

pub open spec fn white() -> Tile {
    Tile::Honor(Honor::White)
}

pub open spec fn green() -> Tile {
    Tile::Honor(Honor::Green)
}

pub open spec fn red() -> Tile {
    Tile::Honor(Honor::Red)
}

/// Triplets or kans of all three dragons.
pub open spec fn big_three_dragons(r: Seq<Mentsu>) -> bool {
    has_set_of(r, red()) && has_set_of(r, green()) && has_set_of(r, white())
}

/// Two dragon triplets or kans and a dragon pair.
pub open spec fn little_three_dragons(r: Seq<Mentsu>) -> bool {
    b2n(has_set_of(r, red())) + b2n(has_set_of(r, green())) + b2n(has_set_of(r, white())) == 2
        && b2n(has_pair_of(r, red())) + b2n(has_pair_of(r, green())) + b2n(has_pair_of(r, white()))
        == 1
}

/// Triplets or kans of all four winds.
pub open spec fn big_four_winds(r: Seq<Mentsu>) -> bool {
    has_set_of(r, east()) && has_set_of(r, south()) && has_set_of(r, west()) && has_set_of(
        r,
        north(),
    )
}

/// Three wind triplets or kans and a wind pair.
pub open spec fn little_four_winds(r: Seq<Mentsu>) -> bool {
    b2n(has_set_of(r, east())) + b2n(has_set_of(r, south())) + b2n(has_set_of(r, west())) + b2n(
        has_set_of(r, north()),
    ) == 3 && b2n(has_pair_of(r, east())) + b2n(has_pair_of(r, south())) + b2n(
        has_pair_of(r, west()),
    ) + b2n(has_pair_of(r, north())) == 1
}

pub fn daisangen(result: &[Mentsu]) -> (b: bool)
    ensures
        b == big_three_dragons(result@),
{
    has_koutsu_or_kan(result, Tile::Honor(Honor::Red)) && has_koutsu_or_kan(
        result,
        Tile::Honor(Honor::Green),
    ) && has_koutsu_or_kan(result, Tile::Honor(Honor::White))
}

pub open spec fn b2n(b: bool) -> nat {
    if b {
        1
    } else {
        0
    }
}

fn b2u(b: bool) -> (n: u8)
    ensures
        n == b2n(b),
{
    if b {
        1
    } else {
        0
    }
}

pub fn shousangen(result: &[Mentsu]) -> (b: bool)
    ensures
        b == little_three_dragons(result@),
{
    let dragon_kou_or_kan = b2u(has_koutsu_or_kan(result, Tile::Honor(Honor::Red))) + b2u(
        has_koutsu_or_kan(result, Tile::Honor(Honor::Green)),
    ) + b2u(has_koutsu_or_kan(result, Tile::Honor(Honor::White)));
    let dragon_jantou = b2u(has_jantou(result, Tile::Honor(Honor::Red))) + b2u(
        has_jantou(result, Tile::Honor(Honor::Green)),
    ) + b2u(has_jantou(result, Tile::Honor(Honor::White)));
    dragon_kou_or_kan == 2 && dragon_jantou == 1
}

pub open spec fn east() -> Tile {
    Tile::Honor(Honor::East)
}

pub open spec fn south() -> Tile {
    Tile::Honor(Honor::South)
}

pub open spec fn west() -> Tile {
    Tile::Honor(Honor::West)
}

pub open spec fn north() -> Tile {
    Tile::Honor(Honor::North)
}

pub fn daisuushii(result: &[Mentsu]) -> (b: bool)
    ensures
        b == big_four_winds(result@),
{
    has_koutsu_or_kan(result, Tile::Honor(Honor::East)) && has_koutsu_or_kan(
        result,
        Tile::Honor(Honor::South),
    ) && has_koutsu_or_kan(result, Tile::Honor(Honor::West)) && has_koutsu_or_kan(
        result,
        Tile::Honor(Honor::North),
    )
}

pub fn shousuushii(result: &[Mentsu]) -> (b: bool)
    ensures
        b == little_four_winds(result@),
{
    let wind_kou_or_kan = b2u(has_koutsu_or_kan(result, Tile::Honor(Honor::East))) + b2u(
        has_koutsu_or_kan(result, Tile::Honor(Honor::South)),
    ) + b2u(has_koutsu_or_kan(result, Tile::Honor(Honor::West))) + b2u(
        has_koutsu_or_kan(result, Tile::Honor(Honor::North)),
    );
    let wind_jantou = b2u(has_jantou(result, Tile::Honor(Honor::East))) + b2u(
        has_jantou(result, Tile::Honor(Honor::South)),
    ) + b2u(has_jantou(result, Tile::Honor(Honor::West))) + b2u(
        has_jantou(result, Tile::Honor(Honor::North)),
    );
    wind_kou_or_kan == 3 && wind_jantou == 1
}

/// Every set of the split holds a terminal or honor: a run through 1 or 9,
/// or a pair, triplet or kan of a terminal or honor (`pure` false); with
/// `pure` true honors do not count.
pub open spec fn outside_meld(m: Mentsu, pure: bool) -> bool {
    match m {
        Mentsu::Shuntsu(x, _) => terminal(x[0]) || terminal(x[2]),
        _ => if pure {
            terminal(m.tile_seq()[0])
        } else {
            yaochuu(m.tile_seq()[0])
        },
    }
}

pub open spec fn all_outside(r: Seq<Mentsu>, pure: bool) -> bool {
    forall|i: int| 0 <= i < r.len() ==> outside_meld(#[trigger] r[i], pure)
}

fn all_outside_exec(result: &[Mentsu], pure: bool) -> (b: bool)
    ensures
        b == all_outside(result@, pure),
{
    let mut k: usize = 0;
    while k < result.len()
        invariant
            k <= result@.len(),
            forall|i: int| 0 <= i < k ==> outside_meld(#[trigger] result@[i], pure),
        decreases result@.len() - k,
    {
        let ok = match &result[k] {
            Mentsu::Shuntsu(tiles, _) => is_terminal(&tiles[0]) || is_terminal(&tiles[2]),
            Mentsu::Koutsu(tiles, _) => if pure {
                is_terminal(&tiles[0])
            } else {
                is_yaochuuhai(&tiles[0])
            },
            Mentsu::Jantou(tiles) => if pure {
                is_terminal(&tiles[0])
            } else {
                is_yaochuuhai(&tiles[0])
            },
            Mentsu::Ankan(tiles) => if pure {
                is_terminal(&tiles[0])
            } else {
                is_yaochuuhai(&tiles[0])
            },
            Mentsu::Daiminkan(tiles) => if pure {
                is_terminal(&tiles[0])
            } else {
                is_yaochuuhai(&tiles[0])
            },
            Mentsu::Shouminkan(tiles) => if pure {
                is_terminal(&tiles[0])
            } else {
                is_yaochuuhai(&tiles[0])
            },
        };
        if !ok {
            return false;
        }
        k = k + 1;
    }
    true
}

pub fn chanta(result: &[Mentsu]) -> (b: bool)
    ensures
        b == all_outside(result@, false),
{
    all_outside_exec(result, false)
}

pub fn junchan(result: &[Mentsu]) -> (b: bool)
    ensures
        b == all_outside(result@, true),
{
    all_outside_exec(result, true)
}

pub open spec fn man(n: u8) -> Tile {
    Tile::Man(n)
}

pub open spec fn pin(n: u8) -> Tile {
    Tile::Pin(n)
}

pub open spec fn sou(n: u8) -> Tile {
    Tile::Sou(n)
}

/// Runs 1-2-3, 4-5-6 and 7-8-9 of one suit.
pub open spec fn straight(r: Seq<Mentsu>) -> bool {
    (has_run_from(r, man(1)) && has_run_from(r, man(4)) && has_run_from(r, man(7))) || (
    has_run_from(r, pin(1)) && has_run_from(r, pin(4)) && has_run_from(r, pin(7))) || (
    has_run_from(r, sou(1)) && has_run_from(r, sou(4)) && has_run_from(r, sou(7)))
}

pub fn ittsuu(result: &[Mentsu]) -> (b: bool)
    ensures
        b == straight(result@),
{
    let m = has_shuntsu(result, Tile::Man(1)) && has_shuntsu(result, Tile::Man(4)) && has_shuntsu(
        result,
        Tile::Man(7),
    );
    let p = has_shuntsu(result, Tile::Pin(1)) && has_shuntsu(result, Tile::Pin(4)) && has_shuntsu(
        result,
        Tile::Pin(7),
    );
    let s = has_shuntsu(result, Tile::Sou(1)) && has_shuntsu(result, Tile::Sou(4)) && has_shuntsu(
        result,
        Tile::Sou(7),
    );
    m || p || s
}

pub open spec fn three_color_run(r: Seq<Mentsu>, n: u8) -> bool {
    has_run_from(r, man(n)) && has_run_from(r, pin(n)) && has_run_from(r, sou(n))
}

pub open spec fn three_color_set(r: Seq<Mentsu>, n: u8) -> bool {
    has_set_of(r, man(n)) && has_set_of(r, pin(n)) && has_set_of(r, sou(n))
}

/// The same run in all three suits.
pub open spec fn three_color_straight(r: Seq<Mentsu>) -> bool {
    exists|n: u8| 1 <= n <= 7 && #[trigger] three_color_run(r, n)
}

/// A triplet or kan of the same rank in all three suits.
pub open spec fn three_color_triplets(r: Seq<Mentsu>) -> bool {
    exists|n: u8| 1 <= n <= 9 && #[trigger] three_color_set(r, n)
}

pub fn sanshoku_doujun(result: &[Mentsu]) -> (b: bool)
    ensures
        b == three_color_straight(result@),
{
    let mut i: u8 = 1;
    while i <= 7
        invariant
            1 <= i <= 8,
            forall|n: u8| 1 <= n < i ==> !#[trigger] three_color_run(result@, n),
        decreases 8 - i,
    {
        if has_shuntsu(result, Tile::Man(i)) && has_shuntsu(result, Tile::Pin(i)) && has_shuntsu(
            result,
            Tile::Sou(i),
        ) {
            assert(three_color_run(result@, i));
            return true;
        }
        i = i + 1;
    }
    false
}

/// Sanshoku doujun is found whenever the split holds a run starting on the
/// same rank `n`, for any `n` from 1 to 7, in each of man, pin and sou:
/// whatever the other melds are, `sanshoku_doujun` answers true.
pub proof fn lemma_same_runs_give_sanshoku(r: Seq<Mentsu>, n: u8, i: int, j: int, k: int)
    requires
        1 <= n <= 7,
        0 <= i < r.len(),
        0 <= j < r.len(),
        0 <= k < r.len(),
        r[i] is Shuntsu && r[i]->Shuntsu_0[0] == Tile::Man(n),
        r[j] is Shuntsu && r[j]->Shuntsu_0[0] == Tile::Pin(n),
        r[k] is Shuntsu && r[k]->Shuntsu_0[0] == Tile::Sou(n),
    ensures
        three_color_straight(r),
{
    assert(crate::melds::is_run_from(r[i], man(n)));
    assert(crate::melds::is_run_from(r[j], pin(n)));
    assert(crate::melds::is_run_from(r[k], sou(n)));
    assert(three_color_run(r, n));
}

/// The highest sanshoku doujun: 7-8-9 in man, pin and sou gives the yaku.
pub proof fn lemma_seven_eight_nine_sanshoku(r: Seq<Mentsu>, i: int, j: int, k: int)
    requires
        0 <= i < r.len(),
        0 <= j < r.len(),
        0 <= k < r.len(),
        r[i] is Shuntsu && r[i]->Shuntsu_0[0] == Tile::Man(7),
        r[j] is Shuntsu && r[j]->Shuntsu_0[0] == Tile::Pin(7),
        r[k] is Shuntsu && r[k]->Shuntsu_0[0] == Tile::Sou(7),
    ensures
        three_color_straight(r),
{
    lemma_same_runs_give_sanshoku(r, 7, i, j, k);
}

/// Sanshoku doujun is found only where such runs are: some rank from 1 to 7
/// starts a run of the split in each of the three suits.
pub proof fn lemma_sanshoku_needs_same_runs(r: Seq<Mentsu>)
    requires
        three_color_straight(r),
    ensures
        exists|n: u8, i: int, j: int, k: int|
            1 <= n <= 7 && 0 <= i < r.len() && 0 <= j < r.len() && 0 <= k < r.len()
                && r[i] is Shuntsu && r[i]->Shuntsu_0[0] == Tile::Man(n) && r[j] is Shuntsu
                && r[j]->Shuntsu_0[0] == Tile::Pin(n) && r[k] is Shuntsu
                && r[k]->Shuntsu_0[0] == Tile::Sou(n),
{
    let n = choose|n: u8| 1 <= n <= 7 && #[trigger] three_color_run(r, n);
    let i = choose|i: int| 0 <= i < r.len() && crate::melds::is_run_from(#[trigger] r[i], man(n));
    let j = choose|j: int| 0 <= j < r.len() && crate::melds::is_run_from(#[trigger] r[j], pin(n));
    let k = choose|k: int| 0 <= k < r.len() && crate::melds::is_run_from(#[trigger] r[k], sou(n));
    assert(r[i] is Shuntsu && r[i]->Shuntsu_0[0] == Tile::Man(n));
    assert(r[j] is Shuntsu && r[j]->Shuntsu_0[0] == Tile::Pin(n));
    assert(r[k] is Shuntsu && r[k]->Shuntsu_0[0] == Tile::Sou(n));
}

pub fn sanshoku_doukou(result: &[Mentsu]) -> (b: bool)
    ensures
        b == three_color_triplets(result@),
{
    let mut i: u8 = 1;
    while i <= 9
        invariant
            1 <= i <= 10,
            forall|n: u8| 1 <= n < i ==> !#[trigger] three_color_set(result@, n),
        decreases 10 - i,
    {
        if has_koutsu_or_kan(result, Tile::Man(i)) && has_koutsu_or_kan(result, Tile::Pin(i))
            && has_koutsu_or_kan(result, Tile::Sou(i)) {
            assert(three_color_set(result@, i));
            return true;
        }
        i = i + 1;
    }
    false
}

/// Sanshoku doukou is found whenever the split holds a triplet or kan of the
/// same rank `n`, for any `n` from 1 to 9, in each of man, pin and sou.
pub proof fn lemma_same_sets_give_sanshoku_doukou(r: Seq<Mentsu>, n: u8, i: int, j: int, k: int)
    requires
        1 <= n <= 9,
        0 <= i < r.len(),
        0 <= j < r.len(),
        0 <= k < r.len(),
        crate::melds::is_set_of(r[i], Tile::Man(n)),
        crate::melds::is_set_of(r[j], Tile::Pin(n)),
        crate::melds::is_set_of(r[k], Tile::Sou(n)),
    ensures
        three_color_triplets(r),
{
    assert(three_color_set(r, n));
}

/// Every rank from 1 to 9 appears in some suit.
pub open spec fn all_ranks_present(s: Seq<Tile>) -> bool {
    forall|n: u8| 1 <= n <= 9 ==> #[trigger] s.contains(man(n)) || s.contains(pin(n)) || s.contains(sou(n))
}

pub open spec fn is_one(t: Tile) -> bool {
    t == man(1) || t == pin(1) || t == sou(1)
}

pub open spec fn is_nine(t: Tile) -> bool {
    t == man(9) || t == pin(9) || t == sou(9)
}

pub open spec fn count_tiles_where(s: Seq<Tile>, p: spec_fn(Tile) -> bool) -> nat
    decreases s.len(),
{
    if s.len() == 0 {
        0
    } else {
        count_tiles_where(s.drop_last(), p) + if p(s.last()) {
            1nat
        } else {
            0nat
        }
    }
}

/// Nine gates: fourteen tiles of one suit holding every rank, at least three
/// ones and at least three nines.
pub open spec fn nine_gates(s: Seq<Tile>) -> bool {
    &&& s.len() == 14
    &&& one_suit(s)
    &&& all_ranks_present(s)
    &&& count_tiles_where(s, |t: Tile| is_one(t)) >= 3
    &&& count_tiles_where(s, |t: Tile| is_nine(t)) >= 3
}

fn count_rank(s: &[Tile], nine: bool) -> (n: usize)
    ensures
        n == count_tiles_where(s@, if nine { |t: Tile| is_nine(t) } else { |t: Tile| is_one(t) }),
{
    let ghost p = if nine { |t: Tile| is_nine(t) } else { |t: Tile| is_one(t) };
    let r: u8 = if nine { 9 } else { 1 };
    let mut n: usize = 0;
    let mut k: usize = 0;
    while k < s.len()
        invariant
            k <= s@.len(),
            r == (if nine { 9u8 } else { 1u8 }),
            p == (if nine { |t: Tile| is_nine(t) } else { |t: Tile| is_one(t) }),
            n == count_tiles_where(s@.take(k as int), p),
            n <= k,
        decreases s@.len() - k,
    {
        assert(s@.take(k + 1).drop_last() == s@.take(k as int));
        let t = s[k];
        if t == Tile::Man(r) || t == Tile::Pin(r) || t == Tile::Sou(r) {
            n = n + 1;
        }
        k = k + 1;
    }
    assert(s@.take(k as int) == s@);
    n
}

pub fn chuuren_poutou(combined_hand: &[Tile]) -> (b: bool)
    ensures
        b == nine_gates(combined_hand@),
{
    if combined_hand.len() == 14 && chinitsu(combined_hand) {
        let mut i: u8 = 1;
        while i <= 9
            invariant
                1 <= i <= 10,
                forall|n: u8|
                    1 <= n < i ==> #[trigger] combined_hand@.contains(man(n)) || combined_hand@.contains(
                        pin(n),
                    ) || combined_hand@.contains(sou(n)),
            decreases 10 - i,
        {
            if !contains_tile(combined_hand, &Tile::Man(i)) && !contains_tile(
                combined_hand,
                &Tile::Pin(i),
            ) && !contains_tile(combined_hand, &Tile::Sou(i)) {
                assert(!(combined_hand@.contains(man(i)) || combined_hand@.contains(pin(i))
                    || combined_hand@.contains(sou(i))));
                return false;
            }
            i = i + 1;
        }
        count_rank(combined_hand, false) >= 3 && count_rank(combined_hand, true) >= 3
    } else {
        false
    }
}

/// The pair does not score yakuhai: not a dragon, not the seat or round
/// wind.
pub open spec fn plain_pair(m: Mentsu, jikaze: Wind, bakaze: Wind) -> bool {
    let t = m.tile_seq()[0];
    !dragon(t) && t != Tile::Honor(jikaze.honor_of()) && t != Tile::Honor(bakaze.honor_of())
}

/// Whether the last pair of the split is plain (false when there is none).
pub open spec fn last_pair_plain(r: Seq<Mentsu>, jikaze: Wind, bakaze: Wind) -> bool
    decreases r.len(),
{
    if r.len() == 0 {
        false
    } else if r.last() is Jantou {
        plain_pair(r.last(), jikaze, bakaze)
    } else {
        last_pair_plain(r.drop_last(), jikaze, bakaze)
    }
}

pub open spec fn two_sided_run(m: Mentsu, w: Tile) -> bool {
    m matches Mentsu::Shuntsu(x, c) && c && ryanmen(x@, w)
}

/// Four closed runs, one of them completed on a two-sided wait, and a
/// plain pair.
pub open spec fn pinfu_shape(r: Seq<Mentsu>, w: Tile, jikaze: Wind, bakaze: Wind) -> bool {
    &&& count_where(r, |m: Mentsu| closed_run(m)) == 4
    &&& exists|i: int| 0 <= i < r.len() && #[trigger] two_sided_run(r[i], w)
    &&& last_pair_plain(r, jikaze, bakaze)
}

pub fn pinfu(result: &[Mentsu], winning_tile: &Tile, jikaze: &Wind, bakaze: &Wind) -> (b: bool)
    ensures
        b == pinfu_shape(result@, *winning_tile, *jikaze, *bakaze),
{
    let ghost p = |m: Mentsu| closed_run(m);
    let jh = Tile::Honor(jikaze.wind_to_honor());
    let bh = Tile::Honor(bakaze.wind_to_honor());
    let mut shuntsu_count: usize = 0;
    let mut has_ryanmen = false;
    let mut has_valid_jantou = false;
    let mut k: usize = 0;
    while k < result.len()
        invariant
            k <= result@.len(),
            jh == Tile::Honor(jikaze.honor_of()),
            bh == Tile::Honor(bakaze.honor_of()),
            p == (|m: Mentsu| closed_run(m)),
            shuntsu_count == count_where(result@.take(k as int), p),
            shuntsu_count <= k,
            has_ryanmen == exists|i: int| 0 <= i < k && #[trigger] two_sided_run(result@[i], *winning_tile),
            has_valid_jantou == last_pair_plain(result@.take(k as int), *jikaze, *bakaze),
        decreases result@.len() - k,
    {
        assert(result@.take(k + 1).drop_last() == result@.take(k as int));
        match &result[k] {
            Mentsu::Shuntsu(tiles, true) => {
                shuntsu_count = shuntsu_count + 1;
                if is_ryanmen_wait(tiles.as_slice(), winning_tile) {
                    assert(two_sided_run(result@[k as int], *winning_tile));
                    has_ryanmen = true;
                }
            },
            Mentsu::Jantou(tiles) => {
                let t = tiles[0];
                has_valid_jantou = !(t == Tile::Honor(Honor::Red) || t == Tile::Honor(Honor::Green)
                    || t == Tile::Honor(Honor::White)) && t != jh && t != bh;
            },
            _ => {},
        }
        k = k + 1;
    }
    assert(result@.take(k as int) == result@);
    shuntsu_count == 4 && has_ryanmen && has_valid_jantou
}

pub open spec fn wall_exhausted(wall: &Wall) -> bool {
    wall.remaining() == 0
}

/// Winning on the last draw of the wall.
pub fn haitei(wall: &Wall, is_tsumo: bool) -> (b: bool)
    ensures
        b == (wall_exhausted(wall) && is_tsumo),
{
    wall.remaining_draws() == 0 && is_tsumo
}

/// Winning on the last discard of the hand.
pub fn houtei(wall: &Wall, is_tsumo: bool) -> (b: bool)
    ensures
        b == (wall_exhausted(wall) && !is_tsumo),
{
    wall.remaining_draws() == 0 && !is_tsumo
}

/// The dealer wins on the first draw with nothing discarded or called.
pub fn tenhou(kawa: &Kawa, is_oya: bool, is_tsumo: bool, calls_made: bool) -> (b: bool)
    ensures
        b == (kawa.0@.len() == 0 && is_oya && is_tsumo && !calls_made),
{
    kawa.0.len() == 0 && is_oya && is_tsumo && !calls_made
}

/// A non-dealer wins on their first draw with nothing discarded or called.
pub fn chiihou(kawa: &Kawa, is_oya: bool, is_tsumo: bool, calls_made: bool) -> (b: bool)
    ensures
        b == (kawa.0@.len() == 0 && !is_oya && is_tsumo && !calls_made),
{
    kawa.0.len() == 0 && !is_oya && is_tsumo && !calls_made
}

} // verus!
