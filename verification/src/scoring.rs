//! Scoring a win: which yaku a hand has, its han and fu, the dora it holds,
//! and what each player pays.

use vstd::prelude::*;
use crate::tile::{Tile, Honor, Mentsu, Wind, yaochuu, dragon, is_yaochuuhai, valid_tile};
use crate::melds::{penchan, kanchan, tanki, is_penchan_wait, is_kanchan_wait, is_tanki_wait};
use crate::table::DeadWall;

verus! {

/// The outcome of scoring one hand.
pub struct HandResult {
    pub yaku_names: Vec<String>,
    pub dora_count: u8,
    pub ura_dora_count: u8,
    pub total_han: u8,
    pub total_fu: u8,
    pub is_yakuman: bool,
}

/// A `HandResult` as mathematical values.
pub struct HandView {
    pub names: Seq<Seq<char>>,
    pub dora: int,
    pub ura: int,
    pub han: int,
    pub fu: int,
    pub yakuman: bool,
}

pub open spec fn name_views(v: Seq<String>) -> Seq<Seq<char>> {
    v.map_values(|s: String| s@)
}

impl View for HandResult {
    type V = HandView;

    open spec fn view(&self) -> HandView {
        HandView {
            names: name_views(self.yaku_names@),
            dora: self.dora_count as int,
            ura: self.ura_dora_count as int,
            han: self.total_han as int,
            fu: self.total_fu as int,
            yakuman: self.is_yakuman,
        }
    }
}

pub struct DoraCount {
    pub dora: u8,
    pub ura_dora: u8,
    pub additional_han: u8,
}

/// What a win is worth: the winner's total, what the dealer pays, what each
/// other player pays (the discarder pays `non_oya_pays` on a ron).
pub struct ScorePayout {
    pub total_won: u32,
    pub oya_pays: u32,
    pub non_oya_pays: u32,
}

/// How many shots a win earns: three for a yakuman or thirteen han and up,
/// two for eight to twelve, one for six or seven, none below.
pub open spec fn shots_for(yakuman: bool, han: int) -> int {
    if yakuman {
        3
    } else if han <= 5 {
        0
    } else if han <= 7 {
        1
    } else if han <= 12 {
        2
    } else {
        3
    }
}

impl HandResult {
    pub fn shot_count_from_result(&self) -> (n: u8)
        ensures
            n == shots_for(self.is_yakuman, self.total_han as int),
    {
        if self.is_yakuman {
            return 3;
        }
        if self.total_han <= 5 {
            0
        } else if self.total_han <= 7 {
            1
        } else if self.total_han <= 10 {
            2
        } else if self.total_han <= 12 {
            2
        } else {
            3
        }
    }

    /// A win below two han that is not a yakuman.
    pub fn is_low_han(&self) -> (b: bool)
        ensures
            b == (!self.is_yakuman && self.total_han < 2),
    {
        !self.is_yakuman && self.total_han < 2
    }
}

/// The tile an indicator points at: the next rank in its suit (9 wraps to
/// 1), the next wind (East, South, West, North, East), the next dragon
/// (White, Green, Red, White).
pub open spec fn dora_of(t: Tile) -> Tile {
    match t {
        Tile::Man(n) => Tile::Man((n % 9 + 1) as u8),
        Tile::Pin(n) => Tile::Pin((n % 9 + 1) as u8),
        Tile::Sou(n) => Tile::Sou((n % 9 + 1) as u8),
        Tile::Honor(h) => Tile::Honor(
            match h {
                Honor::East => Honor::South,
                Honor::South => Honor::West,
                Honor::West => Honor::North,
                Honor::North => Honor::East,
                Honor::White => Honor::Green,
                Honor::Green => Honor::Red,
                Honor::Red => Honor::White,
            },
        ),
    }
}

pub fn get_dora_from_indicator(indicator: &Tile) -> (t: Tile)
    ensures
        t == dora_of(*indicator),
{
    match indicator {
        Tile::Man(num) => Tile::Man((*num % 9) + 1),
        Tile::Pin(num) => Tile::Pin((*num % 9) + 1),
        Tile::Sou(num) => Tile::Sou((*num % 9) + 1),
        Tile::Honor(Honor::East) => Tile::Honor(Honor::South),
        Tile::Honor(Honor::South) => Tile::Honor(Honor::West),
        Tile::Honor(Honor::West) => Tile::Honor(Honor::North),
        Tile::Honor(Honor::North) => Tile::Honor(Honor::East),
        Tile::Honor(Honor::White) => Tile::Honor(Honor::Green),
        Tile::Honor(Honor::Green) => Tile::Honor(Honor::Red),
        Tile::Honor(Honor::Red) => Tile::Honor(Honor::White),
    }
}

/// How many of the indicators point at `t`.
pub open spec fn pointing_at(t: Tile, inds: Seq<Tile>) -> nat
    decreases inds.len(),
{
    if inds.len() == 0 {
        0
    } else {
        pointing_at(t, inds.drop_last()) + if dora_of(inds.last()) == t {
            1nat
        } else {
            0nat
        }
    }
}

/// The dora a hand holds against a list of indicators: each tile counts once
/// for every indicator that points at it.
pub open spec fn dora_total(hand: Seq<Tile>, inds: Seq<Tile>) -> nat
    decreases hand.len(),
{
    if hand.len() == 0 {
        0
    } else {
        dora_total(hand.drop_last(), inds) + pointing_at(hand.last(), inds)
    }
}

pub proof fn lemma_pointing_at_le(t: Tile, inds: Seq<Tile>)
    ensures
        pointing_at(t, inds) <= inds.len(),
    decreases inds.len(),
{
    if inds.len() > 0 {
        lemma_pointing_at_le(t, inds.drop_last());
    }
}

pub proof fn lemma_dora_total_le(hand: Seq<Tile>, inds: Seq<Tile>)
    ensures
        dora_total(hand, inds) <= hand.len() * inds.len(),
    decreases hand.len(),
{
    if hand.len() > 0 {
        lemma_dora_total_le(hand.drop_last(), inds);
        lemma_pointing_at_le(hand.last(), inds);
        assert((hand.len() - 1) * inds.len() + inds.len() == hand.len() * inds.len())
            by (nonlinear_arith);
    }
}

/// Sizes that a real table never exceeds: at most eighteen tiles in the hand
/// (four kans and a pair) and ten indicators in all.
pub open spec fn dora_sizes_fit(hand: Seq<Tile>, dead_wall: &DeadWall) -> bool {
    hand.len() <= 18 && dead_wall.dora_indicators@.len() + dead_wall.ura_indicators@.len() <= 10
}

/// The dora of a hand, with its ura-dora when `riichi`, fit the `u8` counter
/// they are added up in.
pub open spec fn dora_fits(hand: Seq<Tile>, dead_wall: &DeadWall, riichi: bool) -> bool {
    dora_total(hand, dead_wall.dora_indicators@) + (if riichi {
        dora_total(hand, dead_wall.ura_indicators@)
    } else {
        0
    }) <= 255
}

pub proof fn lemma_pointing_at_prefix(t: Tile, inds: Seq<Tile>, k: int)
    requires
        0 <= k <= inds.len(),
    ensures
        pointing_at(t, inds.take(k)) <= pointing_at(t, inds),
    decreases inds.len(),
{
    if k < inds.len() {
        assert(inds.drop_last().take(k) == inds.take(k));
        lemma_pointing_at_prefix(t, inds.drop_last(), k);
    } else {
        assert(inds.take(k) == inds);
    }
}

pub proof fn lemma_dora_total_prefix(hand: Seq<Tile>, inds: Seq<Tile>, k: int)
    requires
        0 <= k <= hand.len(),
    ensures
        dora_total(hand.take(k), inds) <= dora_total(hand, inds),
    decreases hand.len(),
{
    if k < hand.len() {
        assert(hand.drop_last().take(k) == hand.take(k));
        lemma_dora_total_prefix(hand.drop_last(), inds, k);
    } else {
        assert(hand.take(k) == hand);
    }
}

/// Real table sizes keep the dora well inside their counter.
pub proof fn lemma_sizes_fit_dora(hand: Seq<Tile>, dead_wall: &DeadWall, riichi: bool)
    requires
        dora_sizes_fit(hand, dead_wall),
    ensures
        dora_fits(hand, dead_wall, riichi),
        dora_total(hand, dead_wall.dora_indicators@) + dora_total(hand, dead_wall.ura_indicators@) <= 180,
{
    let dor = dead_wall.dora_indicators@;
    let ura = dead_wall.ura_indicators@;
    lemma_dora_total_le(hand, dor);
    lemma_dora_total_le(hand, ura);
    assert(hand.len() * dor.len() + hand.len() * ura.len() <= 18 * 10) by (nonlinear_arith)
        requires
            hand.len() <= 18,
            dor.len() + ura.len() <= 10,
    ;
}

fn count_pointing(t: &Tile, inds: &Vec<Tile>) -> (n: u8)
    requires
        pointing_at(*t, inds@) <= 255,
    ensures
        n == pointing_at(*t, inds@),
{
    let mut n: u8 = 0;
    let mut k: usize = 0;
    while k < inds.len()
        invariant
            k <= inds@.len(),
            pointing_at(*t, inds@) <= 255,
            n == pointing_at(*t, inds@.take(k as int)),
        decreases inds@.len() - k,
    {
        assert(inds@.take(k + 1).drop_last() == inds@.take(k as int));
        proof {
            lemma_pointing_at_prefix(*t, inds@, k + 1);
        }
        if *t == get_dora_from_indicator(&inds[k]) {
            n = n + 1;
        }
        k = k + 1;
    }
    assert(inds@.take(k as int) == inds@);
    n
}

/// Counts dora and, for a riichi hand, ura-dora; each adds one han.
pub fn count_dora(combined_hand: &[Tile], dead_wall: &DeadWall, is_riichi: bool) -> (d: DoraCount)
    requires
        dora_fits(combined_hand@, dead_wall, is_riichi),
    ensures
        d.dora == dora_total(combined_hand@, dead_wall.dora_indicators@),
        d.ura_dora == if is_riichi {
            dora_total(combined_hand@, dead_wall.ura_indicators@)
        } else {
            0
        },
        d.additional_han == d.dora + d.ura_dora,
{
    let ghost hand = combined_hand@;
    let ghost dor = dead_wall.dora_indicators@;
    let ghost ura = dead_wall.ura_indicators@;
    let mut dora_count = DoraCount { dora: 0, ura_dora: 0, additional_han: 0 };
    let mut k: usize = 0;
    while k < combined_hand.len()
        invariant
            k <= hand.len(),
            hand == combined_hand@,
            dor == dead_wall.dora_indicators@,
            ura == dead_wall.ura_indicators@,
            dora_fits(hand, dead_wall, is_riichi),
            dora_count.dora == dora_total(hand.take(k as int), dor),
            dora_count.ura_dora == if is_riichi {
                dora_total(hand.take(k as int), ura)
            } else {
                0
            },
            dora_count.additional_han == dora_count.dora + dora_count.ura_dora,
        decreases hand.len() - k,
    {
        assert(hand.take(k + 1).drop_last() == hand.take(k as int));
        proof {
            lemma_dora_total_prefix(hand, dor, k + 1);
            lemma_dora_total_prefix(hand, ura, k + 1);
        }
        let tile = &combined_hand[k];
        let d = count_pointing(tile, &dead_wall.dora_indicators);
        dora_count.dora = dora_count.dora + d;
        dora_count.additional_han = dora_count.additional_han + d;
        if is_riichi {
            let u = count_pointing(tile, &dead_wall.ura_indicators);
            dora_count.ura_dora = dora_count.ura_dora + u;
            dora_count.additional_han = dora_count.additional_han + u;
        }
        k = k + 1;
    }
    assert(hand.take(k as int) == hand);
    dora_count
}

/// The fu one meld adds: triplets 4 (closed) or 2 (open), doubled for
/// terminals and honors; kans four times a triplet's value; 2 for a pair per
/// dragon, seat-wind or round-wind match; nothing for a run.
pub open spec fn meld_fu(m: Mentsu, jikaze: Wind, bakaze: Wind) -> int {
    match m {
        Mentsu::Koutsu(x, c) => if c {
            if yaochuu(x[0]) {
                8
            } else {
                4
            }
        } else {
            if yaochuu(x[0]) {
                4
            } else {
                2
            }
        },
        Mentsu::Ankan(x) => if yaochuu(x[0]) {
            32
        } else {
            16
        },
        Mentsu::Daiminkan(x) => if yaochuu(x[0]) {
            16
        } else {
            8
        },
        Mentsu::Shouminkan(x) => if yaochuu(x[0]) {
            16
        } else {
            8
        },
        Mentsu::Jantou(x) => (if dragon(x[0]) {
            2int
        } else {
            0
        }) + (if x[0] == Tile::Honor(jikaze.honor_of()) {
            2int
        } else {
            0
        }) + (if x[0] == Tile::Honor(bakaze.honor_of()) {
            2int
        } else {
            0
        }),
        Mentsu::Shuntsu(_, _) => 0,
    }
}

pub open spec fn melds_fu(r: Seq<Mentsu>, jikaze: Wind, bakaze: Wind) -> int
    decreases r.len(),
{
    if r.len() == 0 {
        0
    } else {
        melds_fu(r.drop_last(), jikaze, bakaze) + meld_fu(r.last(), jikaze, bakaze)
    }
}

proof fn lemma_melds_fu_bounds(r: Seq<Mentsu>, jikaze: Wind, bakaze: Wind)
    ensures
        0 <= melds_fu(r, jikaze, bakaze) <= 32 * r.len(),
    decreases r.len(),
{
    if r.len() > 0 {
        lemma_melds_fu_bounds(r.drop_last(), jikaze, bakaze);
    }
}

/// The fu of triplets and kans follow one table: an open triplet of simples
/// adds 2 and an open triplet of terminals or honors adds 4; being closed
/// doubles a triplet's value; a kan is worth four times the triplet of the
/// same tiles and openness (a closed kan four times a closed triplet, an
/// open or added kan four times an open one).
pub proof fn lemma_set_fu_table(x: [Tile; 3], k: [Tile; 4], jikaze: Wind, bakaze: Wind)
    requires
        k[0] == x[0],
    ensures
        yaochuu(x[0]) ==> meld_fu(Mentsu::Koutsu(x, false), jikaze, bakaze) == 4,
        !yaochuu(x[0]) ==> meld_fu(Mentsu::Koutsu(x, false), jikaze, bakaze) == 2,
        meld_fu(Mentsu::Koutsu(x, true), jikaze, bakaze) == 2 * meld_fu(
            Mentsu::Koutsu(x, false),
            jikaze,
            bakaze,
        ),
        meld_fu(Mentsu::Ankan(k), jikaze, bakaze) == 4 * meld_fu(
            Mentsu::Koutsu(x, true),
            jikaze,
            bakaze,
        ),
        meld_fu(Mentsu::Daiminkan(k), jikaze, bakaze) == 4 * meld_fu(
            Mentsu::Koutsu(x, false),
            jikaze,
            bakaze,
        ),
        meld_fu(Mentsu::Shouminkan(k), jikaze, bakaze) == 4 * meld_fu(
            Mentsu::Koutsu(x, false),
            jikaze,
            bakaze,
        ),
{
}

/// The pair adds 2 fu for a dragon, 2 for the seat wind and 2 for the round
/// wind, so 4 for a wind that is both; a pair of simples adds nothing.
pub proof fn lemma_pair_fu(x: [Tile; 2], jikaze: Wind, bakaze: Wind)
    ensures
        dragon(x[0]) ==> meld_fu(Mentsu::Jantou(x), jikaze, bakaze) == 2,
        jikaze == bakaze && x[0] == Tile::Honor(jikaze.honor_of()) ==> meld_fu(
            Mentsu::Jantou(x),
            jikaze,
            bakaze,
        ) == 4,
        jikaze != bakaze && (x[0] == Tile::Honor(jikaze.honor_of()) || x[0] == Tile::Honor(
            bakaze.honor_of(),
        )) ==> meld_fu(Mentsu::Jantou(x), jikaze, bakaze) == 2,
        !(x[0] is Honor) ==> meld_fu(Mentsu::Jantou(x), jikaze, bakaze) == 0,
{
}

/// A triplet of terminals or honors is worth twice a triplet of simples
/// that is open or closed alike.
pub proof fn lemma_yaochuu_triplet_doubles(
    x: [Tile; 3],
    y: [Tile; 3],
    closed: bool,
    jikaze: Wind,
    bakaze: Wind,
)
    requires
        yaochuu(x[0]),
        !yaochuu(y[0]),
    ensures
        meld_fu(Mentsu::Koutsu(x, closed), jikaze, bakaze) == 2 * meld_fu(
            Mentsu::Koutsu(y, closed),
            jikaze,
            bakaze,
        ),
{
}

/// A triplet or any kind of kan.
pub open spec fn is_set_meld(m: Mentsu) -> bool {
    m is Koutsu || m is Ankan || m is Daiminkan || m is Shouminkan
}

proof fn lemma_melds_fu_update(r: Seq<Mentsu>, i: int, m: Mentsu, jikaze: Wind, bakaze: Wind)
    requires
        0 <= i < r.len(),
    ensures
        melds_fu(r.update(i, m), jikaze, bakaze) == melds_fu(r, jikaze, bakaze) - meld_fu(
            r[i],
            jikaze,
            bakaze,
        ) + meld_fu(m, jikaze, bakaze),
    decreases r.len(),
{
    let u = r.update(i, m);
    if i == r.len() - 1 {
        assert(u.drop_last() =~= r.drop_last());
    } else {
        lemma_melds_fu_update(r.drop_last(), i, m, jikaze, bakaze);
        assert(u.drop_last() =~= r.drop_last().update(i, m));
    }
}

/// Trading one triplet or kan of a split for another changes the fu of the
/// hand by exactly the difference of what the two add: the base, the wait
/// and every other meld count the same.
pub proof fn lemma_swapping_a_set_changes_fu_by_its_value(
    r: Seq<Mentsu>,
    i: int,
    m1: Mentsu,
    m2: Mentsu,
    w: Tile,
    jikaze: Wind,
    bakaze: Wind,
    is_tsumo: bool,
    closed: bool,
)
    requires
        0 <= i < r.len(),
        is_set_meld(m1),
        is_set_meld(m2),
    ensures
        raw_fu(r.update(i, m2), w, jikaze, bakaze, is_tsumo, closed) == raw_fu(
            r.update(i, m1),
            w,
            jikaze,
            bakaze,
            is_tsumo,
            closed,
        ) + meld_fu(m2, jikaze, bakaze) - meld_fu(m1, jikaze, bakaze),
{
    let u1 = r.update(i, m1);
    let u2 = r.update(i, m2);
    lemma_melds_fu_update(r, i, m1, jikaze, bakaze);
    lemma_melds_fu_update(r, i, m2, jikaze, bakaze);
    assert(penchan(u1, w) == penchan(u2, w)) by {
        if penchan(u1, w) {
            let j = choose|j: int| 0 <= j < u1.len() && crate::melds::penchan_in(#[trigger] u1[j], w);
            assert(u2[j] == u1[j]);
        }
        if penchan(u2, w) {
            let j = choose|j: int| 0 <= j < u2.len() && crate::melds::penchan_in(#[trigger] u2[j], w);
            assert(u1[j] == u2[j]);
        }
    }
    assert(kanchan(u1, w) == kanchan(u2, w)) by {
        if kanchan(u1, w) {
            let j = choose|j: int| 0 <= j < u1.len() && crate::melds::kanchan_in(#[trigger] u1[j], w);
            assert(u2[j] == u1[j]);
        }
        if kanchan(u2, w) {
            let j = choose|j: int| 0 <= j < u2.len() && crate::melds::kanchan_in(#[trigger] u2[j], w);
            assert(u1[j] == u2[j]);
        }
    }
    assert(tanki(u1, w) == tanki(u2, w)) by {
        if tanki(u1, w) {
            let j = choose|j: int| 0 <= j < u1.len() && crate::melds::is_pair_of(#[trigger] u1[j], w);
            assert(u2[j] == u1[j]);
        }
        if tanki(u2, w) {
            let j = choose|j: int| 0 <= j < u2.len() && crate::melds::is_pair_of(#[trigger] u2[j], w);
            assert(u1[j] == u2[j]);
        }
    }
}

/// Fu before rounding: twenty, plus two for tsumo or ten for a closed ron,
/// plus each meld's fu, plus two for an edge, closed or pair wait.
pub open spec fn raw_fu(r: Seq<Mentsu>, w: Tile, jikaze: Wind, bakaze: Wind, is_tsumo: bool, closed: bool) -> int {
    20 + (if is_tsumo {
        2int
    } else if closed {
        10
    } else {
        0
    }) + melds_fu(r, jikaze, bakaze) + (if penchan(r, w) || kanchan(r, w) || tanki(r, w) {
        2int
    } else {
        0
    })
}

pub fn calculate_fu(
    result: &[Mentsu],
    winning_tile: &Tile,
    jikaze: &Wind,
    bakaze: &Wind,
    is_tsumo: bool,
    is_hand_closed: bool,
) -> (fu: u8)
    requires
        result@.len() <= 6,
    ensures
        fu == raw_fu(result@, *winning_tile, *jikaze, *bakaze, is_tsumo, is_hand_closed),
        fu <= 224,
{
    let mut fu: u8 = 20;
    if is_tsumo {
        fu = fu + 2;
    } else if is_hand_closed {
        fu = fu + 10;
    }
    let ghost base = fu;
    let jh = Tile::Honor(jikaze.wind_to_honor());
    let bh = Tile::Honor(bakaze.wind_to_honor());
    let mut k: usize = 0;
    while k < result.len()
        invariant
            k <= result@.len() <= 6,
            base <= 30,
            jh == Tile::Honor(jikaze.honor_of()),
            bh == Tile::Honor(bakaze.honor_of()),
            fu == base + melds_fu(result@.take(k as int), *jikaze, *bakaze),
            base == 20 + (if is_tsumo { 2int } else if is_hand_closed { 10 } else { 0 }),
        decreases result@.len() - k,
    {
        proof {
            lemma_melds_fu_bounds(result@.take(k as int), *jikaze, *bakaze);
        }
        assert(result@.take(k + 1).drop_last() == result@.take(k as int));
        match &result[k] {
            Mentsu::Koutsu(tiles, true) => {
                fu = fu + if is_yaochuuhai(&tiles[0]) {
                    8
                } else {
                    4
                };
            },
            Mentsu::Koutsu(tiles, false) => {
                fu = fu + if is_yaochuuhai(&tiles[0]) {
                    4
                } else {
                    2
                };
            },
            Mentsu::Ankan(tiles) => {
                fu = fu + if is_yaochuuhai(&tiles[0]) {
                    32
                } else {
                    16
                };
            },
            Mentsu::Daiminkan(tiles) => {
                fu = fu + if is_yaochuuhai(&tiles[0]) {
                    16
                } else {
                    8
                };
            },
            Mentsu::Shouminkan(tiles) => {
                fu = fu + if is_yaochuuhai(&tiles[0]) {
                    16
                } else {
                    8
                };
            },
            Mentsu::Jantou(tiles) => {
                let tile = tiles[0];
                if tile == Tile::Honor(Honor::Red) || tile == Tile::Honor(Honor::Green) || tile
                    == Tile::Honor(Honor::White) {
                    fu = fu + 2;
                }
                if tile == jh {
                    fu = fu + 2;
                }
                if tile == bh {
                    fu = fu + 2;
                }
            },
            Mentsu::Shuntsu(_, _) => {},
        }
        k = k + 1;
    }
    assert(result@.take(k as int) == result@);
    proof {
        lemma_melds_fu_bounds(result@, *jikaze, *bakaze);
    }
    if is_penchan_wait(result, winning_tile) || is_kanchan_wait(result, winning_tile)
        || is_tanki_wait(result, winning_tile) {
        fu = fu + 2;
    }
    fu
}

pub open spec fn pow2(e: nat) -> nat
    decreases e,
{
    if e == 0 {
        1
    } else {
        2 * pow2((e - 1) as nat)
    }
}

/// `x` rounded up to a multiple of `d`.
pub open spec fn round_up(x: int, d: int) -> int {
    ((x + d - 1) / d) * d
}

/// The basic points of a non-yakuman hand: fu times two to the han plus two,
/// replaced by the limit value (2000, 3000, 4000, 6000, 8000 by han) once it
/// passes 2000, the han pass five, or the hand is 4 han 40 fu or 3 han 70 fu.
pub open spec fn base_points(han: int, fu: int) -> int {
    let base = fu * pow2((han + 2) as nat);
    if base > 2000 || han > 5 || (han >= 4 && fu >= 40) || (han >= 3 && fu >= 70) {
        if han <= 5 {
            2000
        } else if han <= 7 {
            3000
        } else if han <= 10 {
            4000
        } else if han <= 12 {
            6000
        } else {
            8000
        }
    } else {
        base
    }
}

/// What a win pays. A yakuman pays 48000 per yakuman name to a dealer and
/// 32000 per name to anyone else; on tsumo a dealer's win is split three
/// ways and a non-dealer's half from the dealer, a quarter from each other
/// player. Other hands pay from the basic points, each payment rounded up
/// to 100: a dealer tsumo 2x from each player, a dealer ron 6x, a non-dealer
/// tsumo 2x from the dealer and 1x from the others, a non-dealer ron 4x.
pub open spec fn payout(han: int, fu: int, is_oya: bool, is_tsumo: bool, is_yakuman: bool, n_names: int) -> (
    int,
    int,
    int,
) {
    if is_yakuman {
        if is_oya {
            if is_tsumo {
                (n_names * 48000, 0, n_names * 48000 / 3)
            } else {
                (n_names * 48000, 0, n_names * 48000)
            }
        } else {
            if is_tsumo {
                (n_names * 32000, n_names * 32000 / 2, n_names * 32000 / 2 / 2)
            } else {
                (n_names * 32000, 0, n_names * 32000)
            }
        }
    } else {
        let base = base_points(han, fu);
        if is_oya && is_tsumo {
            let each = round_up(base * 2, 100);
            (each * 3, 0, each)
        } else if is_oya {
            let ron = round_up(base * 6, 100);
            (ron, 0, ron)
        } else if is_tsumo {
            let from_oya = round_up(base * 2, 100);
            let from_other = round_up(base, 100);
            (from_oya + from_other * 2, from_oya, from_other)
        } else {
            let ron = round_up(base * 4, 100);
            (ron, ron, ron)
        }
    }
}

/// A tsumo is paid in full by the other players: a dealer's by three equal
/// shares, anyone else's by the dealer's share and two equal smaller ones.
pub proof fn lemma_tsumo_balances(han: int, fu: int, is_oya: bool, is_yakuman: bool, n_names: int)
    requires
        n_names >= 0,
    ensures
        is_oya ==> payout(han, fu, is_oya, true, is_yakuman, n_names).0 == 3 * payout(
            han,
            fu,
            is_oya,
            true,
            is_yakuman,
            n_names,
        ).2,
        !is_oya ==> payout(han, fu, is_oya, true, is_yakuman, n_names).0 == payout(
            han,
            fu,
            is_oya,
            true,
            is_yakuman,
            n_names,
        ).1 + 2 * payout(han, fu, is_oya, true, is_yakuman, n_names).2,
{
    assert(n_names * 48000 / 3 == n_names * 16000) by (nonlinear_arith)
        requires
            n_names >= 0,
    ;
    assert(n_names * 32000 / 2 == n_names * 16000) by (nonlinear_arith)
        requires
            n_names >= 0,
    ;
    assert(n_names * 16000 / 2 == n_names * 8000) by (nonlinear_arith)
        requires
            n_names >= 0,
    ;
}

/// The limit values by han, whatever the fu: 5 han is mangan (2000 basic
/// points) from 20 fu on, 6 or 7 han haneman (3000), 8 to 10 han baiman
/// (4000), 11 or 12 han sanbaiman (6000), 13 han and more 8000.
pub proof fn lemma_limit_tiers(han: int, fu: int)
    ensures
        han == 5 && fu >= 20 ==> base_points(han, fu) == 2000,
        6 <= han <= 7 ==> base_points(han, fu) == 3000,
        8 <= han <= 10 ==> base_points(han, fu) == 4000,
        11 <= han <= 12 ==> base_points(han, fu) == 6000,
        han >= 13 ==> base_points(han, fu) == 8000,
{
    if han == 5 && fu >= 20 {
        assert(pow2(7) == 128) by {
            reveal_with_fuel(pow2, 8);
        }
        assert(fu * 128 >= 2560) by (nonlinear_arith)
            requires
                fu >= 20,
        ;
    }
}

/// What a haneman (6 or 7 han, not yakuman) pays, whatever the fu: 12000 on
/// a non-dealer ron, 18000 on a dealer ron; on a non-dealer tsumo 6000 from
/// the dealer and 3000 from each other player, on a dealer tsumo 6000 from
/// each player.
pub proof fn lemma_haneman_payouts(han: int, fu: int, n_names: int)
    requires
        6 <= han <= 7,
    ensures
        payout(han, fu, false, false, false, n_names) == (12000int, 12000int, 12000int),
        payout(han, fu, true, false, false, n_names) == (18000int, 0int, 18000int),
        payout(han, fu, false, true, false, n_names) == (12000int, 6000int, 3000int),
        payout(han, fu, true, true, false, n_names) == (18000int, 0int, 6000int),
{
    lemma_limit_tiers(han, fu);
    assert(round_up(12000, 100) == 12000);
    assert(round_up(18000, 100) == 18000);
    assert(round_up(6000, 100) == 6000);
    assert(round_up(3000, 100) == 3000);
}

/// What a mangan of 5 han (not yakuman, 20 fu or more) pays: 8000 on a
/// non-dealer ron, 12000 on a dealer ron; on a non-dealer tsumo 4000 from
/// the dealer and 2000 from each other player, on a dealer tsumo 4000 from
/// each player.
pub proof fn lemma_five_han_mangan_payouts(fu: int, n_names: int)
    requires
        fu >= 20,
    ensures
        payout(5, fu, false, false, false, n_names) == (8000int, 8000int, 8000int),
        payout(5, fu, true, false, false, n_names) == (12000int, 0int, 12000int),
        payout(5, fu, false, true, false, n_names) == (8000int, 4000int, 2000int),
        payout(5, fu, true, true, false, n_names) == (12000int, 0int, 4000int),
{
    lemma_limit_tiers(5, fu);
    assert(round_up(8000, 100) == 8000);
    assert(round_up(12000, 100) == 12000);
    assert(round_up(4000, 100) == 4000);
    assert(round_up(2000, 100) == 2000);
}

/// What the two highest limits pay on a non-dealer ron: 24000 for 11 or 12
/// han (sanbaiman), 32000 from 13 han on, whatever the fu.
pub proof fn lemma_top_limit_ron_payouts(han: int, fu: int, n_names: int)
    ensures
        11 <= han <= 12 ==> payout(han, fu, false, false, false, n_names).0 == 24000,
        han >= 13 ==> payout(han, fu, false, false, false, n_names).0 == 32000,
        11 <= han <= 12 ==> payout(han, fu, true, false, false, n_names).0 == 36000,
        han >= 13 ==> payout(han, fu, true, false, false, n_names).0 == 48000,
{
    lemma_limit_tiers(han, fu);
    assert(round_up(24000, 100) == 24000);
    assert(round_up(32000, 100) == 32000);
    assert(round_up(36000, 100) == 36000);
    assert(round_up(48000, 100) == 48000);
}

/// What a baiman (8 to 10 han, not yakuman) pays, whatever the fu: 16000 on
/// a non-dealer ron, 24000 on a dealer ron; on a non-dealer tsumo 8000 from
/// the dealer and 4000 from each other player, on a dealer tsumo 8000 from
/// each player.
pub proof fn lemma_baiman_payouts(han: int, fu: int, n_names: int)
    requires
        8 <= han <= 10,
    ensures
        payout(han, fu, false, false, false, n_names) == (16000int, 16000int, 16000int),
        payout(han, fu, true, false, false, n_names) == (24000int, 0int, 24000int),
        payout(han, fu, false, true, false, n_names) == (16000int, 8000int, 4000int),
        payout(han, fu, true, true, false, n_names) == (24000int, 0int, 8000int),
{
    lemma_limit_tiers(han, fu);
    assert(round_up(16000, 100) == 16000);
    assert(round_up(24000, 100) == 24000);
    assert(round_up(8000, 100) == 8000);
    assert(round_up(4000, 100) == 4000);
}

/// The indicator that points at `t`: the rank below in its suit (9 for a
/// 1), the wind before, the dragon before.
pub open spec fn indicator_for(t: Tile) -> Tile {
    match t {
        Tile::Man(n) => Tile::Man(if n == 1 { 9u8 } else { (n - 1) as u8 }),
        Tile::Pin(n) => Tile::Pin(if n == 1 { 9u8 } else { (n - 1) as u8 }),
        Tile::Sou(n) => Tile::Sou(if n == 1 { 9u8 } else { (n - 1) as u8 }),
        Tile::Honor(h) => Tile::Honor(
            match h {
                Honor::East => Honor::North,
                Honor::South => Honor::East,
                Honor::West => Honor::South,
                Honor::North => Honor::West,
                Honor::White => Honor::Red,
                Honor::Green => Honor::White,
                Honor::Red => Honor::Green,
            },
        ),
    }
}

/// Every valid tile is pointed at by exactly one indicator: `dora_of` maps
/// valid tiles to valid tiles, and `indicator_for` undoes it both ways.
pub proof fn lemma_dora_of_bijective(t: Tile)
    requires
        valid_tile(t),
    ensures
        valid_tile(dora_of(t)),
        valid_tile(indicator_for(t)),
        dora_of(indicator_for(t)) == t,
        indicator_for(dora_of(t)) == t,
{
}

/// Basic points are never negative and never above the 8000 of a counted
/// yakuman.
pub proof fn lemma_base_points_capped(han: int, fu: int)
    requires
        han >= -2,
        fu >= 0,
    ensures
        0 <= base_points(han, fu) <= 8000,
{
    lemma_pow2_bound((han + 2) as nat, (han + 2) as nat);
    assert(fu * pow2((han + 2) as nat) >= 0) by (nonlinear_arith)
        requires
            fu >= 0,
            pow2((han + 2) as nat) >= 1,
    ;
}

/// Every payment of a hand below yakuman is a multiple of 100.
pub proof fn lemma_payout_rounded(han: int, fu: int, is_oya: bool, is_tsumo: bool, n_names: int)
    ensures
        payout(han, fu, is_oya, is_tsumo, false, n_names).0 % 100 == 0,
        payout(han, fu, is_oya, is_tsumo, false, n_names).1 % 100 == 0,
        payout(han, fu, is_oya, is_tsumo, false, n_names).2 % 100 == 0,
{
    let b = base_points(han, fu);
    let q2 = (b * 2 + 99) / 100;
    let q6 = (b * 6 + 99) / 100;
    let q1 = (b + 99) / 100;
    let q4 = (b * 4 + 99) / 100;
    assert((q2 * 100) % 100 == 0 && (q2 * 100 * 3) % 100 == 0) by (nonlinear_arith);
    assert((q6 * 100) % 100 == 0) by (nonlinear_arith);
    assert((q1 * 100) % 100 == 0) by (nonlinear_arith);
    assert((q4 * 100) % 100 == 0) by (nonlinear_arith);
    assert((q2 * 100 + q1 * 100 * 2) % 100 == 0) by (nonlinear_arith);
}

fn pow2_u32(e: u8) -> (r: u32)
    requires
        e < 32,
    ensures
        r == pow2(e as nat),
{
    let mut r: u32 = 1;
    let mut i: u8 = 0;
    while i < e
        invariant
            i <= e < 32,
            r == pow2(i as nat),
            pow2(i as nat) <= 0x8000_0000,
        decreases e - i,
    {
        proof {
            lemma_pow2_bound((i + 1) as nat, 31);
            lemma_pow2_31();
            assert(pow2((i + 1) as nat) == 2 * pow2(i as nat));
        }
        r = r * 2;
        i = i + 1;
    }
    r
}

pub proof fn lemma_pow2_bound(e: nat, k: nat)
    requires
        e <= k,
    ensures
        1 <= pow2(e) <= pow2(k),
    decreases k,
{
    if e < k {
        lemma_pow2_bound(e, (k - 1) as nat);
    }
    if k > 0 {
        lemma_pow2_bound((k - 1) as nat, (k - 1) as nat);
    }
}

proof fn lemma_round_up_monotone(x: int, y: int)
    requires
        0 <= x <= y,
    ensures
        round_up(x, 100) <= round_up(y, 100),
{
    vstd::arithmetic::div_mod::lemma_div_is_ordered(x + 99, y + 99, 100);
}

/// The basic points never fall when the han or the fu rise.
pub proof fn lemma_base_points_monotone(h1: int, f1: int, h2: int, f2: int)
    requires
        0 <= h1 <= h2,
        0 <= f1 <= f2,
    ensures
        base_points(h1, f1) <= base_points(h2, f2),
{
    lemma_pow2_bound((h1 + 2) as nat, (h2 + 2) as nat);
    let p1 = pow2((h1 + 2) as nat) as int;
    let p2 = pow2((h2 + 2) as nat) as int;
    assert(f1 * p1 <= f2 * p2) by (nonlinear_arith)
        requires
            0 <= f1 <= f2,
            1 <= p1 <= p2,
    ;
}

/// More han or more fu never pays less: below yakuman, the total and each
/// share of a win rise, or stay, with the han and with the fu.
pub proof fn lemma_payout_monotone(
    h1: int,
    f1: int,
    h2: int,
    f2: int,
    is_oya: bool,
    is_tsumo: bool,
    n_names: int,
)
    requires
        0 <= h1 <= h2,
        0 <= f1 <= f2,
    ensures
        payout(h1, f1, is_oya, is_tsumo, false, n_names).0 <= payout(h2, f2, is_oya, is_tsumo, false, n_names).0,
        payout(h1, f1, is_oya, is_tsumo, false, n_names).1 <= payout(h2, f2, is_oya, is_tsumo, false, n_names).1,
        payout(h1, f1, is_oya, is_tsumo, false, n_names).2 <= payout(h2, f2, is_oya, is_tsumo, false, n_names).2,
{
    let b1 = base_points(h1, f1);
    let b2 = base_points(h2, f2);
    lemma_base_points_monotone(h1, f1, h2, f2);
    lemma_base_points_capped(h1, f1);
    lemma_round_up_monotone(b1 * 2, b2 * 2);
    lemma_round_up_monotone(b1 * 6, b2 * 6);
    lemma_round_up_monotone(b1 * 4, b2 * 4);
    lemma_round_up_monotone(b1, b2);
}

pub proof fn lemma_pow2_31()
    ensures
        pow2(31) == 0x8000_0000,
{
    reveal_with_fuel(pow2, 32);
}

fn round_up_100(x: u32) -> (r: u32)
    requires
        x <= 100_000,
    ensures
        r == round_up(x as int, 100),
{
    (x + 99) / 100 * 100
}

pub fn calculate_score(
    han: u8,
    fu: u8,
    is_oya: bool,
    is_tsumo: bool,
    is_yakuman: bool,
    yaku_names: &[String],
) -> (p: ScorePayout)
    requires
        is_yakuman ==> yaku_names@.len() <= 89_000,
        !is_yakuman ==> han + 2 < 32 && fu * pow2((han + 2) as nat) <= u32::MAX,
    ensures
        (p.total_won as int, p.oya_pays as int, p.non_oya_pays as int) == payout(
            han as int,
            fu as int,
            is_oya,
            is_tsumo,
            is_yakuman,
            yaku_names@.len() as int,
        ),
{
    if is_yakuman {
        let n = yaku_names.len();
        if is_oya {
            if is_tsumo {
                return ScorePayout {
                    total_won: (n * 48000) as u32,
                    oya_pays: 0,
                    non_oya_pays: (n * 48000 / 3) as u32,
                };
            } else {
                return ScorePayout {
                    total_won: (n * 48000) as u32,
                    oya_pays: 0,
                    non_oya_pays: (n * 48000) as u32,
                };
            }
        } else {
            if is_tsumo {
                return ScorePayout {
                    total_won: (n * 32000) as u32,
                    oya_pays: (n * 32000 / 2) as u32,
                    non_oya_pays: ((n * 32000 / 2) / 2) as u32,
                };
            } else {
                return ScorePayout {
                    total_won: (n * 32000) as u32,
                    oya_pays: 0,
                    non_oya_pays: (n * 32000) as u32,
                };
            }
        }
    }
    let p = pow2_u32(han + 2);
    assert(fu as int * p as int <= u32::MAX);
    let mut base: u32 = fu as u32 * p;
    if base > 2000 || han > 5 || (han >= 4 && fu >= 40) || (han >= 3 && fu >= 70) {
        if han <= 5 {
            base = 2000;
        } else if han <= 7 {
            base = 3000;
        } else if han <= 10 {
            base = 4000;
        } else if han <= 12 {
            base = 6000;
        } else {
            base = 8000;
        }
    }
    assert(base == base_points(han as int, fu as int));
    if is_oya && is_tsumo {
        let non_oya_payout = round_up_100(base * 2);
        ScorePayout { total_won: non_oya_payout * 3, oya_pays: 0, non_oya_pays: non_oya_payout }
    } else if is_oya && !is_tsumo {
        let ron_payout = round_up_100(base * 6);
        ScorePayout { total_won: ron_payout, oya_pays: 0, non_oya_pays: ron_payout }
    } else if !is_oya && is_tsumo {
        let oya_payout = round_up_100(base * 2);
        let non_oya_payout = round_up_100(base);
        ScorePayout {
            total_won: oya_payout + (non_oya_payout * 2),
            oya_pays: oya_payout,
            non_oya_pays: non_oya_payout,
        }
    } else {
        let ron_payout = round_up_100(base * 4);
        ScorePayout { total_won: ron_payout, oya_pays: ron_payout, non_oya_pays: ron_payout }
    }
}

} // verus!
