//! Putting the yaku together: the names, han and fu of a standard hand, of
//! seven pairs and of thirteen orphans, and the best of them with dora.

use vstd::prelude::*;
use crate::tile::{Tile, Mentsu, Wind};
use crate::yaku::{
    nine_gates, four_concealed, big_four_winds, little_four_winds, big_three_dragons,
    little_three_dragons, all_honors, all_terminals, all_green, kan_count_is, one_suit,
    one_suit_and_honors, all_yaochuu, all_outside, double_twin_runs, twin_runs, all_simples,
    straight, three_color_straight, three_color_triplets, all_triplets, three_concealed,
    pinfu_shape, yakuhai_total, seven_pairs, kokushi, wall_exhausted, chuuren_poutou, suuankou,
    daisuushii, shousuushii, daisangen, tsuuisou, chinroutou, ryuuiisou, suukantsu, chinitsu,
    honitsu, honroutou, junchan, chanta, sankantsu, ryankantsu, ryanpeikou, iipeikou, tanyao,
    ittsuu, sanshoku_doujun, sanshoku_doukou, toitoi, sanankou, shousangen, pinfu, yakuhai,
    tenhou, chiihou, haitei, houtei, kokushi_musou, chiitoitsu,
};
use crate::scoring::{
    HandResult, HandView, name_views, raw_fu, round_up, calculate_fu, count_dora, dora_total,
};
use crate::table::{Kawa, Wall, DeadWall};
use crate::decompose::views;

verus! {

/// The circumstances of a win that the yaku depend on besides the tiles.
/// `first_turn` means the winner has discarded nothing yet; `last_tile`
/// means the live wall is used up.
pub struct Situation {
    pub closed: bool,
    pub oya: bool,
    pub riichi: bool,
    pub double_riichi: bool,
    pub ippatsu: bool,
    pub bakaze: Wind,
    pub jikaze: Wind,
    pub first_turn: bool,
    pub tsumo: bool,
    pub rinshan: bool,
    pub chankan: bool,
    pub last_tile: bool,
    pub calls_made: bool,
}

pub open spec fn opt(b: bool, n: Seq<char>) -> Seq<Seq<char>> {
    if b {
        seq![n]
    } else {
        Seq::empty()
    }
}

pub open spec fn tenhou_cond(first_turn: bool, oya: bool, tsumo: bool, calls: bool) -> bool {
    first_turn && oya && tsumo && !calls
}

pub open spec fn chiihou_cond(first_turn: bool, oya: bool, tsumo: bool, calls: bool) -> bool {
    first_turn && !oya && tsumo && !calls
}

/// Tenhou and chiihou, the yakuman of the first draw.
pub open spec fn first_draw_names(first_turn: bool, oya: bool, tsumo: bool, calls: bool) -> Seq<Seq<char>> {
    opt(tenhou_cond(first_turn, oya, tsumo, calls), "Tenhou"@) + opt(
        chiihou_cond(first_turn, oya, tsumo, calls),
        "Chiihou"@,
    )
}

/// `n` when `b` holds, else nothing.
pub open spec fn worth(b: bool, n: int) -> int {
    if b {
        n
    } else {
        0
    }
}

/// The yaku of the circumstances of a win, in the order they are listed:
/// menzen tsumo, double riichi or else riichi, ippatsu, rinshan kaihou,
/// chankan, haitei, houtei.
#[verifier::opaque]
pub open spec fn situational_names(
    closed: bool,
    riichi: bool,
    double_riichi: bool,
    ippatsu: bool,
    tsumo: bool,
    rinshan: bool,
    chankan: bool,
    last_tile: bool,
) -> Seq<Seq<char>> {
    opt(closed && tsumo, "Menzen Tsumo"@) + opt(double_riichi, "Double Riichi"@) + opt(
        !double_riichi && riichi,
        "Riichi"@,
    ) + opt(riichi && ippatsu, "Ippatsu"@) + opt(rinshan && tsumo, "Rinshan Kaihou"@) + opt(
        chankan && !tsumo,
        "Chankan"@,
    ) + opt(last_tile && tsumo, "Haitei"@) + opt(last_tile && !tsumo, "Houtei"@)
}

/// Double riichi is worth two han, every other yaku of the circumstances one.
#[verifier::opaque]
pub open spec fn situational_han(
    closed: bool,
    riichi: bool,
    double_riichi: bool,
    ippatsu: bool,
    tsumo: bool,
    rinshan: bool,
    chankan: bool,
    last_tile: bool,
) -> int {
    worth(closed && tsumo, 1) + worth(double_riichi, 2) + worth(!double_riichi && riichi, 1)
        + worth(riichi && ippatsu, 1) + worth(rinshan && tsumo, 1) + worth(chankan && !tsumo, 1)
        + worth(last_tile && tsumo, 1) + worth(last_tile && !tsumo, 1)
}

fn push_name(names: &mut Vec<String>, name: &str)
    ensures
        name_views(final(names)@) == name_views(old(names)@) + seq![name@],
{
    names.push(name.to_string());
    assert(name_views(names@) =~= name_views(old(names)@) + seq![name@]);
}

/// Appends `name` and adds `value` han when `cond` holds.
fn award(names: &mut Vec<String>, han: &mut u8, cond: bool, name: &str, value: u8)
    requires
        *old(han) + value <= 255,
    ensures
        name_views(final(names)@) == name_views(old(names)@) + opt(cond, name@),
        *final(han) == *old(han) + worth(cond, value as int),
{
    if cond {
        push_name(names, name);
        *han = *han + value;
    } else {
        assert(name_views(names@) =~= name_views(old(names)@) + opt(cond, name@));
    }
}

fn name_views_append(a: &mut Vec<String>, b: &mut Vec<String>)
    ensures
        name_views(final(a)@) == name_views(old(a)@) + name_views(old(b)@),
{
    let ghost x = old(a)@;
    let ghost y = old(b)@;
    a.append(b);
    assert(name_views(a@) =~= name_views(x) + name_views(y));
}

/// Adds tenhou and chiihou: the first draw of the round with no call made,
/// for the dealer and for anyone else. Either makes the hand a yakuman.
pub fn add_situational_yakuman(eval: &mut HandResult, kawa: &Kawa, is_oya: bool, is_tsumo: bool, calls_made: bool)
    ensures
        final(eval)@ == (HandView {
            names: old(eval)@.names + first_draw_names(
                kawa.0@.len() == 0,
                is_oya,
                is_tsumo,
                calls_made,
            ),
            yakuman: old(eval)@.yakuman || tenhou_cond(kawa.0@.len() == 0, is_oya, is_tsumo, calls_made)
                || chiihou_cond(kawa.0@.len() == 0, is_oya, is_tsumo, calls_made),
            ..old(eval)@
        }),
{
    let ghost first = kawa.0@.len() == 0;
    if tenhou(kawa, is_oya, is_tsumo, calls_made) {
        push_name(&mut eval.yaku_names, "Tenhou");
        eval.is_yakuman = true;
    }
    if chiihou(kawa, is_oya, is_tsumo, calls_made) {
        push_name(&mut eval.yaku_names, "Chiihou");
        eval.is_yakuman = true;
    }
    assert(eval@.names =~= old(eval)@.names + first_draw_names(first, is_oya, is_tsumo, calls_made));
}

fn situational_yaku(
    is_hand_closed: bool,
    is_riichi: bool,
    is_double_riichi: bool,
    is_ippatsu: bool,
    is_tsumo: bool,
    is_rinshan: bool,
    is_chankan: bool,
    wall: &Wall,
) -> (out: (Vec<String>, u8))
    ensures
        name_views(out.0@) == situational_names(
            is_hand_closed,
            is_riichi,
            is_double_riichi,
            is_ippatsu,
            is_tsumo,
            is_rinshan,
            is_chankan,
            wall_exhausted(wall),
        ),
        out.1 == situational_han(
            is_hand_closed,
            is_riichi,
            is_double_riichi,
            is_ippatsu,
            is_tsumo,
            is_rinshan,
            is_chankan,
            wall_exhausted(wall),
        ),
        out.1 <= 9,
{
    proof {
        reveal(situational_names);
        reveal(situational_han);
    }
    let mut names: Vec<String> = Vec::new();
    let mut han: u8 = 0;
    award(&mut names, &mut han, is_hand_closed && is_tsumo, "Menzen Tsumo", 1);
    assert(name_views(names@) =~= opt(is_hand_closed && is_tsumo, "Menzen Tsumo"@));
    award(&mut names, &mut han, is_double_riichi, "Double Riichi", 2);
    award(&mut names, &mut han, !is_double_riichi && is_riichi, "Riichi", 1);
    award(&mut names, &mut han, is_riichi && is_ippatsu, "Ippatsu", 1);
    award(&mut names, &mut han, is_rinshan && is_tsumo, "Rinshan Kaihou", 1);
    award(&mut names, &mut han, is_chankan && !is_tsumo, "Chankan", 1);
    let h = haitei(wall, is_tsumo);
    award(&mut names, &mut han, h, "Haitei", 1);
    let ho = houtei(wall, is_tsumo);
    award(&mut names, &mut han, ho, "Houtei", 1);
    (names, han)
}

/// Adds the yaku of the circumstances: menzen tsumo, (double) riichi,
/// ippatsu, rinshan kaihou, chankan, haitei, houtei.
pub fn add_situational(
    eval: &mut HandResult,
    is_hand_closed: bool,
    is_riichi: bool,
    is_double_riichi: bool,
    is_ippatsu: bool,
    is_tsumo: bool,
    is_rinshan: bool,
    is_chankan: bool,
    wall: &Wall,
)
    requires
        old(eval).total_han + situational_han(
            is_hand_closed,
            is_riichi,
            is_double_riichi,
            is_ippatsu,
            is_tsumo,
            is_rinshan,
            is_chankan,
            wall_exhausted(wall),
        ) <= 255,
    ensures
        final(eval)@ == (HandView {
            names: old(eval)@.names + situational_names(
                is_hand_closed,
                is_riichi,
                is_double_riichi,
                is_ippatsu,
                is_tsumo,
                is_rinshan,
                is_chankan,
                wall_exhausted(wall),
            ),
            han: old(eval)@.han + situational_han(
                is_hand_closed,
                is_riichi,
                is_double_riichi,
                is_ippatsu,
                is_tsumo,
                is_rinshan,
                is_chankan,
                wall_exhausted(wall),
            ),
            ..old(eval)@
        }),
{
    let (mut extra, h) = situational_yaku(
        is_hand_closed,
        is_riichi,
        is_double_riichi,
        is_ippatsu,
        is_tsumo,
        is_rinshan,
        is_chankan,
        wall,
    );
    name_views_append(&mut eval.yaku_names, &mut extra);
    eval.total_han = eval.total_han + h;
}

/// A new result beats an old one when it is a yakuman and the old one is
/// not; between two yakuman the one with more names wins; otherwise more han
/// wins, and at equal han more fu.
pub open spec fn better(new: HandView, old: HandView) -> bool {
    if new.yakuman && !old.yakuman {
        true
    } else if !new.yakuman && old.yakuman {
        false
    } else if new.yakuman && old.yakuman {
        new.names.len() > old.names.len()
    } else if new.han != old.han {
        new.han > old.han
    } else {
        new.fu > old.fu
    }
}

/// `better` is a strict order: no result beats itself, and of two results
/// at most one beats the other.
pub proof fn lemma_better_strict(a: HandView, b: HandView)
    ensures
        !better(a, a),
        better(a, b) ==> !better(b, a),
{
}

/// Not being beaten carries over: what does not beat `b` does not beat
/// anything that beats `b`.
pub proof fn lemma_better_transitive(a: HandView, b: HandView, c: HandView)
    ensures
        better(c, b) && !better(a, b) ==> !better(a, c),
{
}

/// The best of the first `n` standard splits is one of them (or the empty
/// result, when none is looked at) and no split looked at beats it.
pub proof fn lemma_best_standard_is_best(
    rs: Seq<Seq<Mentsu>>,
    n: int,
    thirteen: Seq<Tile>,
    c: Seq<Tile>,
    open: Seq<Mentsu>,
    w: Tile,
    s: Situation,
)
    requires
        0 <= n <= rs.len(),
    ensures
        forall|i: int|
            0 <= i < n ==> !better(
                #[trigger] standard_view(rs[i], thirteen, c, open, w, s),
                best_standard(rs, n, thirteen, c, open, w, s),
            ),
        best_standard(rs, n, thirteen, c, open, w, s) == empty_view() || exists|i: int|
            0 <= i < n && best_standard(rs, n, thirteen, c, open, w, s) == #[trigger] standard_view(
                rs[i],
                thirteen,
                c,
                open,
                w,
                s,
            ),
    decreases n,
{
    if n > 0 {
        lemma_best_standard_is_best(rs, n - 1, thirteen, c, open, w, s);
        let prev = best_standard(rs, n - 1, thirteen, c, open, w, s);
        let e = standard_view(rs[n - 1], thirteen, c, open, w, s);
        let b = best_standard(rs, n, thirteen, c, open, w, s);
        assert forall|i: int| 0 <= i < n implies !better(#[trigger] standard_view(rs[i], thirteen, c, open, w, s), b) by {
            if i < n - 1 {
                lemma_better_transitive(standard_view(rs[i], thirteen, c, open, w, s), prev, e);
            }
        }
        if b != empty_view() {
            if better(e, prev) {
                assert(b == standard_view(rs[n - 1], thirteen, c, open, w, s));
            } else {
                let i = choose|i: int|
                    0 <= i < n - 1 && prev == #[trigger] standard_view(rs[i], thirteen, c, open, w, s);
                assert(b == standard_view(rs[i], thirteen, c, open, w, s));
            }
        }
    }
}

pub fn is_better(new: &HandResult, old: &HandResult) -> (b: bool)
    ensures
        b == better(new@, old@),
{
    if new.is_yakuman && !old.is_yakuman {
        return true;
    }
    if !new.is_yakuman && old.is_yakuman {
        return false;
    }
    if new.is_yakuman && old.is_yakuman {
        return new.yaku_names.len() > old.yaku_names.len();
    }
    if new.total_han != old.total_han {
        return new.total_han > old.total_han;
    }
    new.total_fu > old.total_fu
}

/// The yakuman of a standard hand, in the order they are listed.
#[verifier::opaque]
pub open spec fn standard_yakuman_names(
    r: Seq<Mentsu>,
    c: Seq<Tile>,
    open: Seq<Mentsu>,
    w: Tile,
    s: Situation,
) -> Seq<Seq<char>> {
    opt(s.closed && nine_gates(c), "Chuuren Poutou"@) + opt(
        four_concealed(r, w, s.tsumo),
        "Suuankou"@,
    ) + opt(big_four_winds(r), "Daisuushii"@) + opt(little_four_winds(r), "Shousuushii"@) + opt(
        big_three_dragons(r),
        "Daisangen"@,
    ) + opt(all_honors(c), "Tsuuiisou"@) + opt(all_terminals(c), "Chinroutou"@) + opt(
        all_green(c),
        "Ryuuiisou"@,
    ) + opt(kan_count_is(open, 4), "Suukantsu"@) + first_draw_names(
        s.first_turn,
        s.oya,
        s.tsumo,
        s.calls_made,
    )
}

pub open spec fn digit(d: int) -> Seq<char> {
    if d == 0 {
        "0"@
    } else if d == 1 {
        "1"@
    } else if d == 2 {
        "2"@
    } else if d == 3 {
        "3"@
    } else if d == 4 {
        "4"@
    } else if d == 5 {
        "5"@
    } else if d == 6 {
        "6"@
    } else if d == 7 {
        "7"@
    } else if d == 8 {
        "8"@
    } else {
        "9"@
    }
}

/// The decimal digits of a number below 1000, without leading zeros.
#[verifier::opaque]
pub open spec fn decimal(n: int) -> Seq<char> {
    if n < 10 {
        digit(n)
    } else if n < 100 {
        digit(n / 10) + digit(n % 10)
    } else {
        digit(n / 100) + digit((n / 10) % 10) + digit(n % 10)
    }
}

/// "Yakuhai (n sets)", where n is the han that yakuhai sets bring.
pub open spec fn yakuhai_label(n: int) -> Seq<char> {
    "Yakuhai ("@ + decimal(n) + " sets)"@
}

fn digit_str(d: u8) -> (s: &'static str)
    requires
        d < 10,
    ensures
        s@ == digit(d as int),
{
    match d {
        0 => "0",
        1 => "1",
        2 => "2",
        3 => "3",
        4 => "4",
        5 => "5",
        6 => "6",
        7 => "7",
        8 => "8",
        _ => "9",
    }
}

fn make_yakuhai_label(n: u8) -> (s: String)
    ensures
        s@ == yakuhai_label(n as int),
{
    proof {
        reveal(decimal);
    }
    let mut s = String::from_str("Yakuhai (");
    if n >= 100 {
        s.append(digit_str(n / 100));
    }
    if n >= 10 {
        s.append(digit_str((n / 10) % 10));
    }
    s.append(digit_str(n % 10));
    s.append(" sets)");
    s
}

/// The yaku of a standard hand that depend on its suits, terminals, kans
/// and repeated runs, in the order they are listed.
#[verifier::opaque]
pub open spec fn shape_names(r: Seq<Mentsu>, c: Seq<Tile>, open: Seq<Mentsu>, closed: bool) -> Seq<Seq<char>> {
    opt(one_suit(c), "Chinitsu"@) + opt(!one_suit(c) && one_suit_and_honors(c), "Honitsu"@) + opt(
        all_yaochuu(c),
        "Honroutou"@,
    ) + opt(!all_yaochuu(c) && all_outside(r, true), "Junchan"@) + opt(
        !all_yaochuu(c) && !all_outside(r, true) && all_outside(r, false),
        "Chanta"@,
    ) + opt(kan_count_is(open, 3), "Sankantsu"@) + opt(
        !kan_count_is(open, 3) && kan_count_is(open, 2),
        "Ryankantsu"@,
    ) + opt(closed && double_twin_runs(r), "Ryanpeikou"@) + opt(
        closed && !double_twin_runs(r) && twin_runs(r),
        "Iipeikou"@,
    )
}

/// Flushes, pure and mixed outside hands are worth one han more closed.
#[verifier::opaque]
pub open spec fn shape_han(r: Seq<Mentsu>, c: Seq<Tile>, open: Seq<Mentsu>, closed: bool) -> int {
    worth(one_suit(c), if closed { 6 } else { 5 }) + worth(
        !one_suit(c) && one_suit_and_honors(c),
        if closed { 3 } else { 2 },
    ) + worth(all_yaochuu(c), 2) + worth(
        !all_yaochuu(c) && all_outside(r, true),
        if closed { 3 } else { 2 },
    ) + worth(
        !all_yaochuu(c) && !all_outside(r, true) && all_outside(r, false),
        if closed { 2 } else { 1 },
    ) + worth(kan_count_is(open, 3), 2) + worth(!kan_count_is(open, 3) && kan_count_is(open, 2), 1)
        + worth(closed && double_twin_runs(r), 3) + worth(
        closed && !double_twin_runs(r) && twin_runs(r),
        1,
    )
}

/// All simples, the straight and the three-colour run and triplets.
#[verifier::opaque]
pub open spec fn run_pattern_names(r: Seq<Mentsu>, c: Seq<Tile>) -> Seq<Seq<char>> {
    opt(all_simples(c), "Tanyao"@) + opt(straight(r), "Ittsuu"@) + opt(
        three_color_straight(r),
        "Sanshoku Doujun"@,
    ) + opt(three_color_triplets(r), "Sanshoku Doukou"@)
}

/// The straight and the three-colour run are worth one han more closed.
#[verifier::opaque]
pub open spec fn run_pattern_han(r: Seq<Mentsu>, c: Seq<Tile>, closed: bool) -> int {
    worth(all_simples(c), 1) + worth(straight(r), if closed { 2 } else { 1 }) + worth(
        three_color_straight(r),
        if closed { 2 } else { 1 },
    ) + worth(three_color_triplets(r), 2)
}

/// All triplets, three concealed triplets, little three dragons, pinfu.
#[verifier::opaque]
pub open spec fn set_pattern_names(r: Seq<Mentsu>, thirteen: Seq<Tile>, w: Tile, s: Situation) -> Seq<Seq<char>> {
    opt(all_triplets(r), "Toitoi"@) + opt(three_concealed(r, w, s.tsumo, thirteen), "Sanankou"@)
        + opt(little_three_dragons(r), "Shousangen"@) + opt(
        s.closed && pinfu_shape(r, w, s.jikaze, s.bakaze),
        "Pinfu"@,
    )
}

#[verifier::opaque]
pub open spec fn set_pattern_han(r: Seq<Mentsu>, thirteen: Seq<Tile>, w: Tile, s: Situation) -> int {
    worth(all_triplets(r), 2) + worth(three_concealed(r, w, s.tsumo, thirteen), 2) + worth(
        little_three_dragons(r),
        2,
    ) + worth(s.closed && pinfu_shape(r, w, s.jikaze, s.bakaze), 1)
}

/// The yakuhai sets come under one name that gives their han.
pub open spec fn yakuhai_names(r: Seq<Mentsu>, jikaze: Wind, bakaze: Wind) -> Seq<Seq<char>> {
    opt(yakuhai_total(r, jikaze, bakaze) > 0, yakuhai_label(yakuhai_total(r, jikaze, bakaze) as int))
}

/// The other ordinary yaku of a standard hand, in the order they are listed.
#[verifier::opaque]
pub open spec fn pattern_names(r: Seq<Mentsu>, thirteen: Seq<Tile>, c: Seq<Tile>, w: Tile, s: Situation) -> Seq<Seq<char>> {
    run_pattern_names(r, c) + set_pattern_names(r, thirteen, w, s) + yakuhai_names(r, s.jikaze, s.bakaze)
}

#[verifier::opaque]
pub open spec fn pattern_han(r: Seq<Mentsu>, thirteen: Seq<Tile>, c: Seq<Tile>, w: Tile, s: Situation) -> int {
    run_pattern_han(r, c, s.closed) + set_pattern_han(r, thirteen, w, s) + yakuhai_total(
        r,
        s.jikaze,
        s.bakaze,
    )
}

/// The ordinary yaku of a standard hand, in the order they are listed.
#[verifier::opaque]
pub open spec fn regular_names(
    r: Seq<Mentsu>,
    thirteen: Seq<Tile>,
    c: Seq<Tile>,
    open: Seq<Mentsu>,
    w: Tile,
    s: Situation,
) -> Seq<Seq<char>> {
    shape_names(r, c, open, s.closed) + pattern_names(r, thirteen, c, w, s) + situational_names(
        s.closed,
        s.riichi,
        s.double_riichi,
        s.ippatsu,
        s.tsumo,
        s.rinshan,
        s.chankan,
        s.last_tile,
    )
}

/// The han of the ordinary yaku.
#[verifier::opaque]
pub open spec fn regular_han(
    r: Seq<Mentsu>,
    thirteen: Seq<Tile>,
    c: Seq<Tile>,
    open: Seq<Mentsu>,
    w: Tile,
    s: Situation,
) -> int {
    shape_han(r, c, open, s.closed) + pattern_han(r, thirteen, c, w, s) + situational_han(
        s.closed,
        s.riichi,
        s.double_riichi,
        s.ippatsu,
        s.tsumo,
        s.rinshan,
        s.chankan,
        s.last_tile,
    )
}

/// Fu of 20 for a pinfu tsumo and 30 for a pinfu ron; otherwise the raw
/// fu rounded up to ten.
pub open spec fn standard_fu(names: Seq<Seq<char>>, r: Seq<Mentsu>, w: Tile, s: Situation) -> int {
    if names.contains("Pinfu"@) {
        if s.tsumo {
            20
        } else {
            30
        }
    } else {
        round_up(raw_fu(r, w, s.jikaze, s.bakaze, s.tsumo, s.closed), 10)
    }
}

fn fu_of(
    names: &Vec<String>,
    result: &[Mentsu],
    winning_tile: &Tile,
    jikaze: &Wind,
    bakaze: &Wind,
    is_tsumo: bool,
    is_hand_closed: bool,
    Ghost(s): Ghost<Situation>,
) -> (fu: u8)
    requires
        result@.len() <= 6,
        s.jikaze == *jikaze,
        s.bakaze == *bakaze,
        s.tsumo == is_tsumo,
        s.closed == is_hand_closed,
    ensures
        fu == standard_fu(name_views(names@), result@, *winning_tile, s),
{
    if names_contain(names, "Pinfu") {
        if is_tsumo {
            20
        } else {
            30
        }
    } else {
        let raw_fu = calculate_fu(result, winning_tile, jikaze, bakaze, is_tsumo, is_hand_closed);
        (raw_fu + 9) / 10 * 10
    }
}

/// A standard hand as scored: its yakuman if it has any (no han or fu
/// then), otherwise its ordinary yaku with their han, and fu of 20 for a
/// pinfu tsumo, 30 for a pinfu ron, else the raw fu rounded up to ten.
#[verifier::opaque]
pub open spec fn standard_view(
    r: Seq<Mentsu>,
    thirteen: Seq<Tile>,
    c: Seq<Tile>,
    open: Seq<Mentsu>,
    w: Tile,
    s: Situation,
) -> HandView {
    let y = standard_yakuman_names(r, c, open, w, s);
    if y.len() > 0 {
        HandView { names: y, dora: 0, ura: 0, han: 0, fu: 0, yakuman: true }
    } else {
        let names = regular_names(r, thirteen, c, open, w, s);
        HandView {
            names,
            dora: 0,
            ura: 0,
            han: regular_han(r, thirteen, c, open, w, s),
            fu: standard_fu(names, r, w, s),
            yakuman: false,
        }
    }
}

/// The situation that the arguments of the evaluation functions describe.
pub open spec fn situation(
    closed: bool,
    oya: bool,
    riichi: bool,
    double_riichi: bool,
    ippatsu: bool,
    bakaze: Wind,
    jikaze: Wind,
    kawa: &Kawa,
    tsumo: bool,
    rinshan: bool,
    chankan: bool,
    wall: &Wall,
    calls_made: bool,
) -> Situation {
    Situation {
        closed,
        oya,
        riichi,
        double_riichi,
        ippatsu,
        bakaze,
        jikaze,
        first_turn: kawa.0@.len() == 0,
        tsumo,
        rinshan,
        chankan,
        last_tile: wall_exhausted(wall),
        calls_made,
    }
}

#[verifier::rlimit(40)]
#[verifier::spinoff_prover]
fn standard_yakuman(
    result: &[Mentsu],
    combined_hand: &[Tile],
    open_mentsu: &[Mentsu],
    is_hand_closed: bool,
    is_oya: bool,
    kawa: &Kawa,
    winning_tile: &Tile,
    is_tsumo: bool,
    calls_made: bool,
    Ghost(s): Ghost<Situation>,
) -> (names: Vec<String>)
    requires
        s.closed == is_hand_closed,
        s.oya == is_oya,
        s.first_turn == (kawa.0@.len() == 0),
        s.tsumo == is_tsumo,
        s.calls_made == calls_made,
    ensures
        name_views(names@) == standard_yakuman_names(
            result@,
            combined_hand@,
            open_mentsu@,
            *winning_tile,
            s,
        ),
{
    proof {
        reveal(standard_yakuman_names);
    }
    let mut names: Vec<String> = Vec::new();
    if is_hand_closed && chuuren_poutou(combined_hand) {
        push_name(&mut names, "Chuuren Poutou");
    }
    if suuankou(result, winning_tile, is_tsumo) {
        push_name(&mut names, "Suuankou");
    }
    if daisuushii(result) {
        push_name(&mut names, "Daisuushii");
    }
    if shousuushii(result) {
        push_name(&mut names, "Shousuushii");
    }
    if daisangen(result) {
        push_name(&mut names, "Daisangen");
    }
    if tsuuisou(combined_hand) {
        push_name(&mut names, "Tsuuiisou");
    }
    if chinroutou(combined_hand) {
        push_name(&mut names, "Chinroutou");
    }
    if ryuuiisou(combined_hand) {
        push_name(&mut names, "Ryuuiisou");
    }
    if suukantsu(open_mentsu) {
        push_name(&mut names, "Suukantsu");
    }
    if tenhou(kawa, is_oya, is_tsumo, calls_made) {
        push_name(&mut names, "Tenhou");
    }
    if chiihou(kawa, is_oya, is_tsumo, calls_made) {
        push_name(&mut names, "Chiihou");
    }
    assert(name_views(names@) =~= standard_yakuman_names(
        result@,
        combined_hand@,
        open_mentsu@,
        *winning_tile,
        s,
    ));
    names
}

fn shape_yaku(result: &[Mentsu], combined_hand: &[Tile], open_mentsu: &[Mentsu], is_hand_closed: bool) -> (out: (
    Vec<String>,
    u8,
))
    ensures
        name_views(out.0@) == shape_names(result@, combined_hand@, open_mentsu@, is_hand_closed),
        out.1 == shape_han(result@, combined_hand@, open_mentsu@, is_hand_closed),
        out.1 <= 23,
{
    proof {
        reveal(shape_names);
        reveal(shape_han);
    }
    let mut names: Vec<String> = Vec::new();
    let mut han: u8 = 0;
    let cs = chinitsu(combined_hand);
    award(&mut names, &mut han, cs, "Chinitsu", if is_hand_closed { 6 } else { 5 });
    assert(name_views(names@) =~= opt(cs, "Chinitsu"@));
    let hs = !cs && honitsu(combined_hand);
    award(&mut names, &mut han, hs, "Honitsu", if is_hand_closed { 3 } else { 2 });
    let hr = honroutou(combined_hand);
    award(&mut names, &mut han, hr, "Honroutou", 2);
    let jc = !hr && junchan(result);
    award(&mut names, &mut han, jc, "Junchan", if is_hand_closed { 3 } else { 2 });
    let ct = !hr && !junchan(result) && chanta(result);
    award(&mut names, &mut han, ct, "Chanta", if is_hand_closed { 2 } else { 1 });
    let sk = sankantsu(open_mentsu);
    award(&mut names, &mut han, sk, "Sankantsu", 2);
    let rk = !sk && ryankantsu(open_mentsu);
    award(&mut names, &mut han, rk, "Ryankantsu", 1);
    let rp = is_hand_closed && ryanpeikou(result);
    award(&mut names, &mut han, rp, "Ryanpeikou", 3);
    let ip = is_hand_closed && !ryanpeikou(result) && iipeikou(result);
    award(&mut names, &mut han, ip, "Iipeikou", 1);
    (names, han)
}

fn run_pattern_yaku(result: &[Mentsu], combined_hand: &[Tile], is_hand_closed: bool) -> (out: (
    Vec<String>,
    u8,
))
    ensures
        name_views(out.0@) == run_pattern_names(result@, combined_hand@),
        out.1 == run_pattern_han(result@, combined_hand@, is_hand_closed),
        out.1 <= 7,
{
    proof {
        reveal(run_pattern_names);
        reveal(run_pattern_han);
    }
    let mut names: Vec<String> = Vec::new();
    let mut han: u8 = 0;
    let tn = tanyao(combined_hand);
    award(&mut names, &mut han, tn, "Tanyao", 1);
    assert(name_views(names@) =~= opt(tn, "Tanyao"@));
    let it = ittsuu(result);
    award(&mut names, &mut han, it, "Ittsuu", if is_hand_closed { 2 } else { 1 });
    let sd = sanshoku_doujun(result);
    award(&mut names, &mut han, sd, "Sanshoku Doujun", if is_hand_closed { 2 } else { 1 });
    let sk = sanshoku_doukou(result);
    award(&mut names, &mut han, sk, "Sanshoku Doukou", 2);
    (names, han)
}

fn set_pattern_yaku(
    result: &[Mentsu],
    thirteen_tiles: &[Tile],
    is_hand_closed: bool,
    bakaze: &Wind,
    jikaze: &Wind,
    winning_tile: &Tile,
    is_tsumo: bool,
    Ghost(s): Ghost<Situation>,
) -> (out: (Vec<String>, u8))
    requires
        s.closed == is_hand_closed,
        s.bakaze == *bakaze,
        s.jikaze == *jikaze,
        s.tsumo == is_tsumo,
    ensures
        name_views(out.0@) == set_pattern_names(result@, thirteen_tiles@, *winning_tile, s),
        out.1 == set_pattern_han(result@, thirteen_tiles@, *winning_tile, s),
        out.1 <= 7,
{
    proof {
        reveal(set_pattern_names);
        reveal(set_pattern_han);
    }
    let mut names: Vec<String> = Vec::new();
    let mut han: u8 = 0;
    let tt = toitoi(result);
    award(&mut names, &mut han, tt, "Toitoi", 2);
    assert(name_views(names@) =~= opt(tt, "Toitoi"@));
    let sa = sanankou(result, winning_tile, is_tsumo, thirteen_tiles);
    award(&mut names, &mut han, sa, "Sanankou", 2);
    let sg = shousangen(result);
    award(&mut names, &mut han, sg, "Shousangen", 2);
    let pf = is_hand_closed && pinfu(result, winning_tile, jikaze, bakaze);
    award(&mut names, &mut han, pf, "Pinfu", 1);
    (names, han)
}

fn yakuhai_yaku(result: &[Mentsu], jikaze: &Wind, bakaze: &Wind) -> (out: (Vec<String>, u8))
    requires
        result@.len() <= 6,
    ensures
        name_views(out.0@) == yakuhai_names(result@, *jikaze, *bakaze),
        out.1 == yakuhai_total(result@, *jikaze, *bakaze),
        out.1 <= 18,
{
    let mut names: Vec<String> = Vec::new();
    let n = yakuhai(result, jikaze, bakaze);
    proof {
        crate::yaku::lemma_yakuhai_total_le(result@, *jikaze, *bakaze);
    }
    if n > 0 {
        names.push(make_yakuhai_label(n));
    }
    assert(name_views(names@) =~= yakuhai_names(result@, *jikaze, *bakaze));
    (names, n)
}

fn pattern_yaku(
    result: &[Mentsu],
    thirteen_tiles: &[Tile],
    combined_hand: &[Tile],
    is_hand_closed: bool,
    bakaze: &Wind,
    jikaze: &Wind,
    winning_tile: &Tile,
    is_tsumo: bool,
    Ghost(s): Ghost<Situation>,
) -> (out: (Vec<String>, u8))
    requires
        result@.len() <= 6,
        s.closed == is_hand_closed,
        s.bakaze == *bakaze,
        s.jikaze == *jikaze,
        s.tsumo == is_tsumo,
    ensures
        name_views(out.0@) == pattern_names(result@, thirteen_tiles@, combined_hand@, *winning_tile, s),
        out.1 == pattern_han(result@, thirteen_tiles@, combined_hand@, *winning_tile, s),
        out.1 <= 32,
{
    proof {
        reveal(pattern_names);
        reveal(pattern_han);
    }
    let (mut names, h1) = run_pattern_yaku(result, combined_hand, is_hand_closed);
    let (mut more, h2) = set_pattern_yaku(
        result,
        thirteen_tiles,
        is_hand_closed,
        bakaze,
        jikaze,
        winning_tile,
        is_tsumo,
        Ghost(s),
    );
    let (mut last, h3) = yakuhai_yaku(result, jikaze, bakaze);
    name_views_append(&mut names, &mut more);
    name_views_append(&mut names, &mut last);
    (names, h1 + h2 + h3)
}

fn regular_yaku(
    result: &[Mentsu],
    thirteen_tiles: &[Tile],
    combined_hand: &[Tile],
    open_mentsu: &[Mentsu],
    is_hand_closed: bool,
    is_riichi: bool,
    is_double_riichi: bool,
    is_ippatsu: bool,
    bakaze: &Wind,
    jikaze: &Wind,
    winning_tile: &Tile,
    is_tsumo: bool,
    is_rinshan: bool,
    is_chankan: bool,
    wall: &Wall,
    Ghost(s): Ghost<Situation>,
) -> (out: (Vec<String>, u8))
    requires
        result@.len() <= 6,
        s.closed == is_hand_closed,
        s.riichi == is_riichi,
        s.double_riichi == is_double_riichi,
        s.ippatsu == is_ippatsu,
        s.bakaze == *bakaze,
        s.jikaze == *jikaze,
        s.tsumo == is_tsumo,
        s.rinshan == is_rinshan,
        s.chankan == is_chankan,
        s.last_tile == wall_exhausted(wall),
    ensures
        name_views(out.0@) == regular_names(
            result@,
            thirteen_tiles@,
            combined_hand@,
            open_mentsu@,
            *winning_tile,
            s,
        ),
        out.1 == regular_han(
            result@,
            thirteen_tiles@,
            combined_hand@,
            open_mentsu@,
            *winning_tile,
            s,
        ),
        out.1 <= 64,
{
    proof {
        reveal(regular_names);
        reveal(regular_han);
    }
    let (mut names, h1) = shape_yaku(result, combined_hand, open_mentsu, is_hand_closed);
    let (mut more, h2) = pattern_yaku(
        result,
        thirteen_tiles,
        combined_hand,
        is_hand_closed,
        bakaze,
        jikaze,
        winning_tile,
        is_tsumo,
        Ghost(s),
    );
    let (mut extra, h3) = situational_yaku(
        is_hand_closed,
        is_riichi,
        is_double_riichi,
        is_ippatsu,
        is_tsumo,
        is_rinshan,
        is_chankan,
        wall,
    );
    name_views_append(&mut names, &mut more);
    name_views_append(&mut names, &mut extra);
    (names, h1 + h2 + h3)
}

/// Whether one of the names equals `target`.
pub fn names_contain(names: &Vec<String>, target: &str) -> (b: bool)
    ensures
        b == name_views(names@).contains(target@),
{
    let t = target.to_string();
    let mut k: usize = 0;
    while k < names.len()
        invariant
            k <= names@.len(),
            t@ == target@,
            forall|i: int| 0 <= i < k ==> #[trigger] names@[i]@ != target@,
        decreases names@.len() - k,
    {
        if names[k] == t {
            assert(name_views(names@)[k as int] == target@);
            return true;
        }
        k = k + 1;
    }
    assert forall|i: int| 0 <= i < name_views(names@).len() implies name_views(names@)[i] != target@ by {
        assert(names@[i]@ != target@);
    }
    false
}

/// Scores one split of a standard hand (see `standard_view`).
pub fn evaluate_standard(
    result: &[Mentsu],
    thirteen_tiles: &[Tile],
    combined_hand: &[Tile],
    open_mentsu: &[Mentsu],
    is_hand_closed: bool,
    is_oya: bool,
    is_riichi: bool,
    is_double_riichi: bool,
    is_ippatsu: bool,
    bakaze: &Wind,
    jikaze: &Wind,
    kawa: &Kawa,
    winning_tile: &Tile,
    is_tsumo: bool,
    is_rinshan: bool,
    is_chankan: bool,
    wall: &Wall,
    calls_made: bool,
) -> (eval: HandResult)
    requires
        result@.len() <= 6,
    ensures
        eval@ == standard_view(
            result@,
            thirteen_tiles@,
            combined_hand@,
            open_mentsu@,
            *winning_tile,
            situation(
                is_hand_closed,
                is_oya,
                is_riichi,
                is_double_riichi,
                is_ippatsu,
                *bakaze,
                *jikaze,
                kawa,
                is_tsumo,
                is_rinshan,
                is_chankan,
                wall,
                calls_made,
            ),
        ),
        eval.total_han <= 64,
{
    proof {
        reveal(standard_view);
    }
    let ghost s = situation(
        is_hand_closed,
        is_oya,
        is_riichi,
        is_double_riichi,
        is_ippatsu,
        *bakaze,
        *jikaze,
        kawa,
        is_tsumo,
        is_rinshan,
        is_chankan,
        wall,
        calls_made,
    );
    let y = standard_yakuman(
        result,
        combined_hand,
        open_mentsu,
        is_hand_closed,
        is_oya,
        kawa,
        winning_tile,
        is_tsumo,
        calls_made,
        Ghost(s),
    );
    if y.len() > 0 {
        return HandResult {
            yaku_names: y,
            dora_count: 0,
            ura_dora_count: 0,
            total_han: 0,
            total_fu: 0,
            is_yakuman: true,
        };
    }
    let (names, han) = regular_yaku(
        result,
        thirteen_tiles,
        combined_hand,
        open_mentsu,
        is_hand_closed,
        is_riichi,
        is_double_riichi,
        is_ippatsu,
        bakaze,
        jikaze,
        winning_tile,
        is_tsumo,
        is_rinshan,
        is_chankan,
        wall,
        Ghost(s),
    );
    let total_fu = fu_of(&names, result, winning_tile, jikaze, bakaze, is_tsumo, is_hand_closed, Ghost(s));
    HandResult {
        yaku_names: names,
        dora_count: 0,
        ura_dora_count: 0,
        total_han: han,
        total_fu,
        is_yakuman: false,
    }
}

/// The yaku of seven pairs that is no yakuman: Chiitoitsu with tanyao,
/// chinitsu or honitsu, honroutou and the yaku of the circumstances of a
/// closed hand that cannot be a rinshan win.
#[verifier::opaque]
pub open spec fn chiitoitsu_names(
    h: Seq<Tile>,
    riichi: bool,
    double_riichi: bool,
    ippatsu: bool,
    tsumo: bool,
    chankan: bool,
    last_tile: bool,
) -> Seq<Seq<char>> {
    seq!["Chiitoitsu"@] + opt(all_simples(h), "Tanyao"@) + opt(one_suit(h), "Chinitsu"@) + opt(
        !one_suit(h) && one_suit_and_honors(h),
        "Honitsu"@,
    ) + opt(all_yaochuu(h), "Honroutou"@) + situational_names(
        true,
        riichi,
        double_riichi,
        ippatsu,
        tsumo,
        false,
        chankan,
        last_tile,
    )
}

/// Chiitoitsu is worth 2 han, tanyao 1, chinitsu 6, honitsu 3, honroutou 2.
#[verifier::opaque]
pub open spec fn chiitoitsu_han(
    h: Seq<Tile>,
    riichi: bool,
    double_riichi: bool,
    ippatsu: bool,
    tsumo: bool,
    chankan: bool,
    last_tile: bool,
) -> int {
    2 + worth(all_simples(h), 1) + worth(one_suit(h), 6) + worth(
        !one_suit(h) && one_suit_and_honors(h),
        3,
    ) + worth(all_yaochuu(h), 2) + situational_han(
        true,
        riichi,
        double_riichi,
        ippatsu,
        tsumo,
        false,
        chankan,
        last_tile,
    )
}

/// Seven pairs as scored, always at 25 fu. With tsuuiisou, tenhou or
/// chiihou it is a yakuman at 2 han whose names are tenhou and chiihou only:
/// the first name (Chiitoitsu, or Tsuuiisou in its place) is dropped.
/// Otherwise its yaku are those of `chiitoitsu_names`.
#[verifier::opaque]
pub open spec fn chiitoitsu_view(
    h: Seq<Tile>,
    riichi: bool,
    double_riichi: bool,
    ippatsu: bool,
    tsumo: bool,
    chankan: bool,
    oya: bool,
    first_turn: bool,
    last_tile: bool,
    calls_made: bool,
) -> HandView {
    let fd = first_draw_names(first_turn, oya, tsumo, calls_made);
    if all_honors(h) || fd.len() > 0 {
        HandView { names: fd, dora: 0, ura: 0, han: 2, fu: 25, yakuman: true }
    } else {
        HandView {
            names: chiitoitsu_names(h, riichi, double_riichi, ippatsu, tsumo, chankan, last_tile),
            dora: 0,
            ura: 0,
            han: chiitoitsu_han(h, riichi, double_riichi, ippatsu, tsumo, chankan, last_tile),
            fu: 25,
            yakuman: false,
        }
    }
}

fn chiitoitsu_yaku(
    raw_hand: &[Tile],
    is_riichi: bool,
    is_double_riichi: bool,
    is_ippatsu: bool,
    is_tsumo: bool,
    is_chankan: bool,
    wall: &Wall,
) -> (out: (Vec<String>, u8))
    ensures
        name_views(out.0@) == chiitoitsu_names(
            raw_hand@,
            is_riichi,
            is_double_riichi,
            is_ippatsu,
            is_tsumo,
            is_chankan,
            wall_exhausted(wall),
        ),
        out.1 == chiitoitsu_han(
            raw_hand@,
            is_riichi,
            is_double_riichi,
            is_ippatsu,
            is_tsumo,
            is_chankan,
            wall_exhausted(wall),
        ),
        out.1 <= 23,
{
    proof {
        reveal(chiitoitsu_names);
        reveal(chiitoitsu_han);
    }
    let mut names: Vec<String> = Vec::new();
    push_name(&mut names, "Chiitoitsu");
    let mut han: u8 = 2;
    assert(name_views(names@) =~= seq!["Chiitoitsu"@]);
    let tn = tanyao(raw_hand);
    award(&mut names, &mut han, tn, "Tanyao", 1);
    let cs = chinitsu(raw_hand);
    award(&mut names, &mut han, cs, "Chinitsu", 6);
    let hs = !cs && honitsu(raw_hand);
    award(&mut names, &mut han, hs, "Honitsu", 3);
    let hr = honroutou(raw_hand);
    award(&mut names, &mut han, hr, "Honroutou", 2);
    let (mut extra, h) = situational_yaku(true, is_riichi, is_double_riichi, is_ippatsu, is_tsumo, false, is_chankan, wall);
    name_views_append(&mut names, &mut extra);
    (names, han + h)
}

/// Scores a seven-pairs hand (see `chiitoitsu_view`).
pub fn evaluate_chiitoitsu(
    raw_hand: &[Tile],
    is_riichi: bool,
    is_double_riichi: bool,
    is_ippatsu: bool,
    is_tsumo: bool,
    is_chankan: bool,
    is_oya: bool,
    kawa: &Kawa,
    wall: &Wall,
    calls_made: bool,
) -> (eval: HandResult)
    ensures
        eval@ == chiitoitsu_view(
            raw_hand@,
            is_riichi,
            is_double_riichi,
            is_ippatsu,
            is_tsumo,
            is_chankan,
            is_oya,
            kawa.0@.len() == 0,
            wall_exhausted(wall),
            calls_made,
        ),
        eval.total_han <= 23,
{
    proof {
        reveal(chiitoitsu_view);
    }
    let all_honor = tsuuisou(raw_hand);
    let mut names: Vec<String> = Vec::new();
    if all_honor {
        push_name(&mut names, "Tsuuiisou");
    } else {
        push_name(&mut names, "Chiitoitsu");
    }
    let mut eval = HandResult {
        yaku_names: names,
        dora_count: 0,
        ura_dora_count: 0,
        total_han: 2,
        total_fu: 25,
        is_yakuman: all_honor,
    };
    let ghost first = eval@.names;
    assert(first.len() == 1);
    add_situational_yakuman(&mut eval, kawa, is_oya, is_tsumo, calls_made);
    if eval.is_yakuman {
        let ghost before = eval.yaku_names@;
        assert(name_views(before).len() == before.len());
        eval.yaku_names.remove(0);
        assert(name_views(eval.yaku_names@) =~= name_views(before).drop_first());
        assert(eval@.names =~= first_draw_names(kawa.0@.len() == 0, is_oya, is_tsumo, calls_made));
        return eval;
    }
    let (names, han) = chiitoitsu_yaku(raw_hand, is_riichi, is_double_riichi, is_ippatsu, is_tsumo, is_chankan, wall);
    HandResult {
        yaku_names: names,
        dora_count: 0,
        ura_dora_count: 0,
        total_han: han,
        total_fu: 25,
        is_yakuman: false,
    }
}

/// A result with no yaku.
pub open spec fn empty_view() -> HandView {
    HandView { names: Seq::empty(), dora: 0, ura: 0, han: 0, fu: 0, yakuman: false }
}

/// The best of the first `n` splits, each scored as a standard hand; a
/// later split replaces the best so far only when it is better.
pub open spec fn best_standard(
    rs: Seq<Seq<Mentsu>>,
    n: int,
    thirteen: Seq<Tile>,
    c: Seq<Tile>,
    open: Seq<Mentsu>,
    w: Tile,
    s: Situation,
) -> HandView
    decreases n,
{
    if n <= 0 {
        empty_view()
    } else {
        let prev = best_standard(rs, n - 1, thirteen, c, open, w, s);
        let e = standard_view(rs[n - 1], thirteen, c, open, w, s);
        if better(e, prev) {
            e
        } else {
            prev
        }
    }
}

/// A result with yaku that is no yakuman gains a han for each dora, and for
/// each ura-dora when the hand is in riichi.
pub open spec fn with_dora(v: HandView, c: Seq<Tile>, dead_wall: &DeadWall, riichi: bool) -> HandView {
    if v.names.len() > 0 && !v.yakuman {
        let d = dora_total(c, dead_wall.dora_indicators@);
        let u = if riichi {
            dora_total(c, dead_wall.ura_indicators@)
        } else {
            0
        };
        HandView { dora: d as int, ura: u as int, han: v.han + d + u, ..v }
    } else {
        v
    }
}

/// A winning hand as scored. A closed thirteen orphans is the yakuman
/// Kokushi Musou, with tenhou or chiihou beside it. Otherwise the best of
/// the standard splits, replaced by seven pairs (closed hands only) when
/// that is better, with dora added.
#[verifier::opaque]
pub open spec fn yaku_view(
    rs: Seq<Seq<Mentsu>>,
    thirteen: Seq<Tile>,
    raw: Seq<Tile>,
    c: Seq<Tile>,
    open: Seq<Mentsu>,
    w: Tile,
    s: Situation,
    dead_wall: &DeadWall,
) -> HandView {
    if s.closed && kokushi(raw) {
        HandView {
            names: seq!["Kokushi Musou"@] + first_draw_names(s.first_turn, s.oya, s.tsumo, s.calls_made),
            dora: 0,
            ura: 0,
            han: 0,
            fu: 0,
            yakuman: true,
        }
    } else {
        let b = best_standard(rs, rs.len() as int, thirteen, c, open, w, s);
        let b2 = if s.closed && seven_pairs(raw) {
            let e = chiitoitsu_view(
                raw,
                s.riichi,
                s.double_riichi,
                s.ippatsu,
                s.tsumo,
                s.chankan,
                s.oya,
                s.first_turn,
                s.last_tile,
                s.calls_made,
            );
            if better(e, b) {
                e
            } else {
                b
            }
        } else {
            b
        };
        with_dora(b2, c, dead_wall, s.riichi)
    }
}

/// Scores a winning hand (see `yaku_view`): `results` are the splits of
/// `raw_hand` (the closed tiles with the winning one) with the open melds
/// added, `thirteen_tiles` the closed tiles before the win, and
/// `combined_hand` every tile of the hand.
#[verifier::rlimit(100)]
pub fn evaluate_yaku(
    results: &[Vec<Mentsu>],
    thirteen_tiles: &[Tile],
    raw_hand: &[Tile],
    combined_hand: &[Tile],
    open_mentsu: &[Mentsu],
    is_hand_closed: bool,
    is_oya: bool,
    is_riichi: bool,
    is_double_riichi: bool,
    is_ippatsu: bool,
    bakaze: &Wind,
    jikaze: &Wind,
    kawa: &Kawa,
    winning_tile: &Tile,
    is_tsumo: bool,
    is_rinshan: bool,
    is_chankan: bool,
    wall: &Wall,
    dead_wall: &DeadWall,
    calls_made: bool,
) -> (best: HandResult)
    requires
        forall|i: int| 0 <= i < results@.len() ==> #[trigger] results@[i]@.len() <= 6,
        dora_total(combined_hand@, dead_wall.dora_indicators@) + (if is_riichi {
            dora_total(combined_hand@, dead_wall.ura_indicators@)
        } else {
            0
        }) <= 191,
    ensures
        best@ == yaku_view(
            views(results@),
            thirteen_tiles@,
            raw_hand@,
            combined_hand@,
            open_mentsu@,
            *winning_tile,
            situation(
                is_hand_closed,
                is_oya,
                is_riichi,
                is_double_riichi,
                is_ippatsu,
                *bakaze,
                *jikaze,
                kawa,
                is_tsumo,
                is_rinshan,
                is_chankan,
                wall,
                calls_made,
            ),
            dead_wall,
        ),
{
    proof {
        reveal(yaku_view);
    }
    let ghost s = situation(
        is_hand_closed,
        is_oya,
        is_riichi,
        is_double_riichi,
        is_ippatsu,
        *bakaze,
        *jikaze,
        kawa,
        is_tsumo,
        is_rinshan,
        is_chankan,
        wall,
        calls_made,
    );
    let ghost rs = views(results@);
    if is_hand_closed && kokushi_musou(raw_hand) {
        let mut names: Vec<String> = Vec::new();
        push_name(&mut names, "Kokushi Musou");
        let mut eval = HandResult {
            yaku_names: names,
            dora_count: 0,
            ura_dora_count: 0,
            total_han: 0,
            total_fu: 0,
            is_yakuman: true,
        };
        add_situational_yakuman(&mut eval, kawa, is_oya, is_tsumo, calls_made);
        return eval;
    }
    let mut best = HandResult {
        yaku_names: Vec::new(),
        dora_count: 0,
        ura_dora_count: 0,
        total_han: 0,
        total_fu: 0,
        is_yakuman: false,
    };
    assert(best@.names =~= Seq::<Seq<char>>::empty());
    let mut k: usize = 0;
    while k < results.len()
        invariant
            k <= results@.len(),
            rs == views(results@),
            forall|i: int| 0 <= i < results@.len() ==> #[trigger] results@[i]@.len() <= 6,
            best@ == best_standard(rs, k as int, thirteen_tiles@, combined_hand@, open_mentsu@, *winning_tile, s),
            best.total_han <= 64,
            s == situation(
                is_hand_closed,
                is_oya,
                is_riichi,
                is_double_riichi,
                is_ippatsu,
                *bakaze,
                *jikaze,
                kawa,
                is_tsumo,
                is_rinshan,
                is_chankan,
                wall,
                calls_made,
            ),
        decreases results@.len() - k,
    {
        assert(results@[k as int]@.len() <= 6);
        let eval = evaluate_standard(
            results[k].as_slice(),
            thirteen_tiles,
            combined_hand,
            open_mentsu,
            is_hand_closed,
            is_oya,
            is_riichi,
            is_double_riichi,
            is_ippatsu,
            bakaze,
            jikaze,
            kawa,
            winning_tile,
            is_tsumo,
            is_rinshan,
            is_chankan,
            wall,
            calls_made,
        );
        assert(rs[k as int] == results@[k as int]@);
        if is_better(&eval, &best) {
            best = eval;
        }
        k = k + 1;
    }
    if is_hand_closed && chiitoitsu(raw_hand) {
        let eval = evaluate_chiitoitsu(
            raw_hand,
            is_riichi,
            is_double_riichi,
            is_ippatsu,
            is_tsumo,
            is_chankan,
            is_oya,
            kawa,
            wall,
            calls_made,
        );
        if is_better(&eval, &best) {
            best = eval;
        }
    }
    if best.yaku_names.len() > 0 && !best.is_yakuman {
        let d = count_dora(combined_hand, dead_wall, is_riichi);
        best.dora_count = d.dora;
        best.ura_dora_count = d.ura_dora;
        best.total_han = best.total_han + d.additional_han;
    }
    best
}

} // verus!
