//! Declaring a win: ron on a discard, tsumo on a draw, and the best result a
//! losing hand could still have reached.

use vstd::prelude::*;
use crate::tile::{Tile, Mentsu, Wind, all_valid, valid_tile, index_of, tile_of, tile_to_index, index_to_tile, all_tiles_at};
use crate::counting::{meld_tiles, sort_seq, sort_tiles, push_all, combine_tiles, contains_tile};
use crate::decompose::{decompose, decompositions, views, lemma_split_len};
use crate::counting::{freq_seq, tiles_to_frequency_array};
use crate::shanten::{shanten_of, ukeire_upto, calculate_shanten_from_array, ukeire_tiles};
use crate::scoring::{HandResult, HandView};
use crate::evaluation::{Situation, situation, yaku_view, evaluate_yaku, better, is_better};
use crate::calls::{furiten, is_furiten, waits, waits_upto, check_tenpai};
use crate::table::{Hand, OpenMentsu, Jikaze, Kawa, Tenpai, Wall, DeadWall};

verus! {

/// Each split with the open melds after its own sets.
pub open spec fn with_open(rs: Seq<Seq<Mentsu>>, open: Seq<Mentsu>) -> Seq<Seq<Mentsu>> {
    rs.map_values(|r: Seq<Mentsu>| r + open)
}

/// The result of winning on `win` with the closed tiles `hand` and the open
/// melds `open`: the closed tiles with the winning one are sorted and split,
/// the open melds join every split, and all of it is scored by `yaku_view`
/// against the sorted tiles of the whole hand.
#[verifier::opaque]
pub open spec fn win_view(hand: Seq<Tile>, win: Tile, open: Seq<Mentsu>, s: Situation, dead_wall: &DeadWall) -> HandView {
    let raw = sort_seq(hand.push(win));
    yaku_view(
        with_open(decompositions(raw), open),
        hand,
        raw,
        sort_seq(hand.push(win) + meld_tiles(open)),
        open,
        win,
        s,
        dead_wall,
    )
}

/// The sizes of a real hand: thirteen closed tiles less three for each open
/// meld, and at most ten dora and ura-dora indicators in all.
pub open spec fn hand_fits(hand: Seq<Tile>, open: Seq<Mentsu>, dead_wall: &DeadWall) -> bool {
    hand.len() + 3 * open.len() <= 13 && dead_wall.dora_indicators@.len() + dead_wall.ura_indicators@.len()
        <= 10
}

proof fn lemma_meld_tiles_len(ms: Seq<Mentsu>)
    ensures
        meld_tiles(ms).len() <= 4 * ms.len(),
    decreases ms.len(),
{
    if ms.len() > 0 {
        lemma_meld_tiles_len(ms.drop_last());
    }
}

fn append_melds(dst: &mut Vec<Mentsu>, src: &[Mentsu])
    ensures
        final(dst)@ == old(dst)@ + src@,
{
    let mut k: usize = 0;
    while k < src.len()
        invariant
            k <= src@.len(),
            dst@ == old(dst)@ + src@.take(k as int),
        decreases src@.len() - k,
    {
        dst.push(src[k]);
        assert(src@.take(k + 1) == src@.take(k as int).push(src@[k as int]));
        k = k + 1;
    }
    assert(src@.take(k as int) == src@);
}

fn with_open_melds(results: &Vec<Vec<Mentsu>>, open_mentsu: &[Mentsu]) -> (out: Vec<Vec<Mentsu>>)
    ensures
        views(out@) == with_open(views(results@), open_mentsu@),
{
    let mut out: Vec<Vec<Mentsu>> = Vec::new();
    let mut k: usize = 0;
    while k < results.len()
        invariant
            k <= results@.len(),
            out@.len() == k,
            forall|i: int| 0 <= i < k ==> (#[trigger] out@[i])@ == results@[i]@ + open_mentsu@,
        decreases results@.len() - k,
    {
        let mut r: Vec<Mentsu> = Vec::new();
        append_melds(&mut r, results[k].as_slice());
        append_melds(&mut r, open_mentsu);
        out.push(r);
        k = k + 1;
    }
    assert(views(out@) =~= with_open(views(results@), open_mentsu@));
    out
}

fn copy_hand(hand: &[Tile]) -> (v: Vec<Tile>)
    ensures
        v@ == hand@,
{
    let mut v: Vec<Tile> = Vec::new();
    push_all(&mut v, hand);
    assert(v@ =~= hand@);
    v
}

/// Scores a win on `win_tile` (see `win_view`).
fn score_win(
    win_tile: &Tile,
    hand: &[Tile],
    open_mentsu: &[Mentsu],
    is_hand_closed: bool,
    is_oya: bool,
    kawa: &Kawa,
    is_riichi: bool,
    is_double_riichi: bool,
    is_ippatsu: bool,
    bakaze: &Wind,
    jikaze: &Wind,
    wall: &Wall,
    dead_wall: &DeadWall,
    is_tsumo: bool,
    is_rinshan: bool,
    is_chankan: bool,
    calls_made: bool,
) -> (eval: HandResult)
    requires
        hand_fits(hand@, open_mentsu@, dead_wall),
    ensures
        eval@ == win_view(
            hand@,
            *win_tile,
            open_mentsu@,
            situation(
                is_hand_closed,
                is_oya,
                is_riichi,
                is_double_riichi,
                is_ippatsu,
                *bakaze,
                *jikaze,
                kawa,
                is_tsumo,
                is_rinshan,
                is_chankan,
                wall,
                calls_made,
            ),
            dead_wall,
        ),
{
    proof {
        reveal(win_view);
    }
    let mut raw_hand_plus_win = copy_hand(hand);
    raw_hand_plus_win.push(*win_tile);
    let mut combined_hand = combine_tiles(raw_hand_plus_win.as_slice(), open_mentsu);
    sort_tiles(&mut combined_hand);
    sort_tiles(&mut raw_hand_plus_win);
    let ghost raw = raw_hand_plus_win@;
    proof {
        crate::counting::lemma_sort_seq(hand@.push(*win_tile));
        crate::counting::lemma_sort_seq(hand@.push(*win_tile) + meld_tiles(open_mentsu@));
        lemma_meld_tiles_len(open_mentsu@);
        lemma_split_len(raw);
    }
    proof {
        crate::scoring::lemma_sizes_fit_dora(combined_hand@, dead_wall, is_riichi);
    }
    let splits = decompose(raw_hand_plus_win.as_slice());
    let results = with_open_melds(&splits, open_mentsu);
    assert(views(results@).len() == results@.len());
    assert(views(splits@).len() == splits@.len());
    assert(with_open(views(splits@), open_mentsu@).len() == views(splits@).len());
    assert forall|i: int| 0 <= i < results@.len() implies #[trigger] results@[i]@.len() <= 6 by {
        assert(views(results@)[i] == results@[i]@);
        assert(with_open(views(splits@), open_mentsu@)[i] == views(splits@)[i] + open_mentsu@);
        let x = decompositions(raw)[i];
        assert(3 * (x.len() - 1) == raw.len() - 2);
    }
    evaluate_yaku(
        results.as_slice(),
        hand,
        raw_hand_plus_win.as_slice(),
        combined_hand.as_slice(),
        open_mentsu,
        is_hand_closed,
        is_oya,
        is_riichi,
        is_double_riichi,
        is_ippatsu,
        bakaze,
        jikaze,
        kawa,
        win_tile,
        is_tsumo,
        is_rinshan,
        is_chankan,
        wall,
        dead_wall,
        calls_made,
    )
}

/// Ron is open on a discard the hand waits on, unless the hand is furiten
/// (permanently or for the turn).
pub open spec fn ron_open(discard: Tile, waits: Seq<Tile>, kawa: Seq<Tile>, temp_furiten: bool) -> bool {
    waits.contains(discard) && !furiten(kawa, waits) && !temp_furiten
}

/// A furiten hand can never ron, whatever is discarded.
pub proof fn lemma_furiten_blocks_ron(discard: Tile, waits: Seq<Tile>, kawa: Seq<Tile>, temp_furiten: bool)
    requires
        furiten(kawa, waits),
    ensures
        !ron_open(discard, waits, kawa, temp_furiten),
{
}

/// Ron on an opponent's discard: the result when ron is open and the hand
/// has a yaku with the discard, otherwise nothing.
pub fn can_declare_ron(
    discard_tile: &Tile,
    hand: &[Tile],
    open_mentsu: &[Mentsu],
    tenpai: &Tenpai,
    is_hand_closed: bool,
    is_oya: bool,
    kawa: &Kawa,
    is_riichi: bool,
    is_double_riichi: bool,
    is_ippatsu: bool,
    bakaze: &Wind,
    jikaze: &Wind,
    wall: &Wall,
    dead_wall: &DeadWall,
    is_chankan: bool,
    calls_made: bool,
    has_temp_furiten: bool,
) -> (r: Option<HandResult>)
    requires
        hand_fits(hand@, open_mentsu@, dead_wall),
    ensures
        r is Some <==> ron_open(*discard_tile, tenpai.0@, kawa.0@, has_temp_furiten) && win_view(
            hand@,
            *discard_tile,
            open_mentsu@,
            situation(
                is_hand_closed,
                is_oya,
                is_riichi,
                is_double_riichi,
                is_ippatsu,
                *bakaze,
                *jikaze,
                kawa,
                false,
                false,
                is_chankan,
                wall,
                calls_made,
            ),
            dead_wall,
        ).names.len() > 0,
        r matches Some(x) ==> x@ == win_view(
            hand@,
            *discard_tile,
            open_mentsu@,
            situation(
                is_hand_closed,
                is_oya,
                is_riichi,
                is_double_riichi,
                is_ippatsu,
                *bakaze,
                *jikaze,
                kawa,
                false,
                false,
                is_chankan,
                wall,
                calls_made,
            ),
            dead_wall,
        ),
{
    if !contains_tile(tenpai.0.as_slice(), discard_tile) || is_furiten(kawa, tenpai) || has_temp_furiten {
        return None;
    }
    let yaku_result = score_win(
        discard_tile,
        hand,
        open_mentsu,
        is_hand_closed,
        is_oya,
        kawa,
        is_riichi,
        is_double_riichi,
        is_ippatsu,
        bakaze,
        jikaze,
        wall,
        dead_wall,
        false,
        false,
        is_chankan,
        calls_made,
    );
    if yaku_result.yaku_names.len() == 0 {
        None
    } else {
        Some(yaku_result)
    }
}

/// Tsumo on a drawn tile that the hand waits on: the result when the hand
/// has a yaku with it, otherwise nothing. Furiten does not stop a tsumo.
pub fn can_declare_tsumo(
    drawn_tile: &Tile,
    hand: &[Tile],
    open_mentsu: &[Mentsu],
    tenpai: &Tenpai,
    is_hand_closed: bool,
    is_oya: bool,
    kawa: &Kawa,
    is_riichi: bool,
    is_double_riichi: bool,
    is_ippatsu: bool,
    bakaze: &Wind,
    jikaze: &Wind,
    wall: &Wall,
    dead_wall: &DeadWall,
    is_rinshan: bool,
    calls_made: bool,
) -> (r: Option<HandResult>)
    requires
        hand_fits(hand@, open_mentsu@, dead_wall),
    ensures
        r is Some <==> tenpai.0@.contains(*drawn_tile) && win_view(
            hand@,
            *drawn_tile,
            open_mentsu@,
            situation(
                is_hand_closed,
                is_oya,
                is_riichi,
                is_double_riichi,
                is_ippatsu,
                *bakaze,
                *jikaze,
                kawa,
                true,
                is_rinshan,
                false,
                wall,
                calls_made,
            ),
            dead_wall,
        ).names.len() > 0,
        r matches Some(x) ==> x@ == win_view(
            hand@,
            *drawn_tile,
            open_mentsu@,
            situation(
                is_hand_closed,
                is_oya,
                is_riichi,
                is_double_riichi,
                is_ippatsu,
                *bakaze,
                *jikaze,
                kawa,
                true,
                is_rinshan,
                false,
                wall,
                calls_made,
            ),
            dead_wall,
        ),
{
    if !contains_tile(tenpai.0.as_slice(), drawn_tile) {
        return None;
    }
    let yaku_result = score_win(
        drawn_tile,
        hand,
        open_mentsu,
        is_hand_closed,
        is_oya,
        kawa,
        is_riichi,
        is_double_riichi,
        is_ippatsu,
        bakaze,
        jikaze,
        wall,
        dead_wall,
        true,
        is_rinshan,
        false,
        calls_made,
    );
    if yaku_result.yaku_names.len() == 0 {
        None
    } else {
        Some(yaku_result)
    }
}

/// The flags of a player that scoring reads.
#[derive(Clone, Copy)]
pub struct SeatFlags {
    pub closed: bool,
    pub oya: bool,
    pub riichi: bool,
    pub double_riichi: bool,
    pub ippatsu: bool,
    pub calls_made: bool,
}

/// A tsumo by the player of these flags, on a draw that is no rinshan.
pub open spec fn plain_tsumo(f: SeatFlags, bakaze: Wind, jikaze: Wind, kawa: &Kawa, wall: &Wall) -> Situation {
    situation(
        f.closed,
        f.oya,
        f.riichi,
        f.double_riichi,
        f.ippatsu,
        bakaze,
        jikaze,
        kawa,
        true,
        false,
        false,
        wall,
        f.calls_made,
    )
}

pub open spec fn opt_view(r: Option<HandResult>) -> Option<HandView> {
    match r {
        Some(x) => Some(x@),
        None => None,
    }
}

/// Keeps the best so far unless a new result is better (or there was none).
pub open spec fn keep_better(best: Option<HandView>, r: Option<HandView>) -> Option<HandView> {
    match r {
        None => best,
        Some(v) => match best {
            None => Some(v),
            Some(b) => if better(v, b) {
                Some(v)
            } else {
                best
            },
        },
    }
}

/// What `can_declare_tsumo` gives on `t` for a hand that waits on `w`.
#[verifier::opaque]
pub open spec fn tsumo_result(t: Tile, hand: Seq<Tile>, open: Seq<Mentsu>, w: Seq<Tile>, s: Situation, dead_wall: &DeadWall) -> Option<HandView> {
    if w.contains(t) && win_view(hand, t, open, s, dead_wall).names.len() > 0 {
        Some(win_view(hand, t, open, s, dead_wall))
    } else {
        None
    }
}

/// Every copy of the kind at `i` is accounted for: `vis` counts what the
/// table shows, `own` what the player holds.
pub open spec fn used_up(vis: Seq<u8>, own: Seq<u8>, i: int) -> bool {
    vis[i] + own[i] >= 4
}

/// The best tsumo over the first `n` candidate tiles of `cands` that are not
/// used up, for the hand `hand` waiting on `w`.
pub open spec fn best_over_waits(
    best: Option<HandView>,
    cands: Seq<Tile>,
    n: int,
    hand: Seq<Tile>,
    open: Seq<Mentsu>,
    w: Seq<Tile>,
    s: Situation,
    dead_wall: &DeadWall,
    vis: Seq<u8>,
    own: Seq<u8>,
) -> Option<HandView>
    decreases n,
{
    if n <= 0 {
        best
    } else {
        let b = best_over_waits(best, cands, n - 1, hand, open, w, s, dead_wall, vis, own);
        let t = cands[n - 1];
        if used_up(vis, own, index_of(t)) {
            b
        } else {
            keep_better(b, tsumo_result(t, hand, open, w, s, dead_wall))
        }
    }
}

/// Over the first `n` discards from `expanded` (each kind once, at its first
/// position): the best tsumo of the hand left, if it is tenpai.
pub open spec fn best_over_discards(
    best: Option<HandView>,
    expanded: Seq<Tile>,
    n: int,
    open: Seq<Mentsu>,
    s: Situation,
    dead_wall: &DeadWall,
    vis: Seq<u8>,
    own: Seq<u8>,
) -> Option<HandView>
    decreases n,
{
    if n <= 0 {
        best
    } else {
        let b = best_over_discards(best, expanded, n - 1, open, s, dead_wall, vis, own);
        let d = n - 1;
        if expanded.take(d).contains(expanded[d]) {
            b
        } else {
            let after = expanded.remove(d);
            let w = waits(after);
            if w.len() == 0 {
                b
            } else {
                best_over_waits(b, w, w.len() as int, after, open, w, s, dead_wall, vis, own)
            }
        }
    }
}

/// Over the first `n` advancing kinds that are not used up: draw one, then
/// try every discard.
pub open spec fn best_over_draws(
    best: Option<HandView>,
    adv: Seq<usize>,
    n: int,
    hand: Seq<Tile>,
    open: Seq<Mentsu>,
    s: Situation,
    dead_wall: &DeadWall,
    vis: Seq<u8>,
    own: Seq<u8>,
) -> Option<HandView>
    decreases n,
{
    if n <= 0 {
        best
    } else {
        let b = best_over_draws(best, adv, n - 1, hand, open, s, dead_wall, vis, own);
        let i = adv[n - 1] as int;
        if used_up(vis, own, i) {
            b
        } else {
            let expanded = sort_seq(hand.push(tile_of(i)));
            best_over_discards(b, expanded, expanded.len() as int, open, s, dead_wall, vis, own)
        }
    }
}

/// The best result the hand could have reached by tsumo, judged by
/// `better`. A tenpai hand tries each wait that is not used up; a hand one
/// step from tenpai tries each advancing draw, each discard after it and each
/// wait of what is left. Any other hand has none.
pub open spec fn potential_view(
    hand: Seq<Tile>,
    open: Seq<Mentsu>,
    tenpai: Option<Seq<Tile>>,
    s: Situation,
    dead_wall: &DeadWall,
    vis: Seq<u8>,
) -> Option<HandView> {
    let own = freq_seq(hand + meld_tiles(open));
    match tenpai {
        Some(w) => best_over_waits(None, w, w.len() as int, hand, open, w, s, dead_wall, vis, own),
        None => if shanten_of(own) != 1 {
            None
        } else {
            let adv = ukeire_upto(own, 1, 34);
            best_over_draws(None, adv, adv.len() as int, hand, open, s, dead_wall, vis, own)
        },
    }
}

proof fn lemma_waits_valid(h: Seq<Tile>, n: int)
    requires
        n <= 34,
    ensures
        all_valid(waits_upto(h, n)),
    decreases n,
{
    if n > 0 {
        lemma_waits_valid(h, n - 1);
        let k = n - 1;
        assert(valid_tile(all_tiles_at(k)));
        let w = waits_upto(h, n);
        assert forall|i: int| 0 <= i < w.len() implies valid_tile(#[trigger] w[i]) by {
            if i < waits_upto(h, n - 1).len() {
                assert(w[i] == waits_upto(h, n - 1)[i]);
            }
        }
    }
}

proof fn lemma_ukeire_below(f: Seq<u8>, c: int, n: int)
    requires
        n <= 34,
    ensures
        forall|j: int| 0 <= j < ukeire_upto(f, c, n).len() ==> (#[trigger] ukeire_upto(f, c, n)[j]) < 34,
    decreases n,
{
    if n > 0 {
        lemma_ukeire_below(f, c, n - 1);
        let rest = ukeire_upto(f, c, n - 1);
        let all = ukeire_upto(f, c, n);
        assert forall|j: int| 0 <= j < all.len() implies (#[trigger] all[j]) < 34 by {
            if j < rest.len() {
                assert(all[j] == rest[j]);
            }
        }
    }
}

fn keep_if_better(best: Option<HandResult>, r: Option<HandResult>) -> (out: Option<HandResult>)
    ensures
        opt_view(out) == keep_better(opt_view(best), opt_view(r)),
{
    match r {
        None => best,
        Some(v) => match best {
            None => Some(v),
            Some(b) => if is_better(&v, &b) {
                Some(v)
            } else {
                Some(b)
            },
        },
    }
}

fn tsumo_at(
    tile: &Tile,
    hand: &[Tile],
    open_mentsu: &[Mentsu],
    tenpai: &Tenpai,
    flags: SeatFlags,
    kawa: &Kawa,
    bakaze: &Wind,
    jikaze: &Wind,
    wall: &Wall,
    dead_wall: &DeadWall,
) -> (r: Option<HandResult>)
    requires
        hand_fits(hand@, open_mentsu@, dead_wall),
    ensures
        opt_view(r) == tsumo_result(
            *tile,
            hand@,
            open_mentsu@,
            tenpai.0@,
            plain_tsumo(flags, *bakaze, *jikaze, kawa, wall),
            dead_wall,
        ),
{
    proof {
        reveal(tsumo_result);
    }
    can_declare_tsumo(
        tile,
        hand,
        open_mentsu,
        tenpai,
        flags.closed,
        flags.oya,
        kawa,
        flags.riichi,
        flags.double_riichi,
        flags.ippatsu,
        bakaze,
        jikaze,
        wall,
        dead_wall,
        false,
        flags.calls_made,
    )
}

fn fold_waits(
    best: Option<HandResult>,
    cands: &Vec<Tile>,
    hand: &[Tile],
    open_mentsu: &[Mentsu],
    tenpai: &Tenpai,
    flags: SeatFlags,
    kawa: &Kawa,
    bakaze: &Wind,
    jikaze: &Wind,
    wall: &Wall,
    dead_wall: &DeadWall,
    visible_tiles: &[u8; 34],
    own: &[u8; 34],
) -> (out: Option<HandResult>)
    requires
        hand_fits(hand@, open_mentsu@, dead_wall),
        all_valid(cands@),
    ensures
        opt_view(out) == best_over_waits(
            opt_view(best),
            cands@,
            cands@.len() as int,
            hand@,
            open_mentsu@,
            tenpai.0@,
            plain_tsumo(flags, *bakaze, *jikaze, kawa, wall),
            dead_wall,
            visible_tiles@,
            own@,
        ),
{
    let mut best = best;
    let ghost start = opt_view(best);
    let mut k: usize = 0;
    while k < cands.len()
        invariant
            k <= cands@.len(),
            hand_fits(hand@, open_mentsu@, dead_wall),
            all_valid(cands@),
            opt_view(best) == best_over_waits(
                start,
                cands@,
                k as int,
                hand@,
                open_mentsu@,
                tenpai.0@,
                plain_tsumo(flags, *bakaze, *jikaze, kawa, wall),
                dead_wall,
                visible_tiles@,
                own@,
            ),
        decreases cands@.len() - k,
    {
        let tile = cands[k];
        let i = tile_to_index(&tile);
        if (visible_tiles[i] as u16) + (own[i] as u16) < 4 {
            let r = tsumo_at(&tile, hand, open_mentsu, tenpai, flags, kawa, bakaze, jikaze, wall, dead_wall);
            best = keep_if_better(best, r);
        }
        k = k + 1;
    }
    best
}

/// Whether the tile at position `d` already occurs before it.
fn appears_before(s: &Vec<Tile>, d: usize) -> (b: bool)
    requires
        d < s@.len(),
    ensures
        b == s@.take(d as int).contains(s@[d as int]),
{
    let mut k: usize = 0;
    while k < d
        invariant
            k <= d < s@.len(),
            forall|i: int| 0 <= i < k ==> s@[i] != s@[d as int],
        decreases d - k,
    {
        if s[k] == s[d] {
            assert(s@.take(d as int)[k as int] == s@[d as int]);
            return true;
        }
        k = k + 1;
    }
    assert forall|i: int| 0 <= i < s@.take(d as int).len() implies s@.take(d as int)[i] != s@[d as int] by {
        assert(s@.take(d as int)[i] == s@[i]);
    }
    false
}

fn fold_discards(
    best: Option<HandResult>,
    expanded: &Vec<Tile>,
    open_mentsu: &[Mentsu],
    flags: SeatFlags,
    kawa: &Kawa,
    bakaze: &Wind,
    jikaze: &Wind,
    wall: &Wall,
    dead_wall: &DeadWall,
    visible_tiles: &[u8; 34],
    own: &[u8; 34],
) -> (out: Option<HandResult>)
    requires
        1 <= expanded@.len(),
        hand_fits(expanded@.drop_last(), open_mentsu@, dead_wall),
    ensures
        opt_view(out) == best_over_discards(
            opt_view(best),
            expanded@,
            expanded@.len() as int,
            open_mentsu@,
            plain_tsumo(flags, *bakaze, *jikaze, kawa, wall),
            dead_wall,
            visible_tiles@,
            own@,
        ),
{
    let mut best = best;
    let ghost start = opt_view(best);
    let mut d: usize = 0;
    while d < expanded.len()
        invariant
            d <= expanded@.len(),
            1 <= expanded@.len(),
            hand_fits(expanded@.drop_last(), open_mentsu@, dead_wall),
            opt_view(best) == best_over_discards(
                start,
                expanded@,
                d as int,
                open_mentsu@,
                plain_tsumo(flags, *bakaze, *jikaze, kawa, wall),
                dead_wall,
                visible_tiles@,
                own@,
            ),
        decreases expanded@.len() - d,
    {
        if !appears_before(expanded, d) {
            let mut after = expanded.clone();
            assert(after@ == expanded@);
            after.remove(d);
            let w = check_tenpai(after.as_slice());
            proof {
                lemma_waits_valid(after@, 34);
            }
            if w.len() > 0 {
                let temp_tenpai = Tenpai(w);
                best = fold_waits(
                    best,
                    &temp_tenpai.0,
                    after.as_slice(),
                    open_mentsu,
                    &temp_tenpai,
                    flags,
                    kawa,
                    bakaze,
                    jikaze,
                    wall,
                    dead_wall,
                    visible_tiles,
                    own,
                );
            }
        }
        d = d + 1;
    }
    best
}

fn fold_draws(
    best: Option<HandResult>,
    adv: &Vec<usize>,
    hand: &[Tile],
    open_mentsu: &[Mentsu],
    flags: SeatFlags,
    kawa: &Kawa,
    bakaze: &Wind,
    jikaze: &Wind,
    wall: &Wall,
    dead_wall: &DeadWall,
    visible_tiles: &[u8; 34],
    own: &[u8; 34],
) -> (out: Option<HandResult>)
    requires
        hand_fits(hand@, open_mentsu@, dead_wall),
        forall|j: int| 0 <= j < adv@.len() ==> (#[trigger] adv@[j]) < 34,
    ensures
        opt_view(out) == best_over_draws(
            opt_view(best),
            adv@,
            adv@.len() as int,
            hand@,
            open_mentsu@,
            plain_tsumo(flags, *bakaze, *jikaze, kawa, wall),
            dead_wall,
            visible_tiles@,
            own@,
        ),
{
    let mut best = best;
    let ghost start = opt_view(best);
    let mut k: usize = 0;
    while k < adv.len()
        invariant
            k <= adv@.len(),
            hand_fits(hand@, open_mentsu@, dead_wall),
            forall|j: int| 0 <= j < adv@.len() ==> (#[trigger] adv@[j]) < 34,
            opt_view(best) == best_over_draws(
                start,
                adv@,
                k as int,
                hand@,
                open_mentsu@,
                plain_tsumo(flags, *bakaze, *jikaze, kawa, wall),
                dead_wall,
                visible_tiles@,
                own@,
            ),
        decreases adv@.len() - k,
    {
        let i = adv[k];
        if (visible_tiles[i] as u16) + (own[i] as u16) < 4 {
            let incoming = index_to_tile(i);
            let mut expanded = copy_hand(hand);
            expanded.push(incoming);
            sort_tiles(&mut expanded);
            proof {
                crate::counting::lemma_sort_seq(hand@.push(incoming));
                assert(expanded@.drop_last().len() == hand@.len());
            }
            best = fold_discards(
                best,
                &expanded,
                open_mentsu,
                flags,
                kawa,
                bakaze,
                jikaze,
                wall,
                dead_wall,
                visible_tiles,
                own,
            );
        }
        k = k + 1;
    }
    best
}

pub open spec fn waits_of(tenpai: Option<&Tenpai>) -> Option<Seq<Tile>> {
    match tenpai {
        Some(t) => Some(t.0@),
        None => None,
    }
}

/// The best result the hand could have reached (see `potential_view`); the
/// tile counts `visible_tiles` are what the table shows, to which the
/// player's own tiles are added.
pub fn best_potential_result(
    hand: &[Tile],
    open_mentsu: &[Mentsu],
    tenpai: Option<&Tenpai>,
    is_closed: bool,
    is_oya: bool,
    kawa: &Kawa,
    is_riichi: bool,
    is_double_riichi: bool,
    is_ippatsu: bool,
    bakaze: &Wind,
    jikaze: &Wind,
    wall: &Wall,
    dead_wall: &DeadWall,
    calls_made: bool,
    visible_tiles: &[u8; 34],
) -> (best: Option<HandResult>)
    requires
        hand_fits(hand@, open_mentsu@, dead_wall),
        all_valid(hand@ + meld_tiles(open_mentsu@)),
        tenpai matches Some(t) ==> all_valid(t.0@),
    ensures
        opt_view(best) == potential_view(
            hand@,
            open_mentsu@,
            waits_of(tenpai),
            situation(
                is_closed,
                is_oya,
                is_riichi,
                is_double_riichi,
                is_ippatsu,
                *bakaze,
                *jikaze,
                kawa,
                true,
                false,
                false,
                wall,
                calls_made,
            ),
            dead_wall,
            visible_tiles@,
        ),
{
    let flags = SeatFlags {
        closed: is_closed,
        oya: is_oya,
        riichi: is_riichi,
        double_riichi: is_double_riichi,
        ippatsu: is_ippatsu,
        calls_made,
    };
    let combined = combine_tiles(hand, open_mentsu);
    proof {
        lemma_meld_tiles_len(open_mentsu@);
        crate::shanten::lemma_fsum_freq_seq(combined@);
    }
    proof {
        crate::counting::lemma_short_kinds_fit(combined@);
    }
    let mut own = tiles_to_frequency_array(combined.as_slice());
    match tenpai {
        Some(tp) => fold_waits(
            None,
            &tp.0,
            hand,
            open_mentsu,
            tp,
            flags,
            kawa,
            bakaze,
            jikaze,
            wall,
            dead_wall,
            visible_tiles,
            &own,
        ),
        None => {
            let shanten = calculate_shanten_from_array(&mut own);
            if shanten != 1 {
                return None;
            }
            let advancing = ukeire_tiles(&mut own, 1);
            proof {
                lemma_ukeire_below(own@, 1, 34);
            }
            fold_draws(
                None,
                &advancing,
                hand,
                open_mentsu,
                flags,
                kawa,
                bakaze,
                jikaze,
                wall,
                dead_wall,
                visible_tiles,
                &own,
            )
        },
    }
}

/// What a player who dealt in or paid for a tsumo takes away: whether they
/// were tenpai or in riichi, and the han of the best result they could still
/// have reached. Players are numbered by seat.
pub struct LoserTiltInfo {
    pub player: usize,
    pub was_tenpai: bool,
    pub was_riichi: bool,
    pub best_han: Option<u8>,
}

pub open spec fn han_of(v: Option<HandView>) -> Option<u8> {
    match v {
        Some(x) => Some(x.han as u8),
        None => None,
    }
}

pub fn build_loser_tilt_info(
    player: usize,
    hand: &Hand,
    open_mentsu: &OpenMentsu,
    tenpai: Option<&Tenpai>,
    kawa: &Kawa,
    jikaze: &Jikaze,
    is_closed: bool,
    is_oya: bool,
    is_riichi: bool,
    is_double_riichi: bool,
    is_ippatsu: bool,
    bakaze: &Wind,
    wall: &Wall,
    dead_wall: &DeadWall,
    calls_made: bool,
    visible_tiles: &[u8; 34],
) -> (info: LoserTiltInfo)
    requires
        hand_fits(hand.0@, open_mentsu.0@, dead_wall),
        all_valid(hand.0@ + meld_tiles(open_mentsu.0@)),
        tenpai matches Some(t) ==> all_valid(t.0@),
    ensures
        info.player == player,
        info.was_tenpai == tenpai is Some,
        info.was_riichi == is_riichi,
        info.best_han == han_of(
            potential_view(
                hand.0@,
                open_mentsu.0@,
                waits_of(tenpai),
                situation(
                    is_closed,
                    is_oya,
                    is_riichi,
                    is_double_riichi,
                    is_ippatsu,
                    *bakaze,
                    jikaze.0,
                    kawa,
                    true,
                    false,
                    false,
                    wall,
                    calls_made,
                ),
                dead_wall,
                visible_tiles@,
            ),
        ),
{
    let best = best_potential_result(
        hand.0.as_slice(),
        open_mentsu.0.as_slice(),
        tenpai,
        is_closed,
        is_oya,
        kawa,
        is_riichi,
        is_double_riichi,
        is_ippatsu,
        bakaze,
        &jikaze.0,
        wall,
        dead_wall,
        calls_made,
        visible_tiles,
    );
    let best_han = match best {
        Some(r) => Some(r.total_han),
        None => None,
    };
    LoserTiltInfo { player, was_tenpai: tenpai.is_some(), was_riichi: is_riichi, best_han }
}

} // verus!
