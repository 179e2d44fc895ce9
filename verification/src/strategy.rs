//! Which hand a bot steers for. The bot's temperament enters as a few
//! numbers worked out beforehand: how much greed lowers its thresholds, how
//! much earlier it panics for speed, whether the risk of the revolver
//! outweighs its nerve, and how many dragon pairs it wants for daisangen.

use vstd::prelude::*;
use crate::tile::{
    Tile, Suit, TargetYaku, all_valid, yaochuu, green_tile, honor_tile, is_yaochuuhai,
    is_green, is_honor,
};
use crate::counting::{freq_seq, tiles_to_frequency_array};
use crate::shanten::slots_with;
use crate::scoring::{dora_total, pointing_at, get_dora_from_indicator};
use crate::yaku::count_tiles_where;
use crate::bot::outer_number;

verus! {

/// The counts the choice rests on.
pub struct HandStats {
    pub man: int,
    pub pin: int,
    pub sou: int,
    pub honor: int,
    pub pairs: int,
    pub triplets: int,
    pub orphans: int,
    pub middle: int,
    pub green: int,
    pub chanta: int,
    pub junchan: int,
    pub dora: int,
}

/// The tiles in slots `lo .. lo + n`.
pub open spec fn slot_sum(f: Seq<u8>, lo: int, n: int) -> int
    decreases n,
{
    if n <= 0 {
        0
    } else {
        slot_sum(f, lo, n - 1) + f[lo + n - 1]
    }
}

/// The slot of the k-th terminal or honor kind.
pub open spec fn orphan_slot(k: int) -> int {
    if k < 6 {
        (k / 2) * 9 + (k % 2) * 8
    } else {
        21 + k
    }
}

/// How many of the first `n` terminal and honor kinds the hand holds.
pub open spec fn orphans_held(f: Seq<u8>, n: int) -> int
    decreases n,
{
    if n <= 0 {
        0
    } else {
        orphans_held(f, n - 1) + if f[orphan_slot(n - 1)] > 0 {
            1int
        } else {
            0
        }
    }
}

pub open spec fn stats_of(hand: Seq<Tile>, inds: Seq<Tile>) -> HandStats {
    let f = freq_seq(hand);
    HandStats {
        man: slot_sum(f, 0, 9),
        pin: slot_sum(f, 9, 9),
        sou: slot_sum(f, 18, 9),
        honor: slot_sum(f, 27, 7),
        pairs: slots_with(f, 34, 2) - slots_with(f, 34, 3),
        triplets: slots_with(f, 34, 3),
        orphans: orphans_held(f, 13),
        middle: count_tiles_where(hand, |t: Tile| !yaochuu(t)) as int,
        green: count_tiles_where(hand, |t: Tile| green_tile(t)) as int,
        chanta: count_tiles_where(hand, |t: Tile| outer_number(t) || honor_tile(t)) as int,
        junchan: count_tiles_where(hand, |t: Tile| outer_number(t)) as int,
        dora: dora_total(hand, inds) as int,
    }
}

/// Runs `i`, `i + 1`, `i + 2` in all three suits: each suit holds some, and
/// together they hold at least `req`.
pub open spec fn color_block(f: Seq<u8>, i: int) -> (int, int, int) {
    (
        f[i] + f[i + 1] + f[i + 2],
        f[i + 9] + f[i + 10] + f[i + 11],
        f[i + 18] + f[i + 19] + f[i + 20],
    )
}

/// The best three-colour start among the first `n`: the one with the most
/// tiles (the first of equal ones), as (rank, tiles).
pub open spec fn best_color_run(f: Seq<u8>, req: int, n: int) -> Option<(int, int)>
    decreases n,
{
    if n <= 0 {
        None
    } else {
        let prev = best_color_run(f, req, n - 1);
        let (m, p, s) = color_block(f, n - 1);
        let total = m + p + s;
        let beats = match prev {
            None => true,
            Some((_, best)) => total > best,
        };
        if m > 0 && p > 0 && s > 0 && total >= req && beats {
            Some((n, total))
        } else {
            prev
        }
    }
}

pub open spec fn color_rank(b: Option<(int, int)>) -> u8 {
    match b {
        Some((rank, _)) => rank as u8,
        None => 0,
    }
}

/// The three blocks of a suit (1-3, 4-6, 7-9) each hold a tile and together
/// at least `req`.
pub open spec fn straight_ready(f: Seq<u8>, off: int, req: int) -> bool {
    let b1 = f[off] + f[off + 1] + f[off + 2];
    let b2 = f[off + 3] + f[off + 4] + f[off + 5];
    let b3 = f[off + 6] + f[off + 7] + f[off + 8];
    b1 > 0 && b2 > 0 && b3 > 0 && b1 + b2 + b3 >= req
}

/// The wall length under which the bot goes for speed: 35, 20 or 10 draws
/// (at three, two or one from tenpai) plus its panic bonus (half of it at
/// one from tenpai); never when tenpai.
pub open spec fn panic_threshold(shanten: int, bonus: int) -> int {
    if shanten >= 3 {
        35 + bonus
    } else if shanten == 2 {
        20 + bonus
    } else if shanten == 1 {
        10 + bonus / 2
    } else {
        0
    }
}

/// The choice, in order of precedence: speed when the wall runs short; with
/// three dora, all simples if the hand is close enough, else speed; then the
/// yakuman (thirteen orphans, four concealed triplets, big three dragons,
/// nine gates, all honors, all green), the flushes, the straight, the
/// three-colour run, the outside hands, pinfu for a nervous bot, seven
/// pairs, three concealed triplets, all triplets, all simples; and at last
/// all simples for a nervous bot and speed for a bold one. `greed` lowers
/// the thresholds.
pub open spec fn strategy(
    st: HandStats,
    f: Seq<u8>,
    wall_len: int,
    shanten: int,
    greed: int,
    bonus: int,
    nervous: bool,
    dragon_req: int,
) -> TargetYaku {
    let refuses = st.dora < 2 && nervous;
    let flush = 10 - greed;
    let half = 9 - greed;
    let chanta_req = 10 - greed;
    if wall_len < panic_threshold(shanten, bonus) {
        TargetYaku::Speed
    } else if st.dora >= 3 {
        if st.middle >= 8 - greed {
            TargetYaku::Tanyao
        } else {
            TargetYaku::Speed
        }
    } else if st.orphans >= 10 - greed {
        TargetYaku::Kokushi
    } else if st.triplets == 3 && st.pairs >= (if greed / 2 >= 1 {
        0int
    } else {
        1
    }) {
        TargetYaku::Suuankou
    } else if (if f[31] >= 2 { 1int } else { 0 }) + (if f[32] >= 2 { 1int } else { 0 }) + (if f[33] >= 2 {
        1int
    } else {
        0
    }) >= dragon_req {
        TargetYaku::Daisangen
    } else if st.man >= 12 - greed && f[0] >= 1 && f[8] >= 1 {
        TargetYaku::ChuurenPoutou(Suit::Man)
    } else if st.pin >= 12 - greed && f[9] >= 1 && f[17] >= 1 {
        TargetYaku::ChuurenPoutou(Suit::Pin)
    } else if st.sou >= 12 - greed && f[18] >= 1 && f[26] >= 1 {
        TargetYaku::ChuurenPoutou(Suit::Sou)
    } else if st.honor >= flush {
        TargetYaku::Tsuuiisou
    } else if st.green >= flush {
        TargetYaku::Ryuuiisou
    } else if st.man >= flush {
        TargetYaku::Chinitsu(Suit::Man)
    } else if st.pin >= flush {
        TargetYaku::Chinitsu(Suit::Pin)
    } else if st.sou >= flush {
        TargetYaku::Chinitsu(Suit::Sou)
    } else if st.man + st.honor >= half {
        TargetYaku::Honitsu(Suit::Man)
    } else if st.pin + st.honor >= half {
        TargetYaku::Honitsu(Suit::Pin)
    } else if st.sou + st.honor >= half {
        TargetYaku::Honitsu(Suit::Sou)
    } else if straight_ready(f, 0, 7 - greed / 2) {
        TargetYaku::Ittsuu(Suit::Man)
    } else if straight_ready(f, 9, 7 - greed / 2) {
        TargetYaku::Ittsuu(Suit::Pin)
    } else if straight_ready(f, 18, 7 - greed / 2) {
        TargetYaku::Ittsuu(Suit::Sou)
    } else if best_color_run(f, 6 - greed / 2, 7) is Some {
        TargetYaku::SanshokuDoujun(color_rank(best_color_run(f, 6 - greed / 2, 7)))
    } else if st.junchan >= chanta_req && st.honor == 0 {
        TargetYaku::Junchan
    } else if st.chanta >= chanta_req {
        TargetYaku::Chanta
    } else if st.pairs <= 2 && refuses {
        TargetYaku::Pinfu
    } else if st.pairs >= 4 && st.triplets == 0 {
        TargetYaku::Chiitoitsu
    } else if st.triplets == 2 && st.pairs >= 1 {
        TargetYaku::Sanankou
    } else if 3 <= st.pairs <= 4 && st.triplets >= 1 {
        TargetYaku::Toitoi
    } else if st.middle >= 9 - greed {
        TargetYaku::Tanyao
    } else if refuses {
        TargetYaku::Tanyao
    } else {
        TargetYaku::Speed
    }
}

/// The counts of `HandStats`, as machine integers.
struct Stats {
    man: u16,
    pin: u16,
    sou: u16,
    honor: u16,
    pairs: u16,
    triplets: u16,
    orphans: u16,
    middle: usize,
    green: usize,
    chanta: usize,
    junchan: usize,
    dora: usize,
}

impl Stats {
    spec fn matches(&self, st: HandStats) -> bool {
        &&& self.man == st.man
        &&& self.pin == st.pin
        &&& self.sou == st.sou
        &&& self.honor == st.honor
        &&& self.pairs == st.pairs
        &&& self.triplets == st.triplets
        &&& self.orphans == st.orphans
        &&& self.middle == st.middle
        &&& self.green == st.green
        &&& self.chanta == st.chanta
        &&& self.junchan == st.junchan
        &&& self.dora == st.dora
    }
}

fn sum_slots(freq: &[u8; 34], lo: usize, n: usize) -> (s: u16)
    requires
        lo + n <= 34,
    ensures
        s == slot_sum(freq@, lo as int, n as int),
{
    let mut s: u16 = 0;
    let mut k: usize = 0;
    while k < n
        invariant
            k <= n,
            lo + n <= 34,
            s == slot_sum(freq@, lo as int, k as int),
            s <= 255 * k,
        decreases n - k,
    {
        s = s + freq[lo + k] as u16;
        k = k + 1;
    }
    s
}

fn count_pairs_triplets(freq: &[u8; 34]) -> (out: (u16, u16))
    ensures
        out.0 == slots_with(freq@, 34, 2) - slots_with(freq@, 34, 3),
        out.1 == slots_with(freq@, 34, 3),
{
    let mut pairs: u16 = 0;
    let mut triplets: u16 = 0;
    let mut k: usize = 0;
    while k < 34
        invariant
            k <= 34,
            pairs == slots_with(freq@, k as int, 2) - slots_with(freq@, k as int, 3),
            triplets == slots_with(freq@, k as int, 3),
            pairs + triplets <= k,
        decreases 34 - k,
    {
        if freq[k] == 2 {
            pairs = pairs + 1;
        } else if freq[k] >= 3 {
            triplets = triplets + 1;
        }
        k = k + 1;
    }
    (pairs, triplets)
}

fn count_orphans(freq: &[u8; 34]) -> (n: u16)
    ensures
        n == orphans_held(freq@, 13),
{
    let mut n: u16 = 0;
    let mut k: usize = 0;
    while k < 13
        invariant
            k <= 13,
            n == orphans_held(freq@, k as int),
            n <= k,
        decreases 13 - k,
    {
        let slot: usize = if k < 6 {
            (k / 2) * 9 + (k % 2) * 8
        } else {
            21 + k
        };
        if freq[slot] > 0 {
            n = n + 1;
        }
        k = k + 1;
    }
    n
}

fn count_middle(hand: &[Tile]) -> (n: usize)
    ensures
        n == count_tiles_where(hand@, |t: Tile| !yaochuu(t)),
{
    let mut n: usize = 0;
    let mut k: usize = 0;
    while k < hand.len()
        invariant
            k <= hand@.len(),
            n == count_tiles_where(hand@.take(k as int), |t: Tile| !yaochuu(t)),
            n <= k,
        decreases hand@.len() - k,
    {
        assert(hand@.take(k + 1).drop_last() == hand@.take(k as int));
        if !is_yaochuuhai(&hand[k]) {
            n = n + 1;
        }
        k = k + 1;
    }
    assert(hand@.take(k as int) == hand@);
    n
}

fn count_green(hand: &[Tile]) -> (n: usize)
    ensures
        n == count_tiles_where(hand@, |t: Tile| green_tile(t)),
{
    let mut n: usize = 0;
    let mut k: usize = 0;
    while k < hand.len()
        invariant
            k <= hand@.len(),
            n == count_tiles_where(hand@.take(k as int), |t: Tile| green_tile(t)),
            n <= k,
        decreases hand@.len() - k,
    {
        assert(hand@.take(k + 1).drop_last() == hand@.take(k as int));
        if is_green(&hand[k]) {
            n = n + 1;
        }
        k = k + 1;
    }
    assert(hand@.take(k as int) == hand@);
    n
}

fn outer(t: &Tile) -> (b: bool)
    ensures
        b == outer_number(*t),
{
    match t {
        Tile::Man(v) => *v <= 3 && *v >= 1 || *v >= 7 && *v <= 9,
        Tile::Pin(v) => *v <= 3 && *v >= 1 || *v >= 7 && *v <= 9,
        Tile::Sou(v) => *v <= 3 && *v >= 1 || *v >= 7 && *v <= 9,
        Tile::Honor(_) => false,
    }
}

fn count_outer(hand: &[Tile]) -> (out: (usize, usize))
    ensures
        out.0 == count_tiles_where(hand@, |t: Tile| outer_number(t) || honor_tile(t)),
        out.1 == count_tiles_where(hand@, |t: Tile| outer_number(t)),
{
    let mut chanta: usize = 0;
    let mut junchan: usize = 0;
    let mut k: usize = 0;
    while k < hand.len()
        invariant
            k <= hand@.len(),
            chanta == count_tiles_where(hand@.take(k as int), |t: Tile| outer_number(t) || honor_tile(t)),
            junchan == count_tiles_where(hand@.take(k as int), |t: Tile| outer_number(t)),
            chanta <= k,
            junchan <= k,
        decreases hand@.len() - k,
    {
        assert(hand@.take(k + 1).drop_last() == hand@.take(k as int));
        let o = outer(&hand[k]);
        if o || is_honor(&hand[k]) {
            chanta = chanta + 1;
        }
        if o {
            junchan = junchan + 1;
        }
        k = k + 1;
    }
    assert(hand@.take(k as int) == hand@);
    (chanta, junchan)
}

fn count_dora_tiles(hand: &[Tile], inds: &[Tile]) -> (n: usize)
    requires
        hand@.len() <= 255,
        inds@.len() <= 255,
    ensures
        n == dora_total(hand@, inds@),
{
    let mut n: usize = 0;
    let mut k: usize = 0;
    while k < hand.len()
        invariant
            k <= hand@.len() <= 255,
            inds@.len() <= 255,
            n == dora_total(hand@.take(k as int), inds@),
            n <= k * 255,
        decreases hand@.len() - k,
    {
        assert(hand@.take(k + 1).drop_last() == hand@.take(k as int));
        let mut c: usize = 0;
        let mut j: usize = 0;
        while j < inds.len()
            invariant
                j <= inds@.len() <= 255,
                k < hand@.len(),
                c == pointing_at(hand@[k as int], inds@.take(j as int)),
                c <= j,
            decreases inds@.len() - j,
        {
            assert(inds@.take(j + 1).drop_last() == inds@.take(j as int));
            if hand[k] == get_dora_from_indicator(&inds[j]) {
                c = c + 1;
            }
            j = j + 1;
        }
        assert(inds@.take(j as int) == inds@);
        n = n + c;
        k = k + 1;
    }
    assert(hand@.take(k as int) == hand@);
    n
}

/// Picks the hand to steer for (see `strategy`). `greed_discount` lowers the
/// thresholds, `speed_panic_bonus` raises the wall length under which the
/// bot races, `risk_exceeds_nerve` says the revolver frightens it more than
/// its nerve allows, and `daisangen_req` is how many dragon pairs it wants.
pub fn choose_target_yaku(
    hand: &[Tile],
    wall_len: usize,
    current_shanten: i32,
    dora_indicators: &[Tile],
    greed_discount: u8,
    speed_panic_bonus: usize,
    risk_exceeds_nerve: bool,
    daisangen_req: u8,
) -> (target: TargetYaku)
    requires
        all_valid(hand@),
        hand@.len() <= 255,
        dora_indicators@.len() <= 255,
        greed_discount <= 8,
        speed_panic_bonus <= 1000,
    ensures
        target == strategy(
            stats_of(hand@, dora_indicators@),
            freq_seq(hand@),
            wall_len as int,
            current_shanten as int,
            greed_discount as int,
            speed_panic_bonus as int,
            risk_exceeds_nerve,
            daisangen_req as int,
        ),
{
    proof {
        crate::counting::lemma_short_kinds_fit(hand@);
    }
    let freq = tiles_to_frequency_array(hand);
    let (pairs, triplets) = count_pairs_triplets(&freq);
    let (chanta, junchan) = count_outer(hand);
    let st = Stats {
        man: sum_slots(&freq, 0, 9),
        pin: sum_slots(&freq, 9, 9),
        sou: sum_slots(&freq, 18, 9),
        honor: sum_slots(&freq, 27, 7),
        pairs,
        triplets,
        orphans: count_orphans(&freq),
        middle: count_middle(hand),
        green: count_green(hand),
        chanta,
        junchan,
        dora: count_dora_tiles(hand, dora_indicators),
    };
    let ghost hs = stats_of(hand@, dora_indicators@);
    assert(st.matches(hs));
    decide(&st, &freq, wall_len, current_shanten, greed_discount, speed_panic_bonus, risk_exceeds_nerve, daisangen_req, Ghost(hs))
}

fn color_run(freq: &[u8; 34], req: u8) -> (best: Option<(u8, u16)>)
    ensures
        match best {
            Some((n, t)) => best_color_run(freq@, req as int, 7) == Some((n as int, t as int)),
            None => best_color_run(freq@, req as int, 7) is None,
        },
{
    let mut best: Option<(u8, u16)> = None;
    let mut i: usize = 0;
    while i < 7
        invariant
            i <= 7,
            match best {
                Some((n, t)) => best_color_run(freq@, req as int, i as int) == Some((n as int, t as int)),
                None => best_color_run(freq@, req as int, i as int) is None,
            },
        decreases 7 - i,
    {
        let m = freq[i] as u16 + freq[i + 1] as u16 + freq[i + 2] as u16;
        let p = freq[i + 9] as u16 + freq[i + 10] as u16 + freq[i + 11] as u16;
        let s = freq[i + 18] as u16 + freq[i + 19] as u16 + freq[i + 20] as u16;
        let total = m + p + s;
        let beats = match best {
            None => true,
            Some((_, b)) => total > b,
        };
        if m > 0 && p > 0 && s > 0 && total >= req as u16 && beats {
            best = Some(((i + 1) as u8, total));
        }
        i = i + 1;
    }
    best
}

fn straight_in(freq: &[u8; 34], off: usize, req: u8) -> (b: bool)
    requires
        off <= 25,
    ensures
        b == straight_ready(freq@, off as int, req as int),
{
    let b1 = freq[off] as u16 + freq[off + 1] as u16 + freq[off + 2] as u16;
    let b2 = freq[off + 3] as u16 + freq[off + 4] as u16 + freq[off + 5] as u16;
    let b3 = freq[off + 6] as u16 + freq[off + 7] as u16 + freq[off + 8] as u16;
    b1 > 0 && b2 > 0 && b3 > 0 && b1 + b2 + b3 >= req as u16
}

fn decide(
    st: &Stats,
    freq: &[u8; 34],
    wall_len: usize,
    current_shanten: i32,
    greed: u8,
    bonus: usize,
    nervous: bool,
    dragon_req: u8,
    Ghost(hs): Ghost<HandStats>,
) -> (target: TargetYaku)
    requires
        st.matches(hs),
        greed <= 8,
        bonus <= 1000,
    ensures
        target == strategy(
            hs,
            freq@,
            wall_len as int,
            current_shanten as int,
            greed as int,
            bonus as int,
            nervous,
            dragon_req as int,
        ),
{
    let refuses = st.dora < 2 && nervous;
    let threshold: usize = if current_shanten >= 3 {
        35 + bonus
    } else if current_shanten == 2 {
        20 + bonus
    } else if current_shanten == 1 {
        10 + bonus / 2
    } else {
        0
    };
    if wall_len < threshold {
        return TargetYaku::Speed;
    }
    if st.dora >= 3 {
        if st.middle >= (8 - greed) as usize {
            return TargetYaku::Tanyao;
        }
        return TargetYaku::Speed;
    }
    if st.orphans >= (10 - greed) as u16 {
        return TargetYaku::Kokushi;
    }
    let pair_req: u16 = if greed / 2 >= 1 {
        0
    } else {
        1
    };
    if st.triplets == 3 && st.pairs >= pair_req {
        return TargetYaku::Suuankou;
    }
    let dragons: u8 = (if freq[31] >= 2 { 1u8 } else { 0 }) + (if freq[32] >= 2 { 1u8 } else { 0 }) + (if freq[33]
        >= 2 {
        1u8
    } else {
        0
    });
    if dragons >= dragon_req {
        return TargetYaku::Daisangen;
    }
    let chuuren_req = (12 - greed) as u16;
    if st.man >= chuuren_req && freq[0] >= 1 && freq[8] >= 1 {
        return TargetYaku::ChuurenPoutou(Suit::Man);
    }
    if st.pin >= chuuren_req && freq[9] >= 1 && freq[17] >= 1 {
        return TargetYaku::ChuurenPoutou(Suit::Pin);
    }
    if st.sou >= chuuren_req && freq[18] >= 1 && freq[26] >= 1 {
        return TargetYaku::ChuurenPoutou(Suit::Sou);
    }
    let flush = (10 - greed) as u16;
    if st.honor >= flush {
        return TargetYaku::Tsuuiisou;
    }
    if st.green >= flush as usize {
        return TargetYaku::Ryuuiisou;
    }
    if st.man >= flush {
        return TargetYaku::Chinitsu(Suit::Man);
    }
    if st.pin >= flush {
        return TargetYaku::Chinitsu(Suit::Pin);
    }
    if st.sou >= flush {
        return TargetYaku::Chinitsu(Suit::Sou);
    }
    let half = (9 - greed) as u16;
    if st.man + st.honor >= half {
        return TargetYaku::Honitsu(Suit::Man);
    }
    if st.pin + st.honor >= half {
        return TargetYaku::Honitsu(Suit::Pin);
    }
    if st.sou + st.honor >= half {
        return TargetYaku::Honitsu(Suit::Sou);
    }
    let ittsuu_req = 7 - greed / 2;
    if straight_in(freq, 0, ittsuu_req) {
        return TargetYaku::Ittsuu(Suit::Man);
    }
    if straight_in(freq, 9, ittsuu_req) {
        return TargetYaku::Ittsuu(Suit::Pin);
    }
    if straight_in(freq, 18, ittsuu_req) {
        return TargetYaku::Ittsuu(Suit::Sou);
    }
    if let Some((n, _)) = color_run(freq, 6 - greed / 2) {
        return TargetYaku::SanshokuDoujun(n);
    }
    let chanta_req = (10 - greed) as usize;
    if st.junchan >= chanta_req && st.honor == 0 {
        return TargetYaku::Junchan;
    }
    if st.chanta >= chanta_req {
        return TargetYaku::Chanta;
    }
    if st.pairs <= 2 && refuses {
        return TargetYaku::Pinfu;
    }
    if st.pairs >= 4 && st.triplets == 0 {
        return TargetYaku::Chiitoitsu;
    }
    if st.triplets == 2 && st.pairs >= 1 {
        return TargetYaku::Sanankou;
    }
    if 3 <= st.pairs && st.pairs <= 4 && st.triplets >= 1 {
        return TargetYaku::Toitoi;
    }
    if st.middle >= (9 - greed) as usize {
        return TargetYaku::Tanyao;
    }
    if refuses {
        TargetYaku::Tanyao
    } else {
        TargetYaku::Speed
    }
}

} // verus!
