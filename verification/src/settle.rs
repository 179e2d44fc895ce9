//! Moving points at the end of a hand: ron and tsumo payments with honba
//! and riichi sticks, the tenpai payment of an exhausted wall, and the stick
//! a riichi costs. Players are numbered by seat; `points[s]` is seat `s`.

use vstd::prelude::*;
use crate::tile::Wind;
use crate::scoring::{ScorePayout, payout, lemma_tsumo_balances};
use crate::round::RoundEndReason;

verus! {

/// The sum of all players' points.
pub open spec fn total(s: Seq<i32>) -> int
    decreases s.len(),
{
    if s.len() == 0 {
        0
    } else {
        total(s.drop_last()) + s.last()
    }
}

pub proof fn lemma_total_update(s: Seq<i32>, i: int, v: i32)
    requires
        0 <= i < s.len(),
    ensures
        total(s.update(i, v)) == total(s) - s[i] + v,
    decreases s.len(),
{
    if i < s.len() - 1 {
        lemma_total_update(s.drop_last(), i, v);
        assert(s.update(i, v).drop_last() == s.drop_last().update(i, v));
    } else {
        assert(s.update(i, v).drop_last() == s.drop_last());
    }
}

pub open spec fn fits_i32(x: int) -> bool {
    i32::MIN <= x <= i32::MAX
}

/// Adds `delta` to the points of seat `seat`.
fn add_points(points: &mut Vec<i32>, seat: usize, delta: i64)
    requires
        seat < old(points)@.len(),
        fits_i32(old(points)@[seat as int] + delta),
    ensures
        final(points)@ == old(points)@.update(seat as int, (old(points)@[seat as int] + delta) as i32),
        total(final(points)@) == total(old(points)@) + delta,
{
    proof {
        lemma_total_update(points@, seat as int, (points@[seat as int] + delta) as i32);
    }
    let v = points[seat] as i64 + delta;
    points.set(seat, v as i32);
}

/// One winner of a ron: their seat, seat wind and the total of their score.
pub struct RonWin {
    pub seat: usize,
    pub wind: Wind,
    pub total_won: u32,
}

/// What the discarder pays one ron winner: the score and 100 per honba for
/// each other player at the table.
pub open spec fn ron_payment(total_won: int, honba: int, player_count: int) -> int {
    total_won + honba * ((player_count - 1) * 100)
}

/// The order in which riichi sticks look for a winner: how many seats the
/// discarder sits after the winner in turn order, so that the winner seated
/// just before the discarder is the closest.
pub open spec fn stick_distance(winner: Wind, discarder: Wind) -> int {
    (discarder.num() + 4 - winner.num()) % 4
}

/// The first of the first `n` winners with the smallest `stick_distance`.
pub open spec fn stick_taker(wins: Seq<RonWin>, discarder: Wind, n: int) -> int
    decreases n,
{
    if n <= 1 {
        0
    } else {
        let prev = stick_taker(wins, discarder, n - 1);
        if stick_distance(wins[n - 1].wind, discarder) < stick_distance(wins[prev].wind, discarder) {
            n - 1
        } else {
            prev
        }
    }
}

/// What seat `s` gains from the first `n` wins.
pub open spec fn ron_gain(wins: Seq<RonWin>, s: int, honba: int, pc: int, n: int) -> int
    decreases n,
{
    if n <= 0 {
        0
    } else {
        ron_gain(wins, s, honba, pc, n - 1) + if wins[n - 1].seat == s {
            ron_payment(wins[n - 1].total_won as int, honba, pc)
        } else {
            0
        }
    }
}

/// What the discarder pays for the first `n` wins.
pub open spec fn ron_paid(wins: Seq<RonWin>, honba: int, pc: int, n: int) -> int
    decreases n,
{
    if n <= 0 {
        0
    } else {
        ron_paid(wins, honba, pc, n - 1) + ron_payment(wins[n - 1].total_won as int, honba, pc)
    }
}

/// The points of seat `s` after a ron: what it wins, less what it pays as
/// the discarder, and the riichi sticks when it takes them.
pub open spec fn after_ron(
    old: Seq<i32>,
    wins: Seq<RonWin>,
    loser: int,
    discarder: Wind,
    honba: int,
    pc: int,
    sticks: int,
    s: int,
) -> int {
    old[s] + ron_gain(wins, s, honba, pc, wins.len() as int) - (if s == loser {
        ron_paid(wins, honba, pc, wins.len() as int)
    } else {
        0
    }) + (if wins.len() > 0 && s == wins[stick_taker(wins, discarder, wins.len() as int)].seat {
        sticks
    } else {
        0
    })
}

proof fn lemma_ron_sums(wins: Seq<RonWin>, s: int, honba: int, pc: int, n: int)
    requires
        0 <= n <= wins.len(),
        honba >= 0,
        pc >= 1,
    ensures
        0 <= ron_gain(wins, s, honba, pc, n) <= ron_paid(wins, honba, pc, n),
    decreases n,
{
    if n > 0 {
        lemma_ron_sums(wins, s, honba, pc, n - 1);
    }
}

proof fn lemma_ron_mono(wins: Seq<RonWin>, s: int, honba: int, pc: int, n1: int, n2: int)
    requires
        0 <= n1 <= n2 <= wins.len(),
        honba >= 0,
        pc >= 1,
    ensures
        ron_gain(wins, s, honba, pc, n1) <= ron_gain(wins, s, honba, pc, n2),
        ron_paid(wins, honba, pc, n1) <= ron_paid(wins, honba, pc, n2),
    decreases n2,
{
    if n1 < n2 {
        lemma_ron_mono(wins, s, honba, pc, n1, n2 - 1);
    }
}

proof fn lemma_gain_of_loser(wins: Seq<RonWin>, loser: int, honba: int, pc: int, n: int)
    requires
        0 <= n <= wins.len(),
        forall|k: int| 0 <= k < wins.len() ==> (#[trigger] wins[k]).seat != loser,
    ensures
        ron_gain(wins, loser, honba, pc, n) == 0,
    decreases n,
{
    if n > 0 {
        lemma_gain_of_loser(wins, loser, honba, pc, n - 1);
    }
}

proof fn lemma_stick_taker_in_range(wins: Seq<RonWin>, discarder: Wind, n: int)
    requires
        1 <= n,
    ensures
        0 <= stick_taker(wins, discarder, n) < n,
    decreases n,
{
    if n > 1 {
        lemma_stick_taker_in_range(wins, discarder, n - 1);
    }
}

/// The riichi sticks go to the winner seated closest before the discarder
/// in turn order: no winner sits closer than the one `stick_taker` picks,
/// and every winner listed before it sits further away.
pub proof fn lemma_sticks_to_the_closest(wins: Seq<RonWin>, discarder: Wind, n: int)
    requires
        1 <= n <= wins.len(),
    ensures
        0 <= stick_taker(wins, discarder, n) < n,
        forall|k: int|
            0 <= k < n ==> stick_distance(wins[stick_taker(wins, discarder, n)].wind, discarder)
                <= stick_distance(#[trigger] wins[k].wind, discarder),
        forall|k: int|
            0 <= k < stick_taker(wins, discarder, n) ==> stick_distance(
                wins[stick_taker(wins, discarder, n)].wind,
                discarder,
            ) < stick_distance(#[trigger] wins[k].wind, discarder),
    decreases n,
{
    if n > 1 {
        lemma_sticks_to_the_closest(wins, discarder, n - 1);
    }
}

/// Some ron winner is the dealer.
pub open spec fn dealer_among(wins: Seq<RonWin>, dealer: int) -> bool {
    exists|k: int| 0 <= k < wins.len() && (#[trigger] wins[k]).seat == dealer
}

/// How a hand won by ron ends: a dealer win when the dealer is among the
/// winners, otherwise a non-dealer win.
pub fn ron_round_reason(wins: &Vec<RonWin>, dealer: usize) -> (r: RoundEndReason)
    ensures
        r == if dealer_among(wins@, dealer as int) {
            RoundEndReason::OyaWin
        } else {
            RoundEndReason::NonOyaWin
        },
{
    let mut k: usize = 0;
    while k < wins.len()
        invariant
            k <= wins@.len(),
            forall|j: int| 0 <= j < k ==> (#[trigger] wins@[j]).seat != dealer,
        decreases wins@.len() - k,
    {
        if wins[k].seat == dealer {
            return RoundEndReason::OyaWin;
        }
        k = k + 1;
    }
    RoundEndReason::NonOyaWin
}

/// Settles a ron: each winner takes their payment from the discarder
/// `loser`, and the winner with the smallest `stick_distance` (the winner
/// seated closest before the discarder; the first of them in `wins`) takes
/// the riichi sticks on the table. With no winner
/// nothing changes. The total of the table grows by the sticks alone.
pub fn settle_ron(
    points: &mut Vec<i32>,
    wins: &Vec<RonWin>,
    loser: usize,
    discarder_wind: Wind,
    honba: u8,
    riichi_points: &mut u32,
    player_count: usize,
)
    requires
        loser < old(points)@.len(),
        1 <= player_count <= 4,
        forall|k: int| 0 <= k < wins@.len() ==> (#[trigger] wins@[k]).seat < old(points)@.len() && wins@[k].seat
            != loser,
        forall|k: int| 0 <= k < wins@.len() ==> (#[trigger] wins@[k]).total_won <= 100_000_000,
        wins@.len() <= 4,
        *old(riichi_points) <= 100_000_000,
        forall|s: int|
            0 <= s < old(points)@.len() ==> fits_i32(
                #[trigger] after_ron(
                    old(points)@,
                    wins@,
                    loser as int,
                    discarder_wind,
                    honba as int,
                    player_count as int,
                    *old(riichi_points) as int,
                    s,
                ),
            ),
    ensures
        final(points)@.len() == old(points)@.len(),
        forall|s: int|
            0 <= s < final(points)@.len() ==> (#[trigger] final(points)@[s]) == after_ron(
                old(points)@,
                wins@,
                loser as int,
                discarder_wind,
                honba as int,
                player_count as int,
                *old(riichi_points) as int,
                s,
            ),
        *final(riichi_points) == if wins@.len() > 0 {
            0
        } else {
            *old(riichi_points)
        },
        total(final(points)@) == total(old(points)@) + if wins@.len() > 0 {
            *old(riichi_points) as int
        } else {
            0
        },
{
    if wins.len() == 0 {
        return;
    }
    let ghost p0 = points@;
    let ghost sticks = *riichi_points as int;
    let pc = player_count as i64;
    let mut k: usize = 0;
    while k < wins.len()
        invariant
            k <= wins@.len() <= 4,
            loser < points@.len(),
            points@.len() == p0.len(),
            1 <= pc <= 4,
            pc == player_count,
            forall|j: int| 0 <= j < wins@.len() ==> (#[trigger] wins@[j]).seat < p0.len() && wins@[j].seat
                != loser,
            forall|j: int| 0 <= j < wins@.len() ==> (#[trigger] wins@[j]).total_won <= 100_000_000,
            forall|s: int|
                0 <= s < p0.len() ==> fits_i32(
                    #[trigger] after_ron(
                        p0,
                        wins@,
                        loser as int,
                        discarder_wind,
                        honba as int,
                        player_count as int,
                        sticks,
                        s,
                    ),
                ),
            forall|s: int|
                0 <= s < p0.len() ==> (#[trigger] points@[s]) == p0[s] + ron_gain(
                    wins@,
                    s,
                    honba as int,
                    player_count as int,
                    k as int,
                ) - (if s == loser {
                    ron_paid(wins@, honba as int, player_count as int, k as int)
                } else {
                    0
                }),
            total(points@) == total(p0),
            sticks >= 0,
        decreases wins@.len() - k,
    {
            let w = &wins[k];
        assert(0 <= honba as i64 * ((pc - 1) * 100) <= 255 * 300) by (nonlinear_arith)
            requires
                0 <= honba <= 255,
                1 <= pc <= 4,
        ;
        let pay: i64 = w.total_won as i64 + honba as i64 * ((pc - 1) * 100);
        proof {
            let n = wins@.len() as int;
            let h = honba as int;
            let c = player_count as int;
            lemma_ron_mono(wins@, w.seat as int, h, c, k + 1, n);
            lemma_ron_mono(wins@, loser as int, h, c, k + 1, n);
            lemma_ron_sums(wins@, w.seat as int, h, c, k as int);
            lemma_gain_of_loser(wins@, loser as int, h, c, n);
            lemma_gain_of_loser(wins@, loser as int, h, c, k + 1);
            lemma_gain_of_loser(wins@, loser as int, h, c, k as int);
            assert(fits_i32(after_ron(p0, wins@, loser as int, discarder_wind, h, c, sticks, w.seat as int)));
            assert(fits_i32(after_ron(p0, wins@, loser as int, discarder_wind, h, c, sticks, loser as int)));
            assert(points@[w.seat as int] == p0[w.seat as int] + ron_gain(wins@, w.seat as int, h, c, k as int));
            assert(points@[loser as int] == p0[loser as int] - ron_paid(wins@, h, c, k as int));
            lemma_stick_taker_in_range(wins@, discarder_wind, n);
            let tk = stick_taker(wins@, discarder_wind, n);
            assert(wins@[tk].seat != loser);
            assert(pay == ron_payment(wins@[k as int].total_won as int, h, c));
            assert(ron_paid(wins@, h, c, k + 1) == ron_paid(wins@, h, c, k as int) + pay);
        }
        let ghost pk = points@;
        add_points(points, w.seat, pay);
        add_points(points, loser, -pay);
        proof {
            assert forall|s: int| 0 <= s < p0.len() implies (#[trigger] points@[s]) == p0[s] + ron_gain(
                wins@,
                s,
                honba as int,
                player_count as int,
                k + 1,
            ) - (if s == loser {
                ron_paid(wins@, honba as int, player_count as int, k + 1)
            } else {
                0
            }) by {
                lemma_gain_of_loser(wins@, loser as int, honba as int, player_count as int, k + 1);
                assert(ron_paid(wins@, honba as int, player_count as int, k + 1) == ron_paid(
                    wins@,
                    honba as int,
                    player_count as int,
                    k as int,
                ) + pay);
                if s == loser {
                    assert(points@[s] == pk[s] - pay);
                } else if s == w.seat {
                    assert(points@[s] == pk[s] + pay);
                } else {
                    assert(points@[s] == pk[s]);
                }
            }
        }
        k = k + 1;
    }
    let mut t: usize = 0;
    let mut j: usize = 1;
    while j < wins.len()
        invariant
            1 <= j <= wins@.len(),
            t == stick_taker(wins@, discarder_wind, j as int),
            t < j,
        decreases wins@.len() - j,
    {
        if wins[j].wind.distance_to(&discarder_wind) < wins[t].wind.distance_to(&discarder_wind) {
            t = j;
        }
        j = j + 1;
    }
    let taker = wins[t].seat;
    proof {
        let n = wins@.len() as int;
        lemma_gain_of_loser(wins@, loser as int, honba as int, player_count as int, n);
        lemma_ron_sums(wins@, taker as int, honba as int, player_count as int, n);
        assert(fits_i32(after_ron(p0, wins@, loser as int, discarder_wind, honba as int, player_count as int, sticks, taker as int)));
    }
    add_points(points, taker, *riichi_points as i64);
    *riichi_points = 0;
}

/// How many of the first `n` seats are still alive.
pub open spec fn alive_count(alive: Seq<bool>, n: int) -> int
    decreases n,
{
    if n <= 0 {
        0
    } else {
        alive_count(alive, n - 1) + if alive[n - 1] {
            1int
        } else {
            0
        }
    }
}

/// The change to seat `s` on a tsumo: the winner takes the score, the
/// riichi sticks and 100 per honba from each other player; every other
/// living player pays the dealer's or the non-dealer's share and 100 per
/// honba. Eliminated seats are untouched.
pub open spec fn tsumo_delta(
    alive: Seq<bool>,
    winner: int,
    dealer: int,
    p: ScorePayout,
    honba: int,
    sticks: int,
    s: int,
) -> int {
    let pc = alive_count(alive, alive.len() as int);
    if !alive[s] {
        0
    } else if s == winner {
        p.total_won + sticks + honba * ((pc - 1) * 100)
    } else if s == dealer {
        -(p.oya_pays + honba * 100)
    } else {
        -(p.non_oya_pays + honba * 100)
    }
}

/// The changes to the first `n` seats, added up.
pub open spec fn tsumo_delta_upto(
    alive: Seq<bool>,
    winner: int,
    dealer: int,
    p: ScorePayout,
    honba: int,
    sticks: int,
    n: int,
) -> int
    decreases n,
{
    if n <= 0 {
        0
    } else {
        tsumo_delta_upto(alive, winner, dealer, p, honba, sticks, n - 1) + tsumo_delta(
            alive,
            winner,
            dealer,
            p,
            honba,
            sticks,
            n - 1,
        )
    }
}

proof fn lemma_alive_count_le(alive: Seq<bool>, n: int, i: int)
    requires
        0 <= n <= alive.len(),
    ensures
        0 <= alive_count(alive, n) <= n,
        0 <= i < n && alive[i] ==> alive_count(alive, n) >= 1,
    decreases n,
{
    if n > 0 {
        lemma_alive_count_le(alive, n - 1, i);
    }
}

/// Settles a tsumo by `winner` among the living seats (see `tsumo_delta`);
/// the sticks leave the table for the winner.
pub fn settle_tsumo(
    points: &mut Vec<i32>,
    alive: &Vec<bool>,
    winner: usize,
    dealer: usize,
    score: &ScorePayout,
    honba: u8,
    riichi_points: &mut u32,
)
    requires
        old(points)@.len() == alive@.len() <= 4,
        winner < alive@.len(),
        alive@[winner as int],
        score.total_won <= 100_000_000,
        score.oya_pays <= 100_000_000,
        score.non_oya_pays <= 100_000_000,
        *old(riichi_points) <= 100_000_000,
        forall|s: int|
            0 <= s < old(points)@.len() ==> fits_i32(
                old(points)@[s] + #[trigger] tsumo_delta(
                    alive@,
                    winner as int,
                    dealer as int,
                    *score,
                    honba as int,
                    *old(riichi_points) as int,
                    s,
                ),
            ),
    ensures
        final(points)@.len() == old(points)@.len(),
        forall|s: int|
            0 <= s < final(points)@.len() ==> (#[trigger] final(points)@[s]) == old(points)@[s] + tsumo_delta(
                alive@,
                winner as int,
                dealer as int,
                *score,
                honba as int,
                *old(riichi_points) as int,
                s,
            ),
        *final(riichi_points) == 0,
        total(final(points)@) == total(old(points)@) + tsumo_delta_upto(
            alive@,
            winner as int,
            dealer as int,
            *score,
            honba as int,
            *old(riichi_points) as int,
            alive@.len() as int,
        ),
{
    let ghost p0 = points@;
    let ghost sticks = *riichi_points as int;
    let mut pc: i64 = 0;
    let mut k: usize = 0;
    while k < alive.len()
        invariant
            k <= alive@.len() <= 4,
            pc == alive_count(alive@, k as int),
            0 <= pc <= k,
        decreases alive@.len() - k,
    {
        if alive[k] {
            pc = pc + 1;
        }
        k = k + 1;
    }
    proof {
        lemma_alive_count_le(alive@, alive@.len() as int, winner as int);
    }
    let h = honba as i64;
    let sticks_now = *riichi_points as i64;
    let mut s: usize = 0;
    while s < points.len()
        invariant
            s <= points@.len(),
            points@.len() == p0.len() == alive@.len() <= 4,
            winner < alive@.len(),
            alive@[winner as int],
            pc == alive_count(alive@, alive@.len() as int),
            1 <= pc <= 4,
            h == honba,
            sticks_now == sticks,
            0 <= sticks <= 100_000_000,
            score.total_won <= 100_000_000,
            score.oya_pays <= 100_000_000,
            score.non_oya_pays <= 100_000_000,
            forall|j: int|
                0 <= j < p0.len() ==> fits_i32(
                    p0[j] + #[trigger] tsumo_delta(alive@, winner as int, dealer as int, *score, honba as int, sticks, j),
                ),
            forall|j: int|
                0 <= j < s ==> (#[trigger] points@[j]) == p0[j] + tsumo_delta(
                    alive@,
                    winner as int,
                    dealer as int,
                    *score,
                    honba as int,
                    sticks,
                    j,
                ),
            forall|j: int| s <= j < p0.len() ==> (#[trigger] points@[j]) == p0[j],
            total(points@) == total(p0) + tsumo_delta_upto(
                alive@,
                winner as int,
                dealer as int,
                *score,
                honba as int,
                sticks,
                s as int,
            ),
        decreases p0.len() - s,
    {
        assert(0 <= h * ((pc - 1) * 100) <= 255 * 300) by (nonlinear_arith)
            requires
                0 <= h <= 255,
                1 <= pc <= 4,
        ;
        let delta: i64 = if !alive[s] {
            0
        } else if s == winner {
            score.total_won as i64 + sticks_now + h * ((pc - 1) * 100)
        } else if s == dealer {
            -(score.oya_pays as i64 + h * 100)
        } else {
            -(score.non_oya_pays as i64 + h * 100)
        };
        assert(delta == tsumo_delta(alive@, winner as int, dealer as int, *score, honba as int, sticks, s as int));
        assert(fits_i32(p0[s as int] + tsumo_delta(alive@, winner as int, dealer as int, *score, honba as int, sticks, s as int)));
        let ghost before = points@;
        add_points(points, s, delta);
        assert forall|j: int| s + 1 <= j < p0.len() implies (#[trigger] points@[j]) == p0[j] by {
            assert(points@[j] == before[j]);
        }
        s = s + 1;
    }
    *riichi_points = 0;
}

/// The tenpai payment when the wall runs out: with one player tenpai they
/// take 3000 and the others pay 1000; with two, 1500 each way; with three,
/// the tenpai players take 1000 and the other pays 3000; otherwise nothing.
pub open spec fn tenpai_delta(n: int, is_tenpai: bool) -> int {
    if n == 1 {
        if is_tenpai {
            3000
        } else {
            -1000
        }
    } else if n == 2 {
        if is_tenpai {
            1500
        } else {
            -1500
        }
    } else if n == 3 {
        if is_tenpai {
            1000
        } else {
            -3000
        }
    } else {
        0
    }
}

/// How many of the first `n` living players are tenpai.
pub open spec fn tenpai_count(alive: Seq<bool>, tenpai: Seq<bool>, n: int) -> int
    decreases n,
{
    if n <= 0 {
        0
    } else {
        tenpai_count(alive, tenpai, n - 1) + if alive[n - 1] && tenpai[n - 1] {
            1int
        } else {
            0
        }
    }
}

pub open spec fn tenpai_change(alive: Seq<bool>, tenpai: Seq<bool>, s: int) -> int {
    if alive[s] {
        tenpai_delta(tenpai_count(alive, tenpai, alive.len() as int), tenpai[s])
    } else {
        0
    }
}

proof fn lemma_tenpai_count_le(alive: Seq<bool>, tenpai: Seq<bool>, n: int)
    requires
        0 <= n <= alive.len(),
    ensures
        0 <= tenpai_count(alive, tenpai, n) <= n,
    decreases n,
{
    if n > 0 {
        lemma_tenpai_count_le(alive, tenpai, n - 1);
    }
}

pub fn tenpai_payout(points: &mut Vec<i32>, alive: &Vec<bool>, tenpai: &Vec<bool>)
    requires
        old(points)@.len() == alive@.len() == tenpai@.len(),
        forall|s: int|
            0 <= s < old(points)@.len() ==> fits_i32(old(points)@[s] + #[trigger] tenpai_change(alive@, tenpai@, s)),
    ensures
        final(points)@.len() == old(points)@.len(),
        forall|s: int|
            0 <= s < final(points)@.len() ==> (#[trigger] final(points)@[s]) == old(points)@[s] + tenpai_change(
                alive@,
                tenpai@,
                s,
            ),
{
    let ghost p0 = points@;
    let mut n: usize = 0;
    let mut k: usize = 0;
    while k < alive.len()
        invariant
            k <= alive@.len() == tenpai@.len(),
            n == tenpai_count(alive@, tenpai@, k as int),
            n <= k,
        decreases alive@.len() - k,
    {
        if alive[k] && tenpai[k] {
            n = n + 1;
        }
        k = k + 1;
    }
    let mut s: usize = 0;
    while s < points.len()
        invariant
            s <= points@.len(),
            points@.len() == p0.len() == alive@.len() == tenpai@.len(),
            n == tenpai_count(alive@, tenpai@, alive@.len() as int),
            forall|j: int| 0 <= j < p0.len() ==> fits_i32(p0[j] + #[trigger] tenpai_change(alive@, tenpai@, j)),
            forall|j: int| 0 <= j < s ==> (#[trigger] points@[j]) == p0[j] + tenpai_change(alive@, tenpai@, j),
            forall|j: int| s <= j < p0.len() ==> (#[trigger] points@[j]) == p0[j],
        decreases p0.len() - s,
    {
        let delta: i64 = if !alive[s] {
            0
        } else if n == 1 {
            if tenpai[s] {
                3000
            } else {
                -1000
            }
        } else if n == 2 {
            if tenpai[s] {
                1500
            } else {
                -1500
            }
        } else if n == 3 {
            if tenpai[s] {
                1000
            } else {
                -3000
            }
        } else {
            0
        };
        assert(delta == tenpai_change(alive@, tenpai@, s as int));
        assert(fits_i32(p0[s as int] + tenpai_change(alive@, tenpai@, s as int)));
        let ghost before = points@;
        add_points(points, s, delta);
        assert forall|j: int| s + 1 <= j < p0.len() implies (#[trigger] points@[j]) == p0[j] by {
            assert(points@[j] == before[j]);
        }
        s = s + 1;
    }
}

/// A riichi costs its player a 1000-point stick, which goes to the table.
pub fn pay_riichi_stick(points: &mut Vec<i32>, seat: usize, riichi_points: &mut u32)
    requires
        seat < old(points)@.len(),
        old(points)@[seat as int] >= i32::MIN + 1000,
        *old(riichi_points) + 1000 <= u32::MAX,
    ensures
        final(points)@ == old(points)@.update(seat as int, (old(points)@[seat as int] - 1000) as i32),
        *final(riichi_points) == *old(riichi_points) + 1000,
        total(final(points)@) + *final(riichi_points) == total(old(points)@) + *old(riichi_points),
{
    add_points(points, seat, -1000);
    *riichi_points = *riichi_points + 1000;
}

/// With four players at the table a tsumo moves no points in or out: what
/// the others pay is what the winner takes, and only the riichi sticks are
/// added, whatever the honba.
pub proof fn lemma_four_player_tsumo_conserves(
    winner: int,
    dealer: int,
    p: ScorePayout,
    han: int,
    fu: int,
    is_yakuman: bool,
    n_names: int,
    honba: int,
    sticks: int,
)
    requires
        0 <= winner < 4,
        0 <= dealer < 4,
        n_names >= 0,
        (p.total_won as int, p.oya_pays as int, p.non_oya_pays as int) == payout(
            han,
            fu,
            winner == dealer,
            true,
            is_yakuman,
            n_names,
        ),
    ensures
        tsumo_delta_upto(seq![true, true, true, true], winner, dealer, p, honba, sticks, 4) == sticks,
{
    lemma_tsumo_balances(han, fu, winner == dealer, is_yakuman, n_names);
    let alive = seq![true, true, true, true];
    reveal_with_fuel(alive_count, 5);
    assert(alive_count(alive, 4) == 4);
    reveal_with_fuel(tsumo_delta_upto, 5);
    let d = |i: int| tsumo_delta(alive, winner, dealer, p, honba, sticks, i);
    assert(tsumo_delta_upto(alive, winner, dealer, p, honba, sticks, 4) == d(0) + d(1) + d(2) + d(3));
    assert(honba * ((4 - 1) * 100) == 300 * honba) by (nonlinear_arith);
    let tw = p.total_won as int;
    let op = p.oya_pays as int;
    let nop = p.non_oya_pays as int;
    assert(d(winner) == tw + sticks + 300 * honba);
    if winner == dealer {
        assert(tw == 3 * nop);
    } else {
        assert(tw == op + 2 * nop);
        assert(d(dealer) == -(op + honba * 100));
    }
}

/// With four players at the table the tenpai payment moves no points in or
/// out.
pub proof fn lemma_four_player_tenpai_conserves(tenpai: Seq<bool>)
    requires
        tenpai.len() == 4,
    ensures
        tenpai_change(seq![true, true, true, true], tenpai, 0) + tenpai_change(
            seq![true, true, true, true],
            tenpai,
            1,
        ) + tenpai_change(seq![true, true, true, true], tenpai, 2) + tenpai_change(
            seq![true, true, true, true],
            tenpai,
            3,
        ) == 0,
{
    reveal_with_fuel(tenpai_count, 5);
}

} // verus!
