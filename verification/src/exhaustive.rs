//! The end of a round on an exhausted wall: a seat whose every discard was a
//! terminal or an honor, none of them called, is paid nagashi mangan as a
//! tsumo of five han; otherwise the round ends on whether the dealer was
//! tenpai.

use vstd::prelude::*;
use crate::tile::{Tile, yaochuu, is_yaochuuhai};
use crate::table::Kawa;
use crate::scoring::{HandResult, calculate_score, payout, pow2, name_views};
use crate::settle::fits_i32;
use crate::round::RoundEndReason;
use crate::executions::RoundOutcome;

verus! {

/// Every discard of the pond is a terminal or an honor.
pub open spec fn all_yaochuu_discards(kawa: Seq<Tile>) -> bool {
    forall|i: int| 0 <= i < kawa.len() ==> yaochuu(#[trigger] kawa[i])
}

pub fn nagashi_mangan(kawa: &Kawa) -> (b: bool)
    ensures
        b == all_yaochuu_discards(kawa.0@),
{
    let mut i: usize = 0;
    while i < kawa.0.len()
        invariant
            i <= kawa.0@.len(),
            forall|j: int| 0 <= j < i ==> yaochuu(#[trigger] kawa.0@[j]),
        decreases kawa.0@.len() - i,
    {
        if !is_yaochuuhai(&kawa.0[i]) {
            return false;
        }
        i = i + 1;
    }
    true
}

/// What seat `s` gains when seat `w` is paid nagashi mangan: a mangan tsumo,
/// 12000 from three times 4000 for the dealer, 8000 from 4000 and twice
/// 2000 otherwise; every other seat pays its share.
pub open spec fn nagashi_delta(w: int, dealer: int, s: int) -> int {
    if w == dealer {
        if s == w {
            12000
        } else {
            -4000
        }
    } else if s == w {
        8000
    } else if s == dealer {
        -4000
    } else {
        -2000
    }
}

/// What seat `s` gains from the nagashi payments of the first `n` seats.
pub open spec fn nagashi_gain(nagashi: Seq<bool>, dealer: int, s: int, n: int) -> int
    decreases n,
{
    if n <= 0 {
        0
    } else {
        nagashi_gain(nagashi, dealer, s, n - 1) + if nagashi[n - 1] {
            nagashi_delta(n - 1, dealer, s)
        } else {
            0
        }
    }
}

/// The seats among the first `n` that make nagashi mangan, in seat order.
pub open spec fn nagashi_seats(nagashi: Seq<bool>, n: int) -> Seq<usize>
    decreases n,
{
    if n <= 0 {
        Seq::empty()
    } else {
        nagashi_seats(nagashi, n - 1) + if nagashi[n - 1] {
            seq![(n - 1) as usize]
        } else {
            Seq::empty()
        }
    }
}

/// The seats of a list of winners.
pub open spec fn winner_seats(winners: Seq<(usize, HandResult, u32)>) -> Seq<usize> {
    winners.map_values(|x: (usize, HandResult, u32)| x.0)
}

/// Some seat among the first `n` makes nagashi mangan.
pub open spec fn any_nagashi(nagashi: Seq<bool>, n: int) -> bool {
    exists|w: int| 0 <= w < n && #[trigger] nagashi[w]
}

/// The payments of a nagashi mangan are those of a five-han tsumo.
pub proof fn lemma_nagashi_is_a_mangan_tsumo(w: int, dealer: int)
    ensures
        ({
            let p = payout(5, 20, w == dealer, true, false, 1);
            &&& nagashi_delta(w, dealer, w) == p.0
            &&& w != dealer ==> nagashi_delta(w, dealer, dealer) == -p.1
            &&& forall|s: int| s != w && s != dealer ==> nagashi_delta(w, dealer, s) == -p.2
            &&& w == dealer ==> forall|s: int| s != w ==> nagashi_delta(w, dealer, s) == -p.2
        }),
{
    reveal_with_fuel(pow2, 8);
    assert(pow2(7) == 128);
}

/// With four seats, the nagashi payments of one seat add up to nothing.
pub proof fn lemma_four_seat_nagashi_conserves(w: int, dealer: int)
    requires
        0 <= w < 4,
        0 <= dealer < 4,
    ensures
        nagashi_delta(w, dealer, 0) + nagashi_delta(w, dealer, 1) + nagashi_delta(w, dealer, 2) + nagashi_delta(
            w,
            dealer,
            3,
        ) == 0,
{
}

/// The result a nagashi mangan is recorded with.
pub fn nagashi_result() -> (r: HandResult)
    ensures
        name_views(r.yaku_names@) == seq!["Nagashi Mangan"@],
        r.total_han == 5,
        r.total_fu == 20,
        r.dora_count == 0,
        r.ura_dora_count == 0,
        !r.is_yakuman,
{
    let mut names: Vec<String> = Vec::new();
    names.push("Nagashi Mangan".to_string());
    assert(name_views(names@) =~= seq!["Nagashi Mangan"@]);
    HandResult { yaku_names: names, dora_count: 0, ura_dora_count: 0, total_han: 5, total_fu: 20, is_yakuman: false }
}

fn pay_nagashi(points: &mut Vec<i32>, w: usize, dealer: usize, won: u32, dealer_pays: u32, other_pays: u32)
    requires
        w < old(points)@.len(),
        won as int == nagashi_delta(w as int, dealer as int, w as int),
        w != dealer ==> -(dealer_pays as int) == nagashi_delta(w as int, dealer as int, dealer as int),
        forall|s: int| s != w && s != dealer ==> -(other_pays as int) == nagashi_delta(w as int, dealer as int, s),
        w == dealer ==> forall|s: int| s != w ==> -(other_pays as int) == nagashi_delta(w as int, dealer as int, s),
        forall|s: int|
            0 <= s < old(points)@.len() ==> fits_i32(old(points)@[s] + #[trigger] nagashi_delta(
                w as int,
                dealer as int,
                s,
            )),
    ensures
        final(points)@.len() == old(points)@.len(),
        forall|s: int|
            0 <= s < final(points)@.len() ==> #[trigger] final(points)@[s] == old(points)@[s] + nagashi_delta(
                w as int,
                dealer as int,
                s,
            ),
{
    let ghost before = points@;
    let mut s: usize = 0;
    while s < points.len()
        invariant
            points@.len() == before.len(),
            w < before.len(),
            s <= before.len(),
            won as int == nagashi_delta(w as int, dealer as int, w as int),
            w != dealer ==> -(dealer_pays as int) == nagashi_delta(w as int, dealer as int, dealer as int),
            forall|t: int| t != w && t != dealer ==> -(other_pays as int) == nagashi_delta(w as int, dealer as int, t),
            w == dealer ==> forall|t: int| t != w ==> -(other_pays as int) == nagashi_delta(w as int, dealer as int, t),
            forall|t: int|
                0 <= t < before.len() ==> fits_i32(before[t] + #[trigger] nagashi_delta(w as int, dealer as int, t)),
            forall|t: int| 0 <= t < s ==> #[trigger] points@[t] == before[t] + nagashi_delta(w as int, dealer as int, t),
            forall|t: int| s <= t < before.len() ==> #[trigger] points@[t] == before[t],
        decreases before.len() - s,
    {
        let ghost d = nagashi_delta(w as int, dealer as int, s as int);
        let delta: i64 = if s == w {
            won as i64
        } else if s == dealer {
            -(dealer_pays as i64)
        } else {
            -(other_pays as i64)
        };
        assert(delta == d);
        assert(fits_i32(before[s as int] + d));
        let v = points[s] as i64 + delta;
        points.set(s, v as i32);
        s = s + 1;
    }
}

/// Ends a round on an exhausted wall. `nagashi[s]` says that seat `s`, alive
/// and with no discard called, made nagashi mangan. Each such seat, in seat
/// order, is paid as a five-han tsumo by every seat, and the round ends as a
/// win, the dealer's if the dealer is among them. Without one, the round ends
/// on the dealer's tenpai and no points move.
pub fn exhaustive_draw(points: &mut Vec<i32>, nagashi: &Vec<bool>, dealer: usize, dealer_tenpai: bool) -> (out: (
    RoundEndReason,
    Option<RoundOutcome>,
))
    requires
        old(points)@.len() == nagashi@.len() <= 4,
        forall|s: int| 0 <= s < old(points)@.len() ==> -2_000_000_000 <= #[trigger] old(points)@[s] <= 2_000_000_000,
    ensures
        final(points)@.len() == old(points)@.len(),
        forall|s: int|
            0 <= s < final(points)@.len() ==> #[trigger] final(points)@[s] == old(points)@[s] + nagashi_gain(
                nagashi@,
                dealer as int,
                s,
                nagashi@.len() as int,
            ),
        any_nagashi(nagashi@, nagashi@.len() as int) ==> out.0 == (if dealer < nagashi@.len() && nagashi@[dealer as int] {
            RoundEndReason::OyaWin
        } else {
            RoundEndReason::NonOyaWin
        }),
        !any_nagashi(nagashi@, nagashi@.len() as int) ==> out.0 == (if dealer_tenpai {
            RoundEndReason::RyuukyokuOyaTenpai
        } else {
            RoundEndReason::RyuukyokuOyaNoten
        }) && out.1 is None,
        any_nagashi(nagashi@, nagashi@.len() as int) ==> (out.1 matches Some(o) && o.loser is None && o.is_tsumo
            && o.tochuu_causer@.len() == 0 && o.winners@.len() > 0
            && winner_seats(o.winners@) == nagashi_seats(nagashi@, nagashi@.len() as int)
            && forall|i: int| 0 <= i < o.winners@.len() ==> {
                let (w, r, won) = #[trigger] o.winners@[i];
                &&& w < nagashi@.len() && nagashi@[w as int]
                &&& r.total_han == 5 && r.total_fu == 20 && !r.is_yakuman
                &&& won as int == nagashi_delta(w as int, dealer as int, w as int)
            }),
{
    let ghost before = points@;
    let mut winners: Vec<(usize, HandResult, u32)> = Vec::new();
    let mut oya_won = false;
    let mut w: usize = 0;
    while w < nagashi.len()
        invariant
            before.len() == nagashi@.len() <= 4,
            points@.len() == before.len(),
            w <= nagashi@.len(),
            forall|s: int| 0 <= s < before.len() ==> -2_000_000_000 <= #[trigger] before[s] <= 2_000_000_000,
            forall|s: int|
                0 <= s < points@.len() ==> #[trigger] points@[s] == before[s] + nagashi_gain(
                    nagashi@,
                    dealer as int,
                    s,
                    w as int,
                ),
            forall|s: int| #![trigger nagashi_gain(nagashi@, dealer as int, s, w as int)]
                -12000 * w <= nagashi_gain(nagashi@, dealer as int, s, w as int) <= 12000 * w,
            oya_won == (dealer < w && nagashi@[dealer as int]),
            (winners@.len() > 0) == any_nagashi(nagashi@, w as int),
            winner_seats(winners@) == nagashi_seats(nagashi@, w as int),
            forall|i: int| 0 <= i < winners@.len() ==> {
                let (x, r, won) = #[trigger] winners@[i];
                &&& x < nagashi@.len() && nagashi@[x as int]
                &&& r.total_han == 5 && r.total_fu == 20 && !r.is_yakuman
                &&& won as int == nagashi_delta(x as int, dealer as int, x as int)
            },
        decreases nagashi@.len() - w,
    {
        if nagashi[w] {
            let result = nagashi_result();
            let is_oya = w == dealer;
            proof {
                reveal_with_fuel(pow2, 8);
                assert(pow2(7) == 128);
            }
            let score = calculate_score(5, 20, is_oya, true, false, result.yaku_names.as_slice());
            proof {
                lemma_nagashi_is_a_mangan_tsumo(w as int, dealer as int);
                assert forall|s: int| 0 <= s < points@.len() implies fits_i32(
                    points@[s] + #[trigger] nagashi_delta(w as int, dealer as int, s),
                ) by {
                    assert(points@[s] == before[s] + nagashi_gain(nagashi@, dealer as int, s, w as int));
                }
            }
            pay_nagashi(points, w, dealer, score.total_won, score.oya_pays, score.non_oya_pays);
            if is_oya {
                oya_won = true;
            }
            let ghost before_w = winners@;
            winners.push((w, result, score.total_won));
            proof {
                assert(winner_seats(winners@) =~= winner_seats(before_w).push(w));
            }
        } else {
            proof {
                assert(nagashi_seats(nagashi@, (w + 1) as int) =~= nagashi_seats(nagashi@, w as int));
            }
        }
        proof {
            assert forall|s: int| 0 <= s < points@.len() implies #[trigger] points@[s] == before[s] + nagashi_gain(
                nagashi@,
                dealer as int,
                s,
                (w + 1) as int,
            ) by {}
            assert forall|s: int| #![trigger nagashi_gain(nagashi@, dealer as int, s, (w + 1) as int)]
                -12000 * (w + 1) <= nagashi_gain(nagashi@, dealer as int, s, (w + 1) as int) <= 12000 * (w + 1) by {
                assert(nagashi_gain(nagashi@, dealer as int, s, w as int) >= -12000 * w);
            }
            if nagashi@[w as int] {
                assert(any_nagashi(nagashi@, (w + 1) as int));
            } else if any_nagashi(nagashi@, (w + 1) as int) {
                let x = choose|x: int| 0 <= x < w + 1 && #[trigger] nagashi@[x];
                assert(any_nagashi(nagashi@, w as int));
            }
        }
        w = w + 1;
    }
    if winners.len() > 0 {
        let reason = if oya_won {
            RoundEndReason::OyaWin
        } else {
            RoundEndReason::NonOyaWin
        };
        (reason, Some(RoundOutcome { winners, loser: None, is_tsumo: true, tochuu_causer: Vec::new() }))
    } else {
        let reason = if dealer_tenpai {
            RoundEndReason::RyuukyokuOyaTenpai
        } else {
            RoundEndReason::RyuukyokuOyaNoten
        };
        (reason, None)
    }
}

} // verus!
