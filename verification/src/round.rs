//! How a match moves on: the round counter and the honba after a hand, the
//! dealer seat passing on, whose turn comes next, and the standings when a
//! phase of the match ends and the last player leaves the table.

use vstd::prelude::*;
use crate::tile::{Wind, MatchPhase};
use crate::settle::alive_count;
use crate::table::{Revolver, Hand, OpenMentsu, Kawa};

verus! {

/// Why a hand ended.
#[derive(Debug, Clone, Copy, PartialEq, Eq, Structural)]
pub enum RoundEndReason {
    OyaWin,
    NonOyaWin,
    RyuukyokuOyaTenpai,
    RyuukyokuOyaNoten,
    TochuuRyuukyoku,
}

/// The state of the match that outlives a hand.
pub struct GameState {
    pub match_phase: MatchPhase,
    pub rounds: u8,
    pub honba: u8,
    pub bakaze: Wind,
    pub bullet: u8,
    pub calls_made: bool,
    pub riichi_points: u32,
    pub pending_kan_dora: bool,
    pub pending_rinshan: bool,
}

/// The dealer keeps the seat after their own win, a draw with the dealer
/// tenpai, and an abortive draw.
pub open spec fn renchan(reason: RoundEndReason) -> bool {
    reason == RoundEndReason::OyaWin || reason == RoundEndReason::RyuukyokuOyaTenpai || reason
        == RoundEndReason::TochuuRyuukyoku
}

/// Rounds per wind: one for each player the phase started with.
pub open spec fn max_rounds(phase: MatchPhase) -> int {
    match phase {
        MatchPhase::Yonma => 4,
        MatchPhase::Sanma => 3,
        MatchPhase::Nima => 2,
    }
}

/// What the end of a hand asks of the table: whether the dealer seat moves
/// on and whether the phase of the match is over.
pub struct RoundAdvance {
    pub dealer_moves: bool,
    pub match_end: bool,
}

/// Moves the counters on at the end of a hand. When the dealer stays, one
/// honba is added. Otherwise the honba are cleared and the round advances:
/// after the last South round the phase ends (or, with two players, play
/// returns to East 1), after the last East round South 1 begins, and
/// otherwise the round number goes up by one. The flags of the hand are
/// cleared either way.
pub fn advance_round(game: &mut GameState, reason: RoundEndReason) -> (adv: RoundAdvance)
    requires
        old(game).honba < 255,
        old(game).rounds < 255,
    ensures
        adv.dealer_moves == !renchan(reason),
        renchan(reason) ==> final(game).honba == old(game).honba + 1 && final(game).rounds == old(game).rounds
            && final(game).bakaze == old(game).bakaze && !adv.match_end,
        !renchan(reason) ==> final(game).honba == 0 && if old(game).bakaze == Wind::South && old(game).rounds
            == max_rounds(old(game).match_phase) {
            if old(game).match_phase == MatchPhase::Nima {
                final(game).bakaze == Wind::East && final(game).rounds == 1 && !adv.match_end
            } else {
                final(game).bakaze == old(game).bakaze && final(game).rounds == old(game).rounds
                    && adv.match_end
            }
        } else if old(game).bakaze == Wind::East && old(game).rounds == max_rounds(old(game).match_phase) {
            final(game).bakaze == Wind::South && final(game).rounds == 1 && !adv.match_end
        } else {
            final(game).bakaze == old(game).bakaze && final(game).rounds == old(game).rounds + 1
                && !adv.match_end
        },
        final(game).match_phase == old(game).match_phase,
        final(game).bullet == old(game).bullet,
        final(game).riichi_points == old(game).riichi_points,
        !final(game).calls_made,
        !final(game).pending_kan_dora,
        !final(game).pending_rinshan,
{
    let mut match_end = false;
    let keeps = match reason {
        RoundEndReason::OyaWin | RoundEndReason::RyuukyokuOyaTenpai | RoundEndReason::TochuuRyuukyoku => true,
        RoundEndReason::NonOyaWin | RoundEndReason::RyuukyokuOyaNoten => false,
    };
    if keeps {
        game.honba = game.honba + 1;
    } else {
        game.honba = 0;
        let max: u8 = match game.match_phase {
            MatchPhase::Yonma => 4,
            MatchPhase::Sanma => 3,
            MatchPhase::Nima => 2,
        };
        if game.bakaze == Wind::South && game.rounds == max {
            match game.match_phase {
                MatchPhase::Yonma | MatchPhase::Sanma => {
                    match_end = true;
                },
                MatchPhase::Nima => {
                    game.bakaze = Wind::East;
                    game.rounds = 1;
                },
            }
        } else if game.bakaze == Wind::East && game.rounds == max {
            game.bakaze = Wind::South;
            game.rounds = 1;
        } else {
            game.rounds = game.rounds + 1;
        }
    }
    game.calls_made = false;
    game.pending_kan_dora = false;
    game.pending_rinshan = false;
    RoundAdvance { dealer_moves: !keeps, match_end }
}

/// A seat wind after `r` turns of the dealer seat (each turn moves every
/// wind one back: South becomes East).
pub open spec fn wind_after(w: Wind, r: int) -> int {
    (w.num() + 3 * r) % 4
}

/// After `r` turns some living player sits East.
pub open spec fn alive_east(winds: Seq<Wind>, alive: Seq<bool>, r: int) -> bool {
    exists|i: int| 0 <= i < winds.len() && alive[i] && wind_after(winds[i], r) == 0
}

/// No two players share a seat wind.
pub open spec fn distinct_winds(winds: Seq<Wind>) -> bool {
    forall|i: int, j: int| 0 <= i < j < winds.len() ==> winds[i] != winds[j]
}

proof fn lemma_wind_after_step(w: Wind, r: int)
    requires
        r >= 0,
    ensures
        wind_after(w, r + 1) == (wind_after(w, r) + 3) % 4,
{
}

proof fn lemma_alive_east_within_four(winds: Seq<Wind>, alive: Seq<bool>, i: int)
    requires
        0 <= i < winds.len(),
        alive[i],
    ensures
        exists|r: int| 1 <= r <= 4 && alive_east(winds, alive, r),
{
    let r = if winds[i].num() == 0 {
        4
    } else {
        winds[i].num()
    };
    assert(wind_after(winds[i], r) == 0);
    assert(alive_east(winds, alive, r));
}

/// After exactly `rot` turns of the seats a living player first sits East.
pub open spec fn first_alive_east(winds: Seq<Wind>, alive: Seq<bool>, rot: int) -> bool {
    &&& 1 <= rot <= 4
    &&& alive_east(winds, alive, rot)
    &&& forall|r: int| 1 <= r < rot ==> !alive_east(winds, alive, r)
}

/// Passes the dealer seat on: every wind turns one back until a living
/// player sits East, and that player is the new dealer.
pub fn rotate_dealer(winds: &mut Vec<Wind>, alive: &Vec<bool>) -> (dealer: usize)
    requires
        old(winds)@.len() == alive@.len(),
        distinct_winds(old(winds)@),
        exists|i: int| 0 <= i < alive@.len() && alive@[i],
    ensures
        dealer < alive@.len() && alive@[dealer as int],
        final(winds)@.len() == old(winds)@.len(),
        final(winds)@[dealer as int] == Wind::East,
        distinct_winds(final(winds)@),
        exists|rot: int|
            first_alive_east(old(winds)@, alive@, rot) && forall|i: int|
                0 <= i < final(winds)@.len() ==> (#[trigger] final(winds)@[i]).num() == wind_after(
                    old(winds)@[i],
                    rot,
                ),
{
    let ghost w0 = winds@;
    proof {
        let i = choose|i: int| 0 <= i < alive@.len() && alive@[i];
        lemma_alive_east_within_four(w0, alive@, i);
    }
    let mut r: usize = 0;
    loop
        invariant
            r <= 4,
            w0 == old(winds)@,
            winds@.len() == w0.len() == alive@.len(),
            distinct_winds(w0),
            distinct_winds(winds@),
            exists|rr: int| r < rr <= 4 && alive_east(w0, alive@, rr),
            forall|rr: int| 1 <= rr <= r ==> !alive_east(w0, alive@, rr),
            forall|i: int| 0 <= i < winds@.len() ==> (#[trigger] winds@[i]).num() == wind_after(w0[i], r as int),
        decreases 4 - r,
    {
        let mut k: usize = 0;
        while k < winds.len()
            invariant
                k <= winds@.len() == w0.len(),
                forall|i: int| 0 <= i < k ==> (#[trigger] winds@[i]).num() == wind_after(w0[i], r + 1),
                forall|i: int| k <= i < winds@.len() ==> (#[trigger] winds@[i]).num() == wind_after(w0[i], r as int),
            decreases winds@.len() - k,
        {
            let next = winds[k].next_round_wind();
            proof {
                lemma_wind_after_step(w0[k as int], r as int);
            }
            winds.set(k, next);
            k = k + 1;
        }
        r = r + 1;
        assert forall|i: int, j: int| 0 <= i < j < winds@.len() implies winds@[i] != winds@[j] by {
            assert(w0[i] != w0[j]);
            assert(winds@[i].num() == wind_after(w0[i], r as int));
            assert(winds@[j].num() == wind_after(w0[j], r as int));
        }
        let mut e: usize = 0;
        while e < winds.len()
            invariant
                e <= winds@.len(),
                forall|i: int| 0 <= i < e ==> winds@[i] != Wind::East,
            ensures
                e <= winds@.len(),
                forall|i: int| 0 <= i < e ==> winds@[i] != Wind::East,
                e < winds@.len() ==> winds@[e as int] == Wind::East,
            decreases winds@.len() - e,
        {
            if winds[e] == Wind::East {
                break;
            }
            e = e + 1;
        }
        if e < winds.len() {
            if alive[e] {
                proof {
                    assert(winds@[e as int].num() == wind_after(w0[e as int], r as int));
                    assert(alive@[e as int] && wind_after(w0[e as int], r as int) == 0);
                    assert(alive_east(w0, alive@, r as int));
                    assert(first_alive_east(w0, alive@, r as int));
                }
                return e;
            }
            assert(!alive_east(w0, alive@, r as int)) by {
                assert forall|i: int| 0 <= i < winds@.len() && alive@[i] implies wind_after(w0[i], r as int) != 0 by {
                    if wind_after(w0[i], r as int) == 0 {
                        assert(winds@[i] == Wind::East);
                        assert(i != e);
                    }
                }
            }
        } else {
            assert(!alive_east(w0, alive@, r as int)) by {
                assert forall|i: int| 0 <= i < winds@.len() && alive@[i] implies wind_after(w0[i], r as int) != 0 by {
                    if wind_after(w0[i], r as int) == 0 {
                        assert(winds@[i] == Wind::East);
                    }
                }
            }
        }
    }
}

/// The first living seat from `k` on whose wind has number `w`.
pub open spec fn first_seat_with(winds: Seq<Wind>, alive: Seq<bool>, w: int, k: int) -> Option<int>
    decreases winds.len() - k,
{
    if k < 0 || k >= winds.len() {
        None
    } else if alive[k] && winds[k].num() == w {
        Some(k)
    } else {
        first_seat_with(winds, alive, w, k + 1)
    }
}

/// Whose turn follows the player at `current` (who must be alive): the
/// living player of the next wind in turn order, skipping winds nobody
/// alive holds, at most three winds on.
pub open spec fn next_seat(winds: Seq<Wind>, alive: Seq<bool>, current: int) -> Option<int> {
    if !(0 <= current < winds.len() && alive[current]) {
        None
    } else {
        let c = winds[current].num();
        match first_seat_with(winds, alive, (c + 1) % 4, 0) {
            Some(i) => Some(i),
            None => match first_seat_with(winds, alive, (c + 2) % 4, 0) {
                Some(i) => Some(i),
                None => first_seat_with(winds, alive, (c + 3) % 4, 0),
            },
        }
    }
}

fn find_seat(winds: &Vec<Wind>, alive: &Vec<bool>, w: &Wind) -> (r: Option<usize>)
    requires
        winds@.len() == alive@.len(),
    ensures
        r matches Some(i) ==> first_seat_with(winds@, alive@, w.num(), 0) == Some(i as int),
        r is None ==> first_seat_with(winds@, alive@, w.num(), 0) is None,
{
    let mut k: usize = 0;
    while k < winds.len()
        invariant
            k <= winds@.len() == alive@.len(),
            first_seat_with(winds@, alive@, w.num(), 0) == first_seat_with(winds@, alive@, w.num(), k as int),
        decreases winds@.len() - k,
    {
        if alive[k] && winds[k] == *w {
            return Some(k);
        }
        k = k + 1;
    }
    None
}

/// The seat whose turn it is after `current` (see `next_seat`).
pub fn next_turn(winds: &Vec<Wind>, alive: &Vec<bool>, current: usize) -> (r: Option<usize>)
    requires
        winds@.len() == alive@.len(),
    ensures
        r matches Some(i) ==> next_seat(winds@, alive@, current as int) == Some(i as int),
        r is None ==> next_seat(winds@, alive@, current as int) is None,
{
    if current >= winds.len() || !alive[current] {
        return None;
    }
    let mut wind = winds[current].next_turn_wind();
    let mut step: usize = 0;
    while step < 3
        invariant
            step <= 3,
            winds@.len() == alive@.len(),
            current < winds@.len(),
            alive@[current as int],
            wind.num() == (winds@[current as int].num() + step + 1) % 4,
            step >= 1 ==> first_seat_with(winds@, alive@, (winds@[current as int].num() + 1) % 4, 0) is None,
            step >= 2 ==> first_seat_with(winds@, alive@, (winds@[current as int].num() + 2) % 4, 0) is None,
            step >= 3 ==> first_seat_with(winds@, alive@, (winds@[current as int].num() + 3) % 4, 0) is None,
        decreases 3 - step,
    {
        if let Some(i) = find_seat(winds, alive, &wind) {
            return Some(i);
        }
        wind = wind.next_turn_wind();
        step = step + 1;
    }
    None
}

/// How a player ranks at the end of a phase: more points first, then the
/// lower seat wind. A smaller key ranks higher.
pub open spec fn rank_key(points: Seq<i32>, winds: Seq<Wind>, s: int) -> int {
    -4 * points[s] + winds[s].num()
}

/// Living seats in rank order, each once.
pub open spec fn ranked(order: Seq<usize>, points: Seq<i32>, winds: Seq<Wind>, alive: Seq<bool>) -> bool {
    &&& order.no_duplicates()
    &&& forall|i: int| 0 <= i < order.len() ==> (#[trigger] order[i]) < alive.len() && alive[order[i] as int]
    &&& forall|s: int| 0 <= s < alive.len() && alive[s] ==> order.contains(s as usize)
    &&& forall|i: int, j: int|
        0 <= i < j < order.len() ==> rank_key(points, winds, order[i] as int) <= rank_key(
            points,
            winds,
            order[j] as int,
        )
}

fn key_of(points: &Vec<i32>, winds: &Vec<Wind>, s: usize) -> (k: i64)
    requires
        s < points@.len(),
        s < winds@.len(),
    ensures
        k == rank_key(points@, winds@, s as int),
{
    -4 * (points[s] as i64) + winds[s].to_num() as i64
}

/// Lists the living seats in rank order (see `ranked`); equal keys keep seat
/// order.
pub fn rank_seats(points: &Vec<i32>, winds: &Vec<Wind>, alive: &Vec<bool>) -> (order: Vec<usize>)
    requires
        points@.len() == winds@.len() == alive@.len(),
    ensures
        ranked(order@, points@, winds@, alive@),
        order@.len() == alive_count(alive@, alive@.len() as int),
{
    let mut order: Vec<usize> = Vec::new();
    let mut s: usize = 0;
    while s < alive.len()
        invariant
            s <= alive@.len(),
            points@.len() == winds@.len() == alive@.len(),
            order@.no_duplicates(),
            order@.len() == alive_count(alive@, s as int),
            forall|i: int| 0 <= i < order@.len() ==> (#[trigger] order@[i]) < s && alive@[order@[i] as int],
            forall|t: int| 0 <= t < s && alive@[t] ==> order@.contains(t as usize),
            forall|i: int, j: int|
                0 <= i < j < order@.len() ==> rank_key(points@, winds@, order@[i] as int) <= rank_key(
                    points@,
                    winds@,
                    order@[j] as int,
                ),
        decreases alive@.len() - s,
    {
        if alive[s] {
            let ks = key_of(points, winds, s);
            let mut p: usize = 0;
            while p < order.len()
                invariant
                    p <= order@.len(),
                    s < points@.len() == winds@.len(),
                    forall|i: int| 0 <= i < order@.len() ==> (#[trigger] order@[i]) < s,
                    ks == rank_key(points@, winds@, s as int),
                    forall|i: int| 0 <= i < p ==> rank_key(points@, winds@, (#[trigger] order@[i]) as int) <= ks,
                ensures
                    p <= order@.len(),
                    forall|i: int| 0 <= i < p ==> rank_key(points@, winds@, (#[trigger] order@[i]) as int) <= ks,
                    p < order@.len() ==> ks < rank_key(points@, winds@, order@[p as int] as int),
                decreases order@.len() - p,
            {
                if ks < key_of(points, winds, order[p]) {
                    break;
                }
                p = p + 1;
            }
            let ghost before = order@;
            order.insert(p, s);
            proof {
                assert(order@ == before.insert(p as int, s));
                assert forall|i: int, j: int|
                    0 <= i < j < order@.len() implies rank_key(points@, winds@, order@[i] as int) <= rank_key(
                    points@,
                    winds@,
                    order@[j] as int,
                ) by {
                    if j < p {
                        assert(order@[i] == before[i] && order@[j] == before[j]);
                    } else if j == p {
                        assert(order@[i] == before[i]);
                    } else if i < p {
                        assert(order@[i] == before[i] && order@[j] == before[j - 1]);
                    } else if i == p {
                        assert(order@[j] == before[j - 1]);
                        assert(rank_key(points@, winds@, before[p as int] as int) <= rank_key(
                            points@,
                            winds@,
                            before[j - 1] as int,
                        ));
                    } else {
                        assert(order@[i] == before[i - 1] && order@[j] == before[j - 1]);
                    }
                }
                assert forall|i: int, j: int| 0 <= i < j < order@.len() implies order@[i] != order@[j] by {
                    if i < p && j < p {
                        assert(order@[i] == before[i] && order@[j] == before[j]);
                    } else if i < p && j == p {
                        assert(order@[i] == before[i]);
                    } else if i < p {
                        assert(order@[i] == before[i] && order@[j] == before[j - 1]);
                    } else if i == p {
                        assert(order@[j] == before[j - 1]);
                    } else {
                        assert(order@[i] == before[i - 1] && order@[j] == before[j - 1]);
                    }
                }
                assert forall|t: int| 0 <= t < s + 1 && alive@[t] implies order@.contains(t as usize) by {
                    if t < s {
                        let k = choose|k: int| 0 <= k < before.len() && before[k] == t as usize;
                        if k < p {
                            assert(order@[k] == t as usize);
                        } else {
                            assert(order@[k + 1] == t as usize);
                        }
                    } else {
                        assert(order@[p as int] == s);
                    }
                }
            }
        }
        s = s + 1;
    }
    order
}

/// A player's place in the next phase of the match.
pub struct Standing {
    pub seat: usize,
    pub points: i32,
    pub wind: Wind,
}

/// The outcome of the end of a phase.
pub struct PhaseChange {
    pub new_phase: MatchPhase,
    pub eliminated: Option<usize>,
    pub standings: Vec<Standing>,
}

/// Players a phase starts with.
pub open spec fn expected_players(phase: MatchPhase) -> int {
    match phase {
        MatchPhase::Yonma => 4,
        MatchPhase::Sanma => 3,
        MatchPhase::Nima => 2,
    }
}

pub open spec fn next_phase(phase: MatchPhase) -> MatchPhase {
    match phase {
        MatchPhase::Yonma => MatchPhase::Sanma,
        _ => MatchPhase::Nima,
    }
}

/// The percentage of the pool each place takes: 40, 32, 28 with three
/// players, 60 and 40 with two.
pub open spec fn cut(phase: MatchPhase, i: int) -> int {
    match phase {
        MatchPhase::Nima => if i == 0 {
            60
        } else {
            40
        },
        _ => if i == 0 {
            40
        } else if i == 1 {
            32
        } else {
            28
        },
    }
}

/// The seat wind of each place: East, South, West.
pub open spec fn place_wind(i: int) -> Wind {
    if i == 0 {
        Wind::East
    } else if i == 1 {
        Wind::South
    } else {
        Wind::West
    }
}

/// The first seat that is no longer alive.
pub open spec fn first_dead(alive: Seq<bool>, k: int) -> Option<usize>
    decreases alive.len() - k,
{
    if k < 0 || k >= alive.len() {
        None
    } else if !alive[k] {
        Some(k as usize)
    } else {
        first_dead(alive, k + 1)
    }
}

/// The end of a phase, given the living players in rank order: when all
/// the players the phase started with are still alive, the last one is
/// eliminated; otherwise someone already left, and the first empty seat is
/// reported. The others share 30000 points each, split by place, and take
/// the winds East, South (and West) by place.
pub open spec fn phase_change_from(
    order: Seq<usize>,
    phase: MatchPhase,
    alive: Seq<bool>,
    change_phase: MatchPhase,
    eliminated: Option<usize>,
    standings: Seq<Standing>,
) -> bool {
    let natural = order.len() == expected_players(phase);
    let kept = if natural {
        order.drop_last()
    } else {
        order
    };
    &&& change_phase == next_phase(phase)
    &&& eliminated == if natural {
        Some(order.last())
    } else {
        first_dead(alive, 0)
    }
    &&& standings.len() == kept.len()
    &&& forall|i: int|
        0 <= i < kept.len() ==> (#[trigger] standings[i]).seat == kept[i] && standings[i].points == 30000
            * kept.len() * cut(next_phase(phase), i) / 100 && standings[i].wind == place_wind(i)
}

fn find_dead(alive: &Vec<bool>) -> (r: Option<usize>)
    ensures
        r == first_dead(alive@, 0),
{
    let mut k: usize = 0;
    while k < alive.len()
        invariant
            k <= alive@.len(),
            first_dead(alive@, 0) == first_dead(alive@, k as int),
        decreases alive@.len() - k,
    {
        if !alive[k] {
            return Some(k);
        }
        k = k + 1;
    }
    None
}

fn phase_change(phase: MatchPhase, points: &Vec<i32>, winds: &Vec<Wind>, alive: &Vec<bool>) -> (change: PhaseChange)
    requires
        phase != MatchPhase::Nima,
        points@.len() == winds@.len() == alive@.len(),
        alive_count(alive@, alive@.len() as int) == expected_players(phase) || alive_count(
            alive@,
            alive@.len() as int,
        ) == expected_players(phase) - 1,
    ensures
        exists|order: Seq<usize>|
            ranked(order, points@, winds@, alive@) && phase_change_from(
                order,
                phase,
                alive@,
                change.new_phase,
                change.eliminated,
                change.standings@,
            ),
{
    let mut order = rank_seats(points, winds, alive);
    let ghost full = order@;
    let expected: usize = match phase {
        MatchPhase::Yonma => 4,
        _ => 3,
    };
    let new_phase = match phase {
        MatchPhase::Yonma => MatchPhase::Sanma,
        _ => MatchPhase::Nima,
    };
    let eliminated = if order.len() == expected {
        order.pop()
    } else {
        find_dead(alive)
    };
    assert(order@ == if full.len() == expected_players(phase) {
        full.drop_last()
    } else {
        full
    });
    let n = order.len();
    assert(n <= 3);
    assert(new_phase == MatchPhase::Nima ==> n <= 2);
    let pool: i32 = 30000 * (n as i32);
    let mut standings: Vec<Standing> = Vec::new();
    let mut i: usize = 0;
    while i < n
        invariant
            i <= n == order@.len() <= 3,
            new_phase == next_phase(phase),
            new_phase == MatchPhase::Nima ==> n <= 2,
            pool == 30000 * n,
            standings@.len() == i,
            forall|j: int|
                0 <= j < i ==> (#[trigger] standings@[j]).seat == order@[j] && standings@[j].points == 30000
                    * n * cut(new_phase, j) / 100 && standings@[j].wind == place_wind(j),
        decreases n - i,
    {
        let c: i32 = match new_phase {
            MatchPhase::Nima => if i == 0 {
                60
            } else {
                40
            },
            _ => if i == 0 {
                40
            } else if i == 1 {
                32
            } else {
                28
            },
        };
        let w = if i == 0 {
            Wind::East
        } else if i == 1 {
            Wind::South
        } else {
            Wind::West
        };
        assert(0 <= pool * c <= 90000 * 60) by (nonlinear_arith)
            requires
                0 <= pool <= 90000,
                0 <= c <= 60,
        ;
        standings.push(Standing { seat: order[i], points: pool * c / 100, wind: w });
        i = i + 1;
    }
    PhaseChange { new_phase, eliminated, standings }
}

/// Ends a phase of three or four players: the phase change of
/// `phase_change_from` (who leaves, the next phase, the new standings), and
/// a fresh start for the next phase: round wind East, first round, no honba,
/// no riichi sticks on the table, no call made, nothing pending, and a newly
/// loaded revolver.
pub fn match_transition(
    game: &mut GameState,
    revolver: &mut Revolver,
    points: &Vec<i32>,
    winds: &Vec<Wind>,
    alive: &Vec<bool>,
) -> (change: PhaseChange)
    requires
        old(game).match_phase != MatchPhase::Nima,
        points@.len() == winds@.len() == alive@.len(),
        alive_count(alive@, alive@.len() as int) == expected_players(old(game).match_phase) || alive_count(
            alive@,
            alive@.len() as int,
        ) == expected_players(old(game).match_phase) - 1,
    ensures
        exists|order: Seq<usize>|
            ranked(order, points@, winds@, alive@) && phase_change_from(
                order,
                old(game).match_phase,
                alive@,
                change.new_phase,
                change.eliminated,
                change.standings@,
            ),
        final(game).match_phase == change.new_phase,
        final(game).bakaze == Wind::East,
        final(game).rounds == 1,
        final(game).honba == 0,
        final(game).riichi_points == 0,
        !final(game).calls_made,
        !final(game).pending_kan_dora,
        !final(game).pending_rinshan,
        final(game).bullet == old(game).bullet,
        final(revolver).loaded(),
        final(revolver).chamber == 1,
{
    let change = phase_change(game.match_phase, points, winds, alive);
    game.match_phase = change.new_phase;
    game.bakaze = Wind::East;
    game.rounds = 1;
    game.honba = 0;
    game.calls_made = false;
    game.riichi_points = 0;
    game.pending_kan_dora = false;
    game.pending_rinshan = false;
    *revolver = Revolver::new();
    change
}

/// The points of the first `n` standings, added up.
pub open spec fn standings_total(st: Seq<Standing>, n: int) -> int
    decreases n,
{
    if n <= 0 {
        0
    } else {
        standings_total(st, n - 1) + st[n - 1].points
    }
}

/// The end of a phase hands out exactly 30000 points for each player who
/// stays at the table.
pub proof fn lemma_phase_points_conserved(
    order: Seq<usize>,
    phase: MatchPhase,
    alive: Seq<bool>,
    new_phase: MatchPhase,
    eliminated: Option<usize>,
    standings: Seq<Standing>,
)
    requires
        phase != MatchPhase::Nima,
        order.len() == expected_players(phase) || order.len() == expected_players(phase) - 1,
        phase_change_from(order, phase, alive, new_phase, eliminated, standings),
    ensures
        standings_total(standings, standings.len() as int) == 30000 * standings.len(),
{
    let n = standings.len() as int;
    reveal_with_fuel(standings_total, 4);
    if phase == MatchPhase::Yonma {
        assert(n == 3);
        assert(standings[0].points == 36000);
        assert(standings[1].points == 28800);
        assert(standings[2].points == 25200);
    } else {
        assert(n == 2);
        assert(standings[0].points == 36000);
        assert(standings[1].points == 24000);
    }
}

/// Where the game goes once a hand is cleared away.
#[derive(Clone, Copy, PartialEq, Eq, Debug, Structural)]
pub enum NextStep {
    /// The round earned shots: they are fired first.
    Execution,
    /// The last round of the phase is over: the phase ends.
    MatchTransition,
    /// The next hand is dealt.
    StartNewRound,
}

/// Shots come first, then the end of the phase, then the next hand.
pub open spec fn step_after(has_outcome: bool, match_end_pending: bool) -> NextStep {
    if has_outcome {
        NextStep::Execution
    } else if match_end_pending {
        NextStep::MatchTransition
    } else {
        NextStep::StartNewRound
    }
}

pub fn next_step(has_outcome: bool, match_end_pending: bool) -> (s: NextStep)
    ensures
        s == step_after(has_outcome, match_end_pending),
{
    if has_outcome {
        NextStep::Execution
    } else if match_end_pending {
        NextStep::MatchTransition
    } else {
        NextStep::StartNewRound
    }
}

/// Clears the table after a hand: every seat's hand, melds and pond are
/// emptied.
pub fn clear_table(hands: &mut Vec<Hand>, opens: &mut Vec<OpenMentsu>, kawas: &mut Vec<Kawa>)
    ensures
        final(hands)@.len() == old(hands)@.len(),
        final(opens)@.len() == old(opens)@.len(),
        final(kawas)@.len() == old(kawas)@.len(),
        forall|i: int| 0 <= i < final(hands)@.len() ==> (#[trigger] final(hands)@[i]).0@.len() == 0,
        forall|i: int| 0 <= i < final(opens)@.len() ==> (#[trigger] final(opens)@[i]).0@.len() == 0,
        forall|i: int| 0 <= i < final(kawas)@.len() ==> (#[trigger] final(kawas)@[i]).0@.len() == 0,
{
    let n = hands.len();
    let mut fresh: Vec<Hand> = Vec::new();
    let mut i: usize = 0;
    while i < n
        invariant
            i <= n,
            fresh@.len() == i,
            forall|j: int| 0 <= j < i ==> (#[trigger] fresh@[j]).0@.len() == 0,
        decreases n - i,
    {
        fresh.push(Hand(Vec::new()));
        i = i + 1;
    }
    *hands = fresh;
    let n = opens.len();
    let mut fresh: Vec<OpenMentsu> = Vec::new();
    let mut i: usize = 0;
    while i < n
        invariant
            i <= n,
            fresh@.len() == i,
            forall|j: int| 0 <= j < i ==> (#[trigger] fresh@[j]).0@.len() == 0,
        decreases n - i,
    {
        fresh.push(OpenMentsu(Vec::new()));
        i = i + 1;
    }
    *opens = fresh;
    let n = kawas.len();
    let mut fresh: Vec<Kawa> = Vec::new();
    let mut i: usize = 0;
    while i < n
        invariant
            i <= n,
            fresh@.len() == i,
            forall|j: int| 0 <= j < i ==> (#[trigger] fresh@[j]).0@.len() == 0,
        decreases n - i,
    {
        fresh.push(Kawa(Vec::new()));
        i = i + 1;
    }
    *kawas = fresh;
}

} // verus!
