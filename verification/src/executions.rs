//! The revolver's part in a round: the shots a round's outcome earns, firing
//! them in order until one is lethal, and accusations of cheating.

use vstd::prelude::*;
use crate::tile::MatchPhase;
use crate::scoring::{HandResult, shots_for};
use crate::table::Revolver;

verus! {

/// One pull of the trigger: `shooter` aims at `target`.
#[derive(Clone, Copy, PartialEq, Eq, Debug, Structural)]
pub struct Shot {
    pub shooter: usize,
    pub target: usize,
}

/// A winner by tsumo who picks their own targets, and how many.
#[derive(Clone, Copy, PartialEq, Eq, Debug, Structural)]
pub struct PendingSelection {
    pub shooter: usize,
    pub remaining_picks: u8,
}

/// How a round ended, for the shots: the winners with their results and
/// payouts, who dealt in (none on tsumo), and who caused an abortive draw.
pub struct RoundOutcome {
    pub winners: Vec<(usize, HandResult, u32)>,
    pub loser: Option<usize>,
    pub is_tsumo: bool,
    pub tochuu_causer: Vec<usize>,
}

pub open spec fn win_shot_count(r: HandResult) -> int {
    shots_for(r.is_yakuman, r.total_han as int)
}

/// `n` copies of a shot.
pub open spec fn repeat(s: Shot, n: int) -> Seq<Shot> {
    Seq::new(if n < 0 { 0 } else { n as nat }, |i: int| s)
}

/// The shots the first `n` winners fire at the player who dealt in: each
/// winner of a ron fires as many shots as their result earns. A tsumo
/// winner picks targets instead.
pub open spec fn ron_shots(w: Seq<(usize, HandResult, u32)>, is_tsumo: bool, loser: Option<usize>, n: int) -> Seq<Shot>
    decreases n,
{
    if n <= 0 {
        Seq::empty()
    } else {
        ron_shots(w, is_tsumo, loser, n - 1) + if !is_tsumo && loser is Some {
            repeat(Shot { shooter: w[n - 1].0, target: loser->0 }, win_shot_count(w[n - 1].1))
        } else {
            Seq::empty()
        }
    }
}

/// The dealer fires once at each of the first `n` winners whose win was
/// below two han.
pub open spec fn low_han_shots(w: Seq<(usize, HandResult, u32)>, oya: usize, n: int) -> Seq<Shot>
    decreases n,
{
    if n <= 0 {
        Seq::empty()
    } else {
        low_han_shots(w, oya, n - 1) + if !w[n - 1].1.is_yakuman && w[n - 1].1.total_han < 2 {
            seq![Shot { shooter: oya, target: w[n - 1].0 }]
        } else {
            Seq::empty()
        }
    }
}

/// Each player who caused an abortive draw takes one shot, from the player
/// who dealt in if there is one and from the dealer otherwise.
pub open spec fn tochuu_shots(causers: Seq<usize>, loser: Option<usize>, oya: usize) -> Seq<Shot> {
    let shooter = match loser {
        Some(l) => l,
        None => oya,
    };
    Seq::new(causers.len(), |i: int| Shot { shooter, target: causers[i] })
}

/// The tsumo winner (the last one that earned shots) who picks targets.
pub open spec fn selection_upto(w: Seq<(usize, HandResult, u32)>, is_tsumo: bool, n: int) -> Option<PendingSelection>
    decreases n,
{
    if n <= 0 {
        None
    } else if is_tsumo && win_shot_count(w[n - 1].1) > 0 {
        Some(PendingSelection { shooter: w[n - 1].0, remaining_picks: win_shot_count(w[n - 1].1) as u8 })
    } else {
        selection_upto(w, is_tsumo, n - 1)
    }
}

fn push_repeated(queue: &mut Vec<Shot>, s: Shot, n: u8)
    ensures
        final(queue)@ == old(queue)@ + repeat(s, n as int),
{
    let mut k: u8 = 0;
    while k < n
        invariant
            k <= n,
            queue@ == old(queue)@ + repeat(s, k as int),
        decreases n - k,
    {
        queue.push(s);
        assert(repeat(s, k + 1) == repeat(s, k as int).push(s));
        k = k + 1;
    }
}

/// The shots a round earns, in order: those of ron winners, then the low
/// han shots, then the abortive-draw shots; and the tsumo winner who picks
/// targets, if any.
pub fn build_shot_queue(outcome: &RoundOutcome, oya: usize) -> (out: (Vec<Shot>, Option<PendingSelection>))
    ensures
        out.0@ == ron_shots(outcome.winners@, outcome.is_tsumo, outcome.loser, outcome.winners@.len() as int)
            + low_han_shots(outcome.winners@, oya, outcome.winners@.len() as int) + tochuu_shots(
            outcome.tochuu_causer@,
            outcome.loser,
            oya,
        ),
        out.1 == selection_upto(outcome.winners@, outcome.is_tsumo, outcome.winners@.len() as int),
{
    let ghost w = outcome.winners@;
    let mut queue: Vec<Shot> = Vec::new();
    let mut selection: Option<PendingSelection> = None;
    let mut k: usize = 0;
    while k < outcome.winners.len()
        invariant
            k <= w.len(),
            w == outcome.winners@,
            queue@ == ron_shots(w, outcome.is_tsumo, outcome.loser, k as int),
            selection == selection_upto(w, outcome.is_tsumo, k as int),
        decreases w.len() - k,
    {
        let winner = outcome.winners[k].0;
        let shots = outcome.winners[k].1.shot_count_from_result();
        if shots > 0 {
            if outcome.is_tsumo {
                selection = Some(PendingSelection { shooter: winner, remaining_picks: shots });
            } else if let Some(loser) = outcome.loser {
                push_repeated(&mut queue, Shot { shooter: winner, target: loser }, shots);
            }
        }
        proof {
            if !(shots > 0 && !outcome.is_tsumo && outcome.loser is Some) {
                assert(queue@ =~= ron_shots(w, outcome.is_tsumo, outcome.loser, k + 1));
            }
        }
        k = k + 1;
    }
    let ghost first = queue@;
    let mut j: usize = 0;
    while j < outcome.winners.len()
        invariant
            j <= w.len(),
            w == outcome.winners@,
            queue@ == first + low_han_shots(w, oya, j as int),
        decreases w.len() - j,
    {
        if outcome.winners[j].1.is_low_han() {
            queue.push(Shot { shooter: oya, target: outcome.winners[j].0 });
        }
        proof {
            assert(queue@ =~= first + low_han_shots(w, oya, j + 1));
        }
        j = j + 1;
    }
    let ghost second = queue@;
    let shooter = match outcome.loser {
        Some(l) => l,
        None => oya,
    };
    let mut t: usize = 0;
    while t < outcome.tochuu_causer.len()
        invariant
            t <= outcome.tochuu_causer@.len(),
            queue@ == second + tochuu_shots(outcome.tochuu_causer@, outcome.loser, oya).take(t as int),
            shooter == match outcome.loser {
                Some(l) => l,
                None => oya,
            },
        decreases outcome.tochuu_causer@.len() - t,
    {
        queue.push(Shot { shooter, target: outcome.tochuu_causer[t] });
        proof {
            let ts = tochuu_shots(outcome.tochuu_causer@, outcome.loser, oya);
            assert(ts.take(t + 1) =~= ts.take(t as int).push(ts[t as int]));
        }
        t = t + 1;
    }
    proof {
        let ts = tochuu_shots(outcome.tochuu_causer@, outcome.loser, oya);
        assert(ts.take(t as int) =~= ts);
    }
    (queue, selection)
}

/// Fires the queued shots in order until one is lethal and returns its
/// position. The bullet sits `bullet - chamber` pulls ahead, so the shot at
/// that position kills, if the queue reaches it, and no other does.
pub fn fire_shots(queue: &Vec<Shot>, revolver: &mut Revolver) -> (lethal: Option<usize>)
    requires
        old(revolver).loaded(),
    ensures
        final(revolver).loaded(),
        lethal matches Some(k) ==> k == old(revolver).bullet - old(revolver).chamber && k < queue@.len(),
        lethal matches Some(k) ==> final(revolver).chamber == 1,
        lethal is None ==> queue@.len() <= old(revolver).bullet - old(revolver).chamber,
        lethal is None ==> final(revolver).chamber == old(revolver).chamber + queue@.len(),
        lethal is None ==> final(revolver).bullet == old(revolver).bullet,
{
    let mut k: usize = 0;
    while k < queue.len()
        invariant
            k <= queue@.len(),
            revolver.loaded(),
            revolver.bullet == old(revolver).bullet,
            revolver.chamber == old(revolver).chamber + k,
        decreases queue@.len() - k,
    {
        if revolver.pull() {
            return Some(k);
        }
        k = k + 1;
    }
    None
}

/// An accusation of cheating: a correct one has the accuser shoot the
/// cheater, a false one has the accused shoot the accuser.
pub open spec fn accusation_shot(accuser: usize, suspect: usize, suspect_cheated: bool) -> Shot {
    if suspect_cheated {
        Shot { shooter: accuser, target: suspect }
    } else {
        Shot { shooter: suspect, target: accuser }
    }
}

/// What follows an accusation or a queue of shots.
#[derive(Clone, Copy, PartialEq, Eq, Debug, Structural)]
pub enum AfterShot {
    /// Nobody died: the round goes on (or the next one starts).
    Continue,
    /// A player died and others remain: the match moves to its next phase.
    MatchTransition,
    /// A player died with two at the table: the game is over.
    GameOver,
}

pub open spec fn after_death(phase: MatchPhase) -> AfterShot {
    if phase == MatchPhase::Nima {
        AfterShot::GameOver
    } else {
        AfterShot::MatchTransition
    }
}

/// Settles an accusation: the shot of `accusation_shot` is fired once.
pub fn resolve_accusation(
    accuser: usize,
    suspect: usize,
    suspect_cheated: bool,
    phase: MatchPhase,
    revolver: &mut Revolver,
) -> (out: (Shot, AfterShot))
    requires
        old(revolver).loaded(),
    ensures
        out.0 == accusation_shot(accuser, suspect, suspect_cheated),
        final(revolver).loaded(),
        out.1 == if old(revolver).chamber == old(revolver).bullet {
            after_death(phase)
        } else {
            AfterShot::Continue
        },
{
    let shot = if suspect_cheated {
        Shot { shooter: accuser, target: suspect }
    } else {
        Shot { shooter: suspect, target: accuser }
    };
    if revolver.pull() {
        let next = match phase {
            MatchPhase::Nima => AfterShot::GameOver,
            _ => AfterShot::MatchTransition,
        };
        (shot, next)
    } else {
        (shot, AfterShot::Continue)
    }
}

} // verus!
