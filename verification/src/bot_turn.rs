//! What a bot does with the options of its own turn: win by tsumo, think
//! over riichi, declare a closed or added kan, or abort with nine orphans.
//! How bold the bot is comes from its temperament, which the caller turns
//! into plain yes-or-no answers.

use vstd::prelude::*;
use crate::tile::{Tile, Wind, all_valid};
use crate::table::{Hand, DeadWall};
use crate::counting::push_all;
use crate::calls::{waits, check_tenpai};
use crate::naki::without_first;
use crate::bot::{estimated_han, estimate_yaku_han};
use crate::scoring::{count_dora, dora_total};

verus! {

/// The kinds the hand waits on after discarding `d`.
pub open spec fn waits_after(full: Seq<Tile>, d: Tile) -> int {
    waits(without_first(full, d)).len() as int
}

/// The most waits any of the first `n` riichi discards leaves.
pub open spec fn max_waits_upto(full: Seq<Tile>, options: Seq<Tile>, n: int) -> int
    decreases n,
{
    if n <= 0 {
        0
    } else if waits_after(full, options[n - 1]) > max_waits_upto(full, options, n - 1) {
        waits_after(full, options[n - 1])
    } else {
        max_waits_upto(full, options, n - 1)
    }
}

/// The widest wait the riichi discards `options` leave in the hand `full`
/// (the closed hand with the drawn tile): the most kinds waited on.
pub fn best_wait_count(full_hand: &[Tile], riichi_options: &[Tile]) -> (n: usize)
    ensures
        n == max_waits_upto(full_hand@, riichi_options@, riichi_options@.len() as int),
{
    let mut best: usize = 0;
    let mut k: usize = 0;
    while k < riichi_options.len()
        invariant
            k <= riichi_options@.len(),
            best == max_waits_upto(full_hand@, riichi_options@, k as int),
        decreases riichi_options@.len() - k,
    {
        let mut tiles: Vec<Tile> = Vec::new();
        push_all(&mut tiles, full_hand);
        assert(tiles@ == full_hand@);
        let mut temp = Hand(tiles);
        temp.remove_tile_from_hand(&riichi_options[k]);
        assert(temp.0@ == without_first(full_hand@, riichi_options@[k as int]));
        let w = check_tenpai(temp.0.as_slice());
        if w.len() > best {
            best = w.len();
        }
        k = k + 1;
    }
    best
}

/// What a bot expects a riichi hand to be worth: its estimated han (see
/// `estimated_han`) and its dora.
pub fn riichi_hand_value(full_hand: &[Tile], jikaze: &Wind, bakaze: &Wind, dead_wall: &DeadWall) -> (han: u8)
    requires
        all_valid(full_hand@),
        full_hand@.len() <= 255,
        estimated_han(full_hand@, *jikaze, *bakaze) + dora_total(full_hand@, dead_wall.dora_indicators@) <= 255,
    ensures
        han == estimated_han(full_hand@, *jikaze, *bakaze) + dora_total(full_hand@, dead_wall.dora_indicators@),
{
    let est = estimate_yaku_han(full_hand, jikaze, bakaze);
    let d = count_dora(full_hand, dead_wall, false);
    est + d.dora
}

/// Whether a bot goes on to declare riichi. `too_risky` says the revolver
/// frightens it more than its boldness allows, `bold` that it dares to
/// riichi a hand of five han or more, `timid` that it shies from a cheap
/// narrow riichi against another riichi, and `very_timid` that it would
/// rather change its wait than riichi a cheap narrow hand at all.
pub open spec fn keeps_riichi(
    too_risky: bool,
    bold: bool,
    timid: bool,
    very_timid: bool,
    total_han: int,
    max_waits: int,
    someone_riichi: bool,
) -> bool {
    if too_risky {
        false
    } else if total_han >= 5 {
        bold
    } else if max_waits <= 1 {
        !(someone_riichi && timid) && !very_timid
    } else {
        true
    }
}

pub fn decide_riichi(
    too_risky: bool,
    bold: bool,
    timid: bool,
    very_timid: bool,
    total_han: u8,
    max_waits: usize,
    someone_riichi: bool,
) -> (b: bool)
    ensures
        b == keeps_riichi(too_risky, bold, timid, very_timid, total_han as int, max_waits as int, someone_riichi),
{
    if too_risky {
        false
    } else if total_han >= 5 {
        bold
    } else if max_waits <= 1 {
        !(someone_riichi && timid) && !very_timid
    } else {
        true
    }
}

/// The one thing a bot does with the options of its turn.
#[derive(Debug, Clone, Copy, PartialEq, Eq, Structural)]
pub enum MainPhaseAction {
    Tsumo,
    Riichi,
    Ankan(Tile),
    Shouminkan(Tile),
    Kyuushu,
    Pass,
}

/// A win comes first; then riichi, which the bot either declares or lets
/// pass (a passed riichi leaves the kans aside this turn); then a closed
/// kan, an added kan, and the nine-orphans abort. A kan takes the first tile
/// on offer.
pub open spec fn main_phase_choice(
    tsumo: bool,
    riichi_offered: bool,
    keeps: bool,
    ankan: Seq<Tile>,
    shouminkan: Seq<Tile>,
    kyuushu: bool,
) -> MainPhaseAction {
    if tsumo {
        MainPhaseAction::Tsumo
    } else if riichi_offered {
        if keeps {
            MainPhaseAction::Riichi
        } else {
            MainPhaseAction::Pass
        }
    } else if ankan.len() > 0 {
        MainPhaseAction::Ankan(ankan[0])
    } else if shouminkan.len() > 0 {
        MainPhaseAction::Shouminkan(shouminkan[0])
    } else if kyuushu {
        MainPhaseAction::Kyuushu
    } else {
        MainPhaseAction::Pass
    }
}

pub fn main_phase_action(
    tsumo: bool,
    riichi_offered: bool,
    keeps: bool,
    ankan: &[Tile],
    shouminkan: &[Tile],
    kyuushu: bool,
) -> (a: MainPhaseAction)
    ensures
        a == main_phase_choice(tsumo, riichi_offered, keeps, ankan@, shouminkan@, kyuushu),
{
    if tsumo {
        MainPhaseAction::Tsumo
    } else if riichi_offered {
        if keeps {
            MainPhaseAction::Riichi
        } else {
            MainPhaseAction::Pass
        }
    } else if ankan.len() > 0 {
        MainPhaseAction::Ankan(ankan[0])
    } else if shouminkan.len() > 0 {
        MainPhaseAction::Shouminkan(shouminkan[0])
    } else if kyuushu {
        MainPhaseAction::Kyuushu
    } else {
        MainPhaseAction::Pass
    }
}

} // verus!
