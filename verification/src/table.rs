//! What lies on the table: a player's hand, melds, discards and waits, the
//! wall with its dead wall, and the revolver.

use vstd::prelude::*;
use crate::tile::{Tile, Mentsu, Wind, MatchPhase};
use crate::decompose::first_from;
use crate::chance::{shuffle_tiles, roll_inclusive};

verus! {

/// The closed tiles of a player.
pub struct Hand(pub Vec<Tile>);

/// The melds a player has called or declared.
pub struct OpenMentsu(pub Vec<Mentsu>);

/// A player's discard pond, oldest first.
pub struct Kawa(pub Vec<Tile>);

/// The tiles a player in tenpai waits on.
pub struct Tenpai(pub Vec<Tile>);

/// A player's seat wind.
pub struct Jikaze(pub Wind);

pub struct Points(pub i32);

/// Indicator tiles taken from the dead wall, together with the tiles kept
/// there for replacement draws and later indicators.
pub struct DeadWall {
    pub dora_indicators: Vec<Tile>,
    pub ura_indicators: Vec<Tile>,
    pub rinshan_tiles: Vec<Tile>,
    pub filler_tiles: Vec<Tile>,
}

impl Hand {
    /// Removes the first copy of `target`, if the hand holds one.
    pub fn remove_tile_from_hand(&mut self, target: &Tile)
        ensures
            first_from(old(self).0@, *target, 0) == -1 ==> final(self).0@ == old(self).0@,
            first_from(old(self).0@, *target, 0) != -1 ==> final(self).0@ == old(self).0@.remove(
                first_from(old(self).0@, *target, 0),
            ),
    {
        let mut k: usize = 0;
        while k < self.0.len()
            invariant
                k <= self.0@.len(),
                self.0@ == old(self).0@,
                first_from(self.0@, *target, 0) == first_from(self.0@, *target, k as int),
            decreases self.0@.len() - k,
        {
            if self.0[k] == *target {
                self.0.remove(k);
                return;
            }
            k = k + 1;
        }
    }
}

/// The live wall and the dead wall as one shuffled row of tiles. Draws come
/// from `head`; `tail` marks where the dead wall begins and moves back by one
/// for each replacement draw. The dead wall holds `rinshan_max` replacement
/// tiles and then the indicators, dora and ura-dora side by side.
pub struct Wall {
    pub tiles: Vec<Tile>,
    pub head: usize,
    pub tail: usize,
    pub dora_count: usize,
    pub rinshan_draws: usize,
    pub rinshan_max: usize,
    pub dice_roll: usize,
}

/// Replacement tiles kept in the dead wall: four with four players, eight
/// with fewer (the north tiles set aside also draw from it).
pub open spec fn rinshan_max_for(phase: MatchPhase) -> usize {
    match phase {
        MatchPhase::Yonma => 4,
        MatchPhase::Sanma => 8,
        MatchPhase::Nima => 8,
    }
}

impl Wall {
    /// Whether the indicator tiles that are turned over lie inside the row.
    pub open spec fn indicators_in_range(&self) -> bool {
        &&& self.tiles@.len() >= 14
        &&& self.tiles@.len() - 14 + self.rinshan_max + 2 * self.dora_count <= self.tiles@.len()
    }

    /// Where the dead wall's indicators begin.
    pub open spec fn indicator_base(&self) -> int {
        self.tiles@.len() - 14 + self.rinshan_max
    }

    pub open spec fn remaining(&self) -> int {
        if self.tail >= self.head {
            self.tail - self.head
        } else {
            0
        }
    }

    /// Shuffles the 136 tiles and lays out a fresh wall: nothing drawn, one
    /// dora indicator turned, the last 14 tiles set aside as the dead wall.
    pub fn new(tiles: Vec<Tile>, phase: MatchPhase, dice_roll: usize) -> (w: Self)
        ensures
            w.tiles@.to_multiset() == tiles@.to_multiset(),
            w.tiles@.len() == tiles@.len(),
            w.head == 0,
            w.tail == 136 - 14,
            w.dora_count == 1,
            w.rinshan_draws == 0,
            w.rinshan_max == rinshan_max_for(phase),
            w.dice_roll == dice_roll,
    {
        let mut tiles = tiles;
        shuffle_tiles(&mut tiles);
        let rinshan_max = match phase {
            MatchPhase::Yonma => 4,
            MatchPhase::Sanma | MatchPhase::Nima => 8,
        };
        Wall {
            tiles,
            head: 0,
            tail: 136 - 14,
            dora_count: 1,
            rinshan_draws: 0,
            rinshan_max,
            dice_roll,
        }
    }

    /// The next live tile, or nothing once the live wall is used up.
    pub fn draw(&mut self) -> (t: Option<Tile>)
        requires
            old(self).head < old(self).tail ==> old(self).head < old(self).tiles@.len(),
        ensures
            old(self).head >= old(self).tail ==> t is None && *final(self) == *old(self),
            old(self).head < old(self).tail ==> t == Some(old(self).tiles@[old(self).head as int])
                && *final(self) == (Wall { head: (old(self).head + 1) as usize, ..*old(self) }),
    {
        if self.head >= self.tail {
            return None;
        }
        let tile = self.tiles[self.head];
        self.head = self.head + 1;
        Some(tile)
    }

    /// A replacement tile from the front of the dead wall, or nothing once
    /// all replacement tiles are used. The live wall gives up its last tile
    /// to keep the dead wall at fourteen.
    pub fn rinshan_draw(&mut self) -> (t: Option<Tile>)
        requires
            old(self).tiles@.len() >= 14,
            old(self).rinshan_max <= 14,
            old(self).rinshan_draws < old(self).rinshan_max ==> old(self).tail >= 1,
        ensures
            old(self).rinshan_draws >= old(self).rinshan_max ==> t is None && *final(self) == *old(
                self,
            ),
            old(self).rinshan_draws < old(self).rinshan_max ==> t == Some(
                old(self).tiles@[old(self).tiles@.len() - 14 + old(self).rinshan_draws],
            ) && *final(self) == (Wall {
                rinshan_draws: (old(self).rinshan_draws + 1) as usize,
                tail: (old(self).tail - 1) as usize,
                ..*old(self)
            }),
    {
        if self.rinshan_draws >= self.rinshan_max {
            return None;
        }
        let idx = self.tiles.len() - 14 + self.rinshan_draws;
        let tile = self.tiles[idx];
        self.rinshan_draws = self.rinshan_draws + 1;
        self.tail = self.tail - 1;
        Some(tile)
    }

    /// The dora indicators turned so far, first one first.
    pub fn get_dora_indicators(&self) -> (dora: Vec<Tile>)
        requires
            self.indicators_in_range(),
        ensures
            dora@.len() == self.dora_count,
            forall|i: int|
                0 <= i < self.dora_count ==> #[trigger] dora@[i] == self.tiles@[self.indicator_base()
                    + 2 * i],
    {
        let mut dora: Vec<Tile> = Vec::new();
        let base_idx = self.tiles.len() - 14 + self.rinshan_max;
        let mut i: usize = 0;
        while i < self.dora_count
            invariant
                self.indicators_in_range(),
                base_idx == self.indicator_base(),
                base_idx + 2 * self.dora_count <= self.tiles.len(),
                i <= self.dora_count,
                dora@.len() == i,
                forall|k: int| 0 <= k < i ==> #[trigger] dora@[k] == self.tiles@[base_idx + 2 * k],
            decreases self.dora_count - i,
        {
            let off: usize = i * 2;
            let idx: usize = base_idx + off;
            dora.push(self.tiles[idx]);
            i = i + 1;
        }
        dora
    }

    /// The ura-dora indicators under the turned dora indicators.
    pub fn get_ura_indicators(&self) -> (ura: Vec<Tile>)
        requires
            self.indicators_in_range(),
        ensures
            ura@.len() == self.dora_count,
            forall|i: int|
                0 <= i < self.dora_count ==> #[trigger] ura@[i] == self.tiles@[self.indicator_base()
                    + 2 * i + 1],
    {
        let mut ura: Vec<Tile> = Vec::new();
        let base_idx = self.tiles.len() - 14 + self.rinshan_max;
        let mut i: usize = 0;
        while i < self.dora_count
            invariant
                self.indicators_in_range(),
                base_idx == self.indicator_base(),
                base_idx + 2 * self.dora_count <= self.tiles.len(),
                i <= self.dora_count,
                ura@.len() == i,
                forall|k: int| 0 <= k < i ==> #[trigger] ura@[k] == self.tiles@[base_idx + 2 * k + 1],
            decreases self.dora_count - i,
        {
            let off: usize = i * 2;
            let idx: usize = base_idx + off + 1;
            ura.push(self.tiles[idx]);
            i = i + 1;
        }
        ura
    }

    /// Live tiles left to draw.
    pub fn remaining_draws(&self) -> (n: usize)
        ensures
            n == self.remaining(),
    {
        if self.tail >= self.head {
            self.tail - self.head
        } else {
            0
        }
    }
}

/// The revolver of the game: one bullet in one of six chambers; `chamber` is
/// the chamber that the next pull fires.
pub struct Revolver {
    pub bullet: u8,
    pub chamber: u8,
}

impl Revolver {
    /// A revolver that has not passed its bullet yet.
    pub open spec fn loaded(&self) -> bool {
        1 <= self.chamber <= self.bullet <= 6
    }

    /// A freshly loaded revolver: the bullet in a chamber from 1 to 6, the
    /// first chamber up next.
    pub fn new() -> (r: Self)
        ensures
            r.loaded(),
            r.chamber == 1,
    {
        Revolver { bullet: roll_inclusive(1, 6), chamber: 1 }
    }

    /// Pulls the trigger. It fires exactly when the current chamber holds the
    /// bullet; then the revolver is reloaded, otherwise the next chamber comes
    /// up.
    pub fn pull(&mut self) -> (fired: bool)
        requires
            old(self).loaded(),
        ensures
            fired == (old(self).chamber == old(self).bullet),
            final(self).loaded(),
            fired ==> final(self).chamber == 1,
            !fired ==> final(self).chamber == old(self).chamber + 1 && final(self).bullet == old(
                self,
            ).bullet,
    {
        let fired = self.chamber == self.bullet;
        if fired {
            *self = Revolver::new();
        } else {
            self.chamber = self.chamber + 1;
        }
        fired
    }
}

/// A loaded revolver fires within six pulls: each pull that does not fire
/// moves the chamber up by one and keeps the bullet where it is (see `pull`),
/// and at most five chambers lie before the bullet.
pub proof fn lemma_revolver_fires_within_six(r: Revolver)
    requires
        r.loaded(),
    ensures
        0 <= r.bullet - r.chamber <= 5,
{
}

} // verus!
