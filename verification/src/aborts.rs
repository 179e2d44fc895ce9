//! Abortive draws: three rons at once, four identical wind discards, four
//! riichi, and four kans spread over several players.

use vstd::prelude::*;
use crate::tile::{Tile, Mentsu};

verus! {

/// Sanchahou: every player but the discarder declares ron, at a table of
/// three or more.
pub fn sanchahou(ron_winners: usize, player_count: usize) -> (b: bool)
    requires
        player_count >= 1,
    ensures
        b == (ron_winners == player_count - 1 && player_count > 2),
{
    ron_winners == player_count - 1 && player_count > 2
}

pub open spec fn is_wind_tile(t: Tile) -> bool {
    t matches Tile::Honor(h) && (h == crate::tile::Honor::East || h == crate::tile::Honor::South || h
        == crate::tile::Honor::West || h == crate::tile::Honor::North)
}

/// Suufon renda: with no call made, every pond holds exactly one tile, the
/// same wind for all.
pub open spec fn four_winds_discarded(calls_made: bool, ponds: Seq<Vec<Tile>>) -> bool {
    &&& !calls_made
    &&& forall|i: int| 0 <= i < ponds.len() ==> (#[trigger] ponds[i])@.len() == 1
    &&& is_wind_tile(ponds[0]@[0])
    &&& forall|i: int| 0 <= i < ponds.len() ==> (#[trigger] ponds[i])@[0] == ponds[0]@[0]
}

pub fn suufon_renda(calls_made: bool, ponds: &Vec<Vec<Tile>>) -> (b: bool)
    requires
        ponds@.len() >= 1,
    ensures
        b == four_winds_discarded(calls_made, ponds@),
{
    if calls_made {
        return false;
    }
    let mut k: usize = 0;
    while k < ponds.len()
        invariant
            k <= ponds@.len(),
            forall|i: int| 0 <= i < k ==> (#[trigger] ponds@[i])@.len() == 1,
        decreases ponds@.len() - k,
    {
        if ponds[k].len() != 1 {
            return false;
        }
        k = k + 1;
    }
    let first = ponds[0][0];
    let wind = match first {
        Tile::Honor(crate::tile::Honor::East) => true,
        Tile::Honor(crate::tile::Honor::South) => true,
        Tile::Honor(crate::tile::Honor::West) => true,
        Tile::Honor(crate::tile::Honor::North) => true,
        _ => false,
    };
    if !wind {
        return false;
    }
    let mut j: usize = 0;
    while j < ponds.len()
        invariant
            j <= ponds@.len(),
            forall|i: int| 0 <= i < ponds@.len() ==> (#[trigger] ponds@[i])@.len() == 1,
            first == ponds@[0]@[0],
            forall|i: int| 0 <= i < j ==> (#[trigger] ponds@[i])@[0] == first,
        decreases ponds@.len() - j,
    {
        if ponds[j][0] != first {
            return false;
        }
        j = j + 1;
    }
    true
}

/// Suucha riichi: all four players are in riichi.
pub fn suucha_riichi(riichi_count: usize) -> (b: bool)
    ensures
        b == (riichi_count == 4),
{
    riichi_count == 4
}

pub open spec fn is_kan(m: Mentsu) -> bool {
    m is Ankan || m is Daiminkan || m is Shouminkan
}

/// How many of the first `n` melds are kans.
pub open spec fn kans_in(ms: Seq<Mentsu>, n: int) -> int
    decreases n,
{
    if n <= 0 {
        0
    } else {
        kans_in(ms, n - 1) + if is_kan(ms[n - 1]) {
            1int
        } else {
            0
        }
    }
}

/// Over the first `n` players: how many hold a kan, and how many kans there
/// are in all.
pub open spec fn kan_tally(opens: Seq<Vec<Mentsu>>, n: int) -> (int, int)
    decreases n,
{
    if n <= 0 {
        (0, 0)
    } else {
        let (p, t) = kan_tally(opens, n - 1);
        let k = kans_in(opens[n - 1]@, opens[n - 1]@.len() as int);
        (p + if k > 0 {
            1int
        } else {
            0
        }, t + k)
    }
}

proof fn lemma_kans_in_le(ms: Seq<Mentsu>, n: int)
    requires
        0 <= n <= ms.len(),
    ensures
        0 <= kans_in(ms, n) <= n,
    decreases n,
{
    if n > 0 {
        lemma_kans_in_le(ms, n - 1);
    }
}

fn count_kans(ms: &Vec<Mentsu>) -> (n: usize)
    ensures
        n == kans_in(ms@, ms@.len() as int),
{
    let mut n: usize = 0;
    let mut k: usize = 0;
    while k < ms.len()
        invariant
            k <= ms@.len(),
            n == kans_in(ms@, k as int),
            n <= k,
        decreases ms@.len() - k,
    {
        let kan = match &ms[k] {
            Mentsu::Ankan(_) => true,
            Mentsu::Daiminkan(_) => true,
            Mentsu::Shouminkan(_) => true,
            _ => false,
        };
        if kan {
            n = n + 1;
        }
        k = k + 1;
    }
    n
}

/// The players who hold a kan and the kans in play (see `kan_tally`); a
/// table has at most four players and each at most four kans.
pub fn player_and_total_kan_count(opens: &Vec<Vec<Mentsu>>) -> (out: (u8, u8))
    requires
        opens@.len() <= 4,
        forall|i: int| 0 <= i < opens@.len() ==> (#[trigger] opens@[i])@.len() <= 4,
    ensures
        out.0 as int == kan_tally(opens@, opens@.len() as int).0,
        out.1 as int == kan_tally(opens@, opens@.len() as int).1,
{
    let mut players: u8 = 0;
    let mut total: u8 = 0;
    let mut k: usize = 0;
    while k < opens.len()
        invariant
            k <= opens@.len() <= 4,
            forall|i: int| 0 <= i < opens@.len() ==> (#[trigger] opens@[i])@.len() <= 4,
            players as int == kan_tally(opens@, k as int).0,
            total as int == kan_tally(opens@, k as int).1,
            players <= k,
            total <= 4 * k,
        decreases opens@.len() - k,
    {
        let n = count_kans(&opens[k]);
        proof {
            lemma_kans_in_le(opens@[k as int]@, opens@[k as int]@.len() as int);
        }
        if n > 0 {
            players = players + 1;
        }
        total = total + n as u8;
        k = k + 1;
    }
    (players, total)
}

/// Suukaikan: four kans or more, held by more than one player.
pub fn suukaikan(players_with_kan: u8, total_kan: u8) -> (b: bool)
    ensures
        b == (total_kan >= 4 && players_with_kan > 1),
{
    total_kan >= 4 && players_with_kan > 1
}

} // verus!
