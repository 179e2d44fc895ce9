//! Questions about a list of melds: which sets it holds, and what kind of
//! wait the winning tile completed.

use vstd::prelude::*;
use crate::tile::{Tile, Mentsu, terminal, is_terminal};

verus! {

/// Equality of melds, decided field by field.
pub fn same_mentsu(a: &Mentsu, b: &Mentsu) -> (r: bool)
    ensures
        r == (*a == *b),
{
    match (a, b) {
        (Mentsu::Jantou(x), Mentsu::Jantou(y)) => {
            let r = x[0] == y[0] && x[1] == y[1];
            proof {
                if r {
                    assert(*x =~= *y);
                }
            }
            r
        },
        (Mentsu::Koutsu(x, c), Mentsu::Koutsu(y, d)) => {
            let r = x[0] == y[0] && x[1] == y[1] && x[2] == y[2] && *c == *d;
            proof {
                if r {
                    assert(*x =~= *y);
                }
            }
            r
        },
        (Mentsu::Shuntsu(x, c), Mentsu::Shuntsu(y, d)) => {
            let r = x[0] == y[0] && x[1] == y[1] && x[2] == y[2] && *c == *d;
            proof {
                if r {
                    assert(*x =~= *y);
                }
            }
            r
        },
        (Mentsu::Ankan(x), Mentsu::Ankan(y)) => {
            let r = x[0] == y[0] && x[1] == y[1] && x[2] == y[2] && x[3] == y[3];
            proof {
                if r {
                    assert(*x =~= *y);
                }
            }
            r
        },
        (Mentsu::Daiminkan(x), Mentsu::Daiminkan(y)) => {
            let r = x[0] == y[0] && x[1] == y[1] && x[2] == y[2] && x[3] == y[3];
            proof {
                if r {
                    assert(*x =~= *y);
                }
            }
            r
        },
        (Mentsu::Shouminkan(x), Mentsu::Shouminkan(y)) => {
            let r = x[0] == y[0] && x[1] == y[1] && x[2] == y[2] && x[3] == y[3];
            proof {
                if r {
                    assert(*x =~= *y);
                }
            }
            r
        },
        _ => false,
    }
}

/// The first tile of a meld.
pub open spec fn first_tile(m: Mentsu) -> Tile {
    m.tile_seq()[0]
}

pub open spec fn is_run_from(m: Mentsu, t: Tile) -> bool {
    m matches Mentsu::Shuntsu(x, _) && x[0] == t
}

/// A triplet or any kind of kan whose tile is `t`.
pub open spec fn is_set_of(m: Mentsu, t: Tile) -> bool {
    match m {
        Mentsu::Koutsu(x, _) => x[0] == t,
        Mentsu::Ankan(x) => x[0] == t,
        Mentsu::Daiminkan(x) => x[0] == t,
        Mentsu::Shouminkan(x) => x[0] == t,
        _ => false,
    }
}

pub open spec fn is_pair_of(m: Mentsu, t: Tile) -> bool {
    m matches Mentsu::Jantou(x) && x[0] == t
}

pub open spec fn has_run_from(r: Seq<Mentsu>, t: Tile) -> bool {
    exists|i: int| 0 <= i < r.len() && is_run_from(#[trigger] r[i], t)
}

pub open spec fn has_set_of(r: Seq<Mentsu>, t: Tile) -> bool {
    exists|i: int| 0 <= i < r.len() && is_set_of(#[trigger] r[i], t)
}

pub open spec fn has_pair_of(r: Seq<Mentsu>, t: Tile) -> bool {
    exists|i: int| 0 <= i < r.len() && is_pair_of(#[trigger] r[i], t)
}

/// Whether a run of the result starts with `first_tile`.
pub fn has_shuntsu(result: &[Mentsu], first_tile: Tile) -> (b: bool)
    ensures
        b == has_run_from(result@, first_tile),
{
    let mut k: usize = 0;
    while k < result.len()
        invariant
            k <= result@.len(),
            forall|i: int| 0 <= i < k ==> !is_run_from(#[trigger] result@[i], first_tile),
        decreases result@.len() - k,
    {
        if let Mentsu::Shuntsu(tiles, _) = &result[k] {
            if tiles[0] == first_tile {
                return true;
            }
        }
        k = k + 1;
    }
    false
}

/// Whether the result holds a triplet or kan of `first_tile`.
pub fn has_koutsu_or_kan(result: &[Mentsu], first_tile: Tile) -> (b: bool)
    ensures
        b == has_set_of(result@, first_tile),
{
    let mut k: usize = 0;
    while k < result.len()
        invariant
            k <= result@.len(),
            forall|i: int| 0 <= i < k ==> !is_set_of(#[trigger] result@[i], first_tile),
        decreases result@.len() - k,
    {
        let hit = match &result[k] {
            Mentsu::Koutsu(tiles, _) => tiles[0] == first_tile,
            Mentsu::Ankan(tiles) => tiles[0] == first_tile,
            Mentsu::Daiminkan(tiles) => tiles[0] == first_tile,
            Mentsu::Shouminkan(tiles) => tiles[0] == first_tile,
            _ => false,
        };
        if hit {
            return true;
        }
        k = k + 1;
    }
    false
}

/// Whether the pair of the result is made of `target_tile`.
pub fn has_jantou(result: &[Mentsu], target_tile: Tile) -> (b: bool)
    ensures
        b == has_pair_of(result@, target_tile),
{
    let mut k: usize = 0;
    while k < result.len()
        invariant
            k <= result@.len(),
            forall|i: int| 0 <= i < k ==> !is_pair_of(#[trigger] result@[i], target_tile),
        decreases result@.len() - k,
    {
        if let Mentsu::Jantou(tiles) = &result[k] {
            if tiles[0] == target_tile {
                return true;
            }
        }
        k = k + 1;
    }
    false
}

pub open spec fn is_seven(t: Tile) -> bool {
    t == Tile::Man(7) || t == Tile::Pin(7) || t == Tile::Sou(7)
}

pub open spec fn is_three(t: Tile) -> bool {
    t == Tile::Man(3) || t == Tile::Pin(3) || t == Tile::Sou(3)
}

/// A two-sided wait: the winning tile completed the run at its low end
/// (not a 7, which would make 7-8-9 an edge wait) or at its high end (not a
/// 3, which would make 1-2-3 an edge wait).
pub open spec fn ryanmen(s: Seq<Tile>, w: Tile) -> bool {
    if s[0] == w {
        !is_seven(w)
    } else if s[2] == w {
        !is_three(w)
    } else {
        false
    }
}

pub fn is_ryanmen_wait(shuntsu_tiles: &[Tile], winning_tile: &Tile) -> (b: bool)
    requires
        shuntsu_tiles@.len() >= 3,
    ensures
        b == ryanmen(shuntsu_tiles@, *winning_tile),
{
    if shuntsu_tiles[0] == *winning_tile {
        !(*winning_tile == Tile::Man(7) || *winning_tile == Tile::Pin(7) || *winning_tile
            == Tile::Sou(7))
    } else if shuntsu_tiles[2] == *winning_tile {
        !(*winning_tile == Tile::Man(3) || *winning_tile == Tile::Pin(3) || *winning_tile
            == Tile::Sou(3))
    } else {
        false
    }
}

/// An edge wait: the winning tile is the low end of a run ending in a
/// terminal (7 of 7-8-9) or the high end of a run starting with one (3 of
/// 1-2-3).
pub open spec fn penchan_in(m: Mentsu, w: Tile) -> bool {
    match m {
        Mentsu::Shuntsu(x, _) => (x[0] == w && terminal(x[2])) || (x[2] == w && terminal(x[0])),
        _ => false,
    }
}

pub open spec fn kanchan_in(m: Mentsu, w: Tile) -> bool {
    m matches Mentsu::Shuntsu(x, _) && x[1] == w
}

pub open spec fn penchan(r: Seq<Mentsu>, w: Tile) -> bool {
    exists|i: int| 0 <= i < r.len() && penchan_in(#[trigger] r[i], w)
}

pub open spec fn kanchan(r: Seq<Mentsu>, w: Tile) -> bool {
    exists|i: int| 0 <= i < r.len() && kanchan_in(#[trigger] r[i], w)
}

pub open spec fn tanki(r: Seq<Mentsu>, w: Tile) -> bool {
    has_pair_of(r, w)
}

pub fn is_penchan_wait(result: &[Mentsu], winning_tile: &Tile) -> (b: bool)
    ensures
        b == penchan(result@, *winning_tile),
{
    let mut k: usize = 0;
    while k < result.len()
        invariant
            k <= result@.len(),
            forall|i: int| 0 <= i < k ==> !penchan_in(#[trigger] result@[i], *winning_tile),
        decreases result@.len() - k,
    {
        if let Mentsu::Shuntsu(tiles, _) = &result[k] {
            if (tiles[0] == *winning_tile && is_terminal(&tiles[2])) || (tiles[2] == *winning_tile
                && is_terminal(&tiles[0])) {
                return true;
            }
        }
        k = k + 1;
    }
    false
}

pub fn is_kanchan_wait(result: &[Mentsu], winning_tile: &Tile) -> (b: bool)
    ensures
        b == kanchan(result@, *winning_tile),
{
    let mut k: usize = 0;
    while k < result.len()
        invariant
            k <= result@.len(),
            forall|i: int| 0 <= i < k ==> !kanchan_in(#[trigger] result@[i], *winning_tile),
        decreases result@.len() - k,
    {
        if let Mentsu::Shuntsu(tiles, _) = &result[k] {
            if tiles[1] == *winning_tile {
                return true;
            }
        }
        k = k + 1;
    }
    false
}

pub fn is_tanki_wait(result: &[Mentsu], winning_tile: &Tile) -> (b: bool)
    ensures
        b == tanki(result@, *winning_tile),
{
    has_jantou(result, *winning_tile)
}

} // verus!
