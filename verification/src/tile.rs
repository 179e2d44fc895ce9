//! Tiles, honors, winds, melds and the small facts about them that every
//! other module builds on.

use vstd::prelude::*;

verus! {

/// How many players are still seated: four, three or two.
#[derive(Debug, Clone, Copy, PartialEq, Eq, Structural)]
pub enum MatchPhase {
    Yonma,
    Sanma,
    Nima,
}

#[derive(PartialEq, Eq, PartialOrd, Ord, Clone, Copy, Debug, Structural)]
pub enum Honor {
    White,
    Red,
    Green,
    North,
    West,
    East,
    South,
}

/// A tile. Number tiles carry their rank; a well-formed one has a rank in
/// 1..=9 (see `valid_tile`).
#[derive(PartialEq, Eq, PartialOrd, Ord, Clone, Copy, Debug, Structural)]
pub enum Tile {
    Man(u8),
    Pin(u8),
    Sou(u8),
    Honor(Honor),
}

/// A meld or the pair of a hand. The flag of `Koutsu` and `Shuntsu` is true
/// when the set was formed in the closed hand.
#[derive(PartialEq, Eq, Clone, Copy, PartialOrd, Ord, Debug)]
pub enum Mentsu {
    Jantou([Tile; 2]),
    Koutsu([Tile; 3], bool),
    Shuntsu([Tile; 3], bool),
    Ankan([Tile; 4]),
    Daiminkan([Tile; 4]),
    Shouminkan([Tile; 4]),
}

/// The two kinds of kan that a player declares on their own draw.
#[derive(PartialEq, Eq, Clone, Copy, Debug, Structural)]
pub enum Kantsu {
    Ankan,
    Shouminkan,
}

#[derive(PartialEq, Eq, Clone, Copy, Debug, Structural)]
pub enum Wind {
    East,
    South,
    West,
    North,
}

/// Where the called tile sits in a chi: left of, between, or right of the
/// two tiles from the hand.
#[derive(PartialEq, Eq, Clone, Copy, Debug, Structural)]
pub enum ChiTilePos {
    Left,
    Middle,
    Right,
}

#[derive(Debug, Clone, Copy, PartialEq, Eq, Structural)]
pub enum Suit {
    Man,
    Pin,
    Sou,
}

/// The hand a bot is steering for when it picks a discard.
#[derive(Debug, Clone, Copy, PartialEq, Eq, Structural)]
pub enum TargetYaku {
    Speed,
    Tanyao,
    Honitsu(Suit),
    Chinitsu(Suit),
    Kokushi,
    SanshokuDoujun(u8),
    Chanta,
    Junchan,
    Pinfu,
    Ittsuu(Suit),
    Toitoi,
    Sanankou,
    Suuankou,
    Chiitoitsu,
    ChuurenPoutou(Suit),
    Daisangen,
    Tsuuiisou,
    Ryuuiisou,
}

impl Mentsu {
    /// The tiles of the meld, in the order in which they are stored.
    pub open spec fn tile_seq(self) -> Seq<Tile> {
        match self {
            Mentsu::Jantou(t) => t@,
            Mentsu::Koutsu(t, _) => t@,
            Mentsu::Shuntsu(t, _) => t@,
            Mentsu::Ankan(t) => t@,
            Mentsu::Daiminkan(t) => t@,
            Mentsu::Shouminkan(t) => t@,
        }
    }

    pub fn tiles(&self) -> (r: &[Tile])
        ensures
            r@ == self.tile_seq(),
    {
        match self {
            Mentsu::Jantou(t) => t.as_slice(),
            Mentsu::Koutsu(t, _) => t.as_slice(),
            Mentsu::Shuntsu(t, _) => t.as_slice(),
            Mentsu::Ankan(t) => t.as_slice(),
            Mentsu::Daiminkan(t) => t.as_slice(),
            Mentsu::Shouminkan(t) => t.as_slice(),
        }
    }
}

impl Wind {
    pub open spec fn honor_of(self) -> Honor {
        match self {
            Wind::East => Honor::East,
            Wind::South => Honor::South,
            Wind::West => Honor::West,
            Wind::North => Honor::North,
        }
    }

    /// Seat order: East 0, South 1, West 2, North 3.
    pub open spec fn num(self) -> int {
        match self {
            Wind::East => 0,
            Wind::South => 1,
            Wind::West => 2,
            Wind::North => 3,
        }
    }

    pub fn wind_to_honor(&self) -> (h: Honor)
        ensures
            h == self.honor_of(),
    {
        match self {
            Wind::East => Honor::East,
            Wind::South => Honor::South,
            Wind::West => Honor::West,
            Wind::North => Honor::North,
        }
    }

    pub fn to_num(self) -> (n: u8)
        ensures
            n == self.num(),
    {
        match self {
            Wind::East => 0,
            Wind::South => 1,
            Wind::West => 2,
            Wind::North => 3,
        }
    }

    /// How many seats `other` sits after `self` in turn order.
    pub fn distance_to(&self, other: &Wind) -> (d: u8)
        ensures
            d == (other.num() + 4 - self.num()) % 4,
    {
        (other.to_num() + 4 - self.to_num()) % 4
    }

    /// Whether `self` plays right after the seat of `discard_wind`, the only
    /// seat that may chi its discard.
    pub fn is_kamicha_to(&self, discard_wind: &Wind) -> (b: bool)
        ensures
            b == (self.num() == (discard_wind.num() + 1) % 4),
    {
        match (self, discard_wind) {
            (Wind::South, Wind::East) => true,
            (Wind::West, Wind::South) => true,
            (Wind::North, Wind::West) => true,
            (Wind::East, Wind::North) => true,
            _ => false,
        }
    }

    pub fn next_turn_wind(&self) -> (w: Wind)
        ensures
            w.num() == (self.num() + 1) % 4,
    {
        match self {
            Wind::East => Wind::South,
            Wind::South => Wind::West,
            Wind::West => Wind::North,
            Wind::North => Wind::East,
        }
    }

    /// The seat wind a player takes when the dealer moves on.
    pub fn next_round_wind(&self) -> (w: Wind)
        ensures
            w.num() == (self.num() + 3) % 4,
    {
        match self {
            Wind::East => Wind::North,
            Wind::South => Wind::East,
            Wind::West => Wind::South,
            Wind::North => Wind::West,
        }
    }
}

/// Number tiles must carry a rank in 1..=9.
pub open spec fn valid_tile(t: Tile) -> bool {
    match t {
        Tile::Man(n) => 1 <= n <= 9,
        Tile::Pin(n) => 1 <= n <= 9,
        Tile::Sou(n) => 1 <= n <= 9,
        Tile::Honor(_) => true,
    }
}

pub open spec fn all_valid(s: Seq<Tile>) -> bool {
    forall|i: int| 0 <= i < s.len() ==> valid_tile(#[trigger] s[i])
}

pub open spec fn terminal(t: Tile) -> bool {
    match t {
        Tile::Man(n) => n == 1 || n == 9,
        Tile::Pin(n) => n == 1 || n == 9,
        Tile::Sou(n) => n == 1 || n == 9,
        Tile::Honor(_) => false,
    }
}

pub open spec fn honor_tile(t: Tile) -> bool {
    t is Honor
}

pub open spec fn yaochuu(t: Tile) -> bool {
    terminal(t) || honor_tile(t)
}

pub open spec fn green_tile(t: Tile) -> bool {
    match t {
        Tile::Sou(n) => n == 2 || n == 3 || n == 4 || n == 6 || n == 8,
        Tile::Honor(h) => h == Honor::Green,
        _ => false,
    }
}

pub open spec fn dragon(t: Tile) -> bool {
    t == Tile::Honor(Honor::White) || t == Tile::Honor(Honor::Green) || t == Tile::Honor(
        Honor::Red,
    )
}

pub fn is_terminal(tile: &Tile) -> (b: bool)
    ensures
        b == terminal(*tile),
{
    match tile {
        Tile::Man(n) => *n == 1 || *n == 9,
        Tile::Pin(n) => *n == 1 || *n == 9,
        Tile::Sou(n) => *n == 1 || *n == 9,
        Tile::Honor(_) => false,
    }
}

pub fn is_honor(tile: &Tile) -> (b: bool)
    ensures
        b == honor_tile(*tile),
{
    match tile {
        Tile::Honor(_) => true,
        _ => false,
    }
}

pub fn is_yaochuuhai(tile: &Tile) -> (b: bool)
    ensures
        b == yaochuu(*tile),
{
    is_terminal(tile) || is_honor(tile)
}

pub fn is_green(tile: &Tile) -> (b: bool)
    ensures
        b == green_tile(*tile),
{
    match tile {
        Tile::Sou(n) => *n == 2 || *n == 3 || *n == 4 || *n == 6 || *n == 8,
        Tile::Honor(Honor::Green) => true,
        _ => false,
    }
}

/// Position of a honor in the frequency array, after the 27 number tiles.
pub open spec fn honor_offset(h: Honor) -> int {
    match h {
        Honor::East => 0,
        Honor::South => 1,
        Honor::West => 2,
        Honor::North => 3,
        Honor::White => 4,
        Honor::Green => 5,
        Honor::Red => 6,
    }
}

/// Position of a tile in the 34-slot frequency array.
pub open spec fn index_of(t: Tile) -> int {
    match t {
        Tile::Man(n) => n - 1,
        Tile::Pin(n) => n - 1 + 9,
        Tile::Sou(n) => n - 1 + 18,
        Tile::Honor(h) => 27 + honor_offset(h),
    }
}

/// The tile at a position of the frequency array.
pub open spec fn tile_of(i: int) -> Tile {
    if 0 <= i <= 8 {
        Tile::Man((i + 1) as u8)
    } else if 9 <= i <= 17 {
        Tile::Pin((i - 8) as u8)
    } else if 18 <= i <= 26 {
        Tile::Sou((i - 17) as u8)
    } else if i == 27 {
        Tile::Honor(Honor::East)
    } else if i == 28 {
        Tile::Honor(Honor::South)
    } else if i == 29 {
        Tile::Honor(Honor::West)
    } else if i == 30 {
        Tile::Honor(Honor::North)
    } else if i == 31 {
        Tile::Honor(Honor::White)
    } else if i == 32 {
        Tile::Honor(Honor::Green)
    } else {
        Tile::Honor(Honor::Red)
    }
}

pub fn tile_to_index(tile: &Tile) -> (r: usize)
    requires
        valid_tile(*tile),
    ensures
        r == index_of(*tile),
        r < 34,
{
    match tile {
        Tile::Man(n) => (*n - 1) as usize,
        Tile::Pin(n) => (*n - 1) as usize + 9,
        Tile::Sou(n) => (*n - 1) as usize + 18,
        Tile::Honor(h) => 27 + match h {
            Honor::East => 0,
            Honor::South => 1,
            Honor::West => 2,
            Honor::North => 3,
            Honor::White => 4,
            Honor::Green => 5,
            Honor::Red => 6,
        },
    }
}

pub fn index_to_tile(index: usize) -> (t: Tile)
    requires
        index < 34,
    ensures
        t == tile_of(index as int),
        valid_tile(t),
{
    if index <= 8 {
        Tile::Man((index + 1) as u8)
    } else if index <= 17 {
        Tile::Pin((index - 8) as u8)
    } else if index <= 26 {
        Tile::Sou((index - 17) as u8)
    } else if index == 27 {
        Tile::Honor(Honor::East)
    } else if index == 28 {
        Tile::Honor(Honor::South)
    } else if index == 29 {
        Tile::Honor(Honor::West)
    } else if index == 30 {
        Tile::Honor(Honor::North)
    } else if index == 31 {
        Tile::Honor(Honor::White)
    } else if index == 32 {
        Tile::Honor(Honor::Green)
    } else {
        Tile::Honor(Honor::Red)
    }
}

/// Tile indices and tiles correspond one to one: a valid tile comes back
/// from its index, and an index in 0..34 comes back from its tile.
pub proof fn lemma_index_round_trip(t: Tile, i: int)
    ensures
        valid_tile(t) ==> 0 <= index_of(t) < 34 && tile_of(index_of(t)) == t,
        0 <= i < 34 ==> valid_tile(tile_of(i)) && index_of(tile_of(i)) == i,
{
}

/// The k-th of the 34 kinds in the order `all_tiles` lists them: for each
/// rank 1..=9 the man, pin and sou tile, then East, South, West, North,
/// White, Green, Red.
pub open spec fn all_tiles_at(k: int) -> Tile {
    if k < 27 {
        let n = (k / 3 + 1) as u8;
        if k % 3 == 0 {
            Tile::Man(n)
        } else if k % 3 == 1 {
            Tile::Pin(n)
        } else {
            Tile::Sou(n)
        }
    } else if k == 27 {
        Tile::Honor(Honor::East)
    } else if k == 28 {
        Tile::Honor(Honor::South)
    } else if k == 29 {
        Tile::Honor(Honor::West)
    } else if k == 30 {
        Tile::Honor(Honor::North)
    } else if k == 31 {
        Tile::Honor(Honor::White)
    } else if k == 32 {
        Tile::Honor(Honor::Green)
    } else {
        Tile::Honor(Honor::Red)
    }
}

/// Every well-formed tile is one of the 34 kinds that `all_tiles` lists; the
/// result is its place in that list.
pub proof fn lemma_valid_tile_listed(t: Tile) -> (k: int)
    requires
        valid_tile(t),
    ensures
        0 <= k < 34,
        all_tiles_at(k) == t,
{
    match t {
        Tile::Man(n) => {
            let k = 3 * (n - 1);
            assert(k / 3 == n - 1 && k % 3 == 0) by (nonlinear_arith)
                requires
                    k == 3 * (n - 1),
                    1 <= n <= 9,
            ;
            k
        },
        Tile::Pin(n) => {
            let k = 3 * (n - 1) + 1;
            assert(k / 3 == n - 1 && k % 3 == 1) by (nonlinear_arith)
                requires
                    k == 3 * (n - 1) + 1,
                    1 <= n <= 9,
            ;
            k
        },
        Tile::Sou(n) => {
            let k = 3 * (n - 1) + 2;
            assert(k / 3 == n - 1 && k % 3 == 2) by (nonlinear_arith)
                requires
                    k == 3 * (n - 1) + 2,
                    1 <= n <= 9,
            ;
            k
        },
        Tile::Honor(h) => match h {
            Honor::East => 27,
            Honor::South => 28,
            Honor::West => 29,
            Honor::North => 30,
            Honor::White => 31,
            Honor::Green => 32,
            Honor::Red => 33,
        },
    }
}

pub open spec fn all_tiles_seq() -> Seq<Tile> {
    Seq::new(34, |k: int| all_tiles_at(k))
}

/// One tile of each of the 34 kinds.
pub fn all_tiles() -> (tiles: Vec<Tile>)
    ensures
        tiles@ == all_tiles_seq(),
{
    let mut tiles: Vec<Tile> = Vec::new();
    let mut n: u8 = 1;
    while n <= 9
        invariant
            1 <= n <= 10,
            tiles@.len() == 3 * (n - 1),
            forall|k: int| 0 <= k < tiles@.len() ==> #[trigger] tiles@[k] == all_tiles_at(k),
        decreases 10 - n,
    {
        tiles.push(Tile::Man(n));
        tiles.push(Tile::Pin(n));
        tiles.push(Tile::Sou(n));
        n = n + 1;
    }
    tiles.push(Tile::Honor(Honor::East));
    tiles.push(Tile::Honor(Honor::South));
    tiles.push(Tile::Honor(Honor::West));
    tiles.push(Tile::Honor(Honor::North));
    tiles.push(Tile::Honor(Honor::White));
    tiles.push(Tile::Honor(Honor::Green));
    tiles.push(Tile::Honor(Honor::Red));
    assert(tiles@ =~= all_tiles_seq());
    tiles
}

pub open spec fn next_of(t: Tile) -> Option<Tile> {
    match t {
        Tile::Man(n) => if n < 9 { Some(Tile::Man((n + 1) as u8)) } else { None },
        Tile::Pin(n) => if n < 9 { Some(Tile::Pin((n + 1) as u8)) } else { None },
        Tile::Sou(n) => if n < 9 { Some(Tile::Sou((n + 1) as u8)) } else { None },
        Tile::Honor(_) => None,
    }
}

pub open spec fn prev_of(t: Tile) -> Option<Tile> {
    match t {
        Tile::Man(n) => if n > 1 { Some(Tile::Man((n - 1) as u8)) } else { None },
        Tile::Pin(n) => if n > 1 { Some(Tile::Pin((n - 1) as u8)) } else { None },
        Tile::Sou(n) => if n > 1 { Some(Tile::Sou((n - 1) as u8)) } else { None },
        Tile::Honor(_) => None,
    }
}

pub fn next_tile_sequence(tile: &Tile) -> (r: Option<Tile>)
    ensures
        r == next_of(*tile),
{
    match tile {
        Tile::Man(n) => if *n < 9 { Some(Tile::Man(*n + 1)) } else { None },
        Tile::Pin(n) => if *n < 9 { Some(Tile::Pin(*n + 1)) } else { None },
        Tile::Sou(n) => if *n < 9 { Some(Tile::Sou(*n + 1)) } else { None },
        Tile::Honor(_) => None,
    }
}

pub fn previous_tile_sequence(tile: &Tile) -> (r: Option<Tile>)
    ensures
        r == prev_of(*tile),
{
    match tile {
        Tile::Man(n) => if *n > 1 { Some(Tile::Man(*n - 1)) } else { None },
        Tile::Pin(n) => if *n > 1 { Some(Tile::Pin(*n - 1)) } else { None },
        Tile::Sou(n) => if *n > 1 { Some(Tile::Sou(*n - 1)) } else { None },
        Tile::Honor(_) => None,
    }
}

/// For a valid tile, stepping up then down (or down then up) in a suit gives
/// the tile back.
pub proof fn lemma_next_prev_inverse(t: Tile)
    requires
        valid_tile(t),
    ensures
        next_of(t) is Some ==> prev_of(next_of(t)->0) == Some(t),
        prev_of(t) is Some ==> next_of(prev_of(t)->0) == Some(t),
{
}

} // verus!
