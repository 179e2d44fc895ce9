//! What a bot reads off the table before it discards: how many copies of
//! each kind it can see, which seats threaten it, and which honors are dead.

use vstd::prelude::*;
use crate::tile::{Tile, Mentsu, all_valid, tile_of, index_to_tile};
use crate::counting::{freq_seq, meld_tiles, push_all, combine_tiles, tiles_to_frequency_array, kinds_fit};

verus! {

/// What the table shows of one seat.
pub struct SeatView {
    pub open: Vec<Mentsu>,
    pub kawa: Vec<Tile>,
    pub is_riichi: bool,
    /// The seat of the player who reads the table.
    pub is_self: bool,
}

/// A seat threatens when it is in riichi or has called three melds.
pub open spec fn threatens(s: SeatView) -> bool {
    s.is_riichi || s.open@.len() >= 3
}

/// The tiles the first `n` seats show: the melds of the other seats, and
/// every pond (the reader's own included).
pub open spec fn shown_upto(seats: Seq<SeatView>, n: int) -> Seq<Tile>
    decreases n,
{
    if n <= 0 {
        Seq::empty()
    } else {
        shown_upto(seats, n - 1) + (if seats[n - 1].is_self {
            Seq::empty()
        } else {
            meld_tiles(seats[n - 1].open@)
        }) + seats[n - 1].kawa@
    }
}

/// The ponds of the threatening seats among the first `n`, seat after seat.
pub open spec fn threat_discards_upto(seats: Seq<SeatView>, n: int) -> Seq<Tile>
    decreases n,
{
    if n <= 0 {
        Seq::empty()
    } else {
        threat_discards_upto(seats, n - 1) + if threatens(seats[n - 1]) {
            seats[n - 1].kawa@
        } else {
            Seq::empty()
        }
    }
}

/// Everything the table shows: the seats, then the dora indicators.
pub open spec fn table_tiles(seats: Seq<SeatView>, dora_indicators: Seq<Tile>) -> Seq<Tile> {
    shown_upto(seats, seats.len() as int) + dora_indicators
}

/// What the reader learns: the copies of each kind in sight, whether any
/// seat threatens, and the ponds of the threatening seats.
pub struct TableRead {
    pub visible: [u8; 34],
    pub is_threat: bool,
    pub threat_discards: Vec<Tile>,
}

pub fn read_table(seats: &[SeatView], dora_indicators: &[Tile]) -> (r: TableRead)
    requires
        all_valid(table_tiles(seats@, dora_indicators@)),
        kinds_fit(table_tiles(seats@, dora_indicators@)),
    ensures
        r.visible@ == freq_seq(table_tiles(seats@, dora_indicators@)),
        r.is_threat == exists|i: int| 0 <= i < seats@.len() && threatens(#[trigger] seats@[i]),
        r.threat_discards@ == threat_discards_upto(seats@, seats@.len() as int),
{
    let mut shown: Vec<Tile> = Vec::new();
    let mut threat_discards: Vec<Tile> = Vec::new();
    let mut is_threat = false;
    let no_tiles: Vec<Tile> = Vec::new();
    let mut k: usize = 0;
    while k < seats.len()
        invariant
            k <= seats@.len(),
            no_tiles@ == Seq::<Tile>::empty(),
            shown@ == shown_upto(seats@, k as int),
            threat_discards@ == threat_discards_upto(seats@, k as int),
            is_threat == exists|i: int| 0 <= i < k && threatens(#[trigger] seats@[i]),
        decreases seats@.len() - k,
    {
        let seat = &seats[k];
        let ghost before = shown@;
        if !seat.is_self {
            let melds = combine_tiles(no_tiles.as_slice(), seat.open.as_slice());
            assert(melds@ == meld_tiles(seat.open@));
            push_all(&mut shown, melds.as_slice());
        } else {
            assert(shown@ == before + Seq::<Tile>::empty());
        }
        push_all(&mut shown, seat.kawa.as_slice());
        let threat = seat.is_riichi || seat.open.len() >= 3;
        if threat {
            push_all(&mut threat_discards, seat.kawa.as_slice());
            is_threat = true;
        } else {
            assert(threat_discards@ == threat_discards@ + Seq::<Tile>::empty());
        }
        k = k + 1;
    }
    push_all(&mut shown, dora_indicators);
    let visible = tiles_to_frequency_array(shown.as_slice());
    TableRead { visible, is_threat, threat_discards }
}

/// The honors among the first `n` of which three copies or more are in
/// sight, East first.
pub open spec fn dead_honors_upto(visible: Seq<u8>, n: int) -> Seq<Tile>
    decreases n,
{
    if n <= 0 {
        Seq::empty()
    } else {
        dead_honors_upto(visible, n - 1) + if visible[27 + n - 1] >= 3 {
            seq![tile_of(27 + n - 1)]
        } else {
            Seq::empty()
        }
    }
}

pub fn dead_honors(visible: &[u8; 34]) -> (out: Vec<Tile>)
    ensures
        out@ == dead_honors_upto(visible@, 7),
{
    let mut out: Vec<Tile> = Vec::new();
    let mut k: usize = 0;
    while k < 7
        invariant
            k <= 7,
            out@ == dead_honors_upto(visible@, k as int),
        decreases 7 - k,
    {
        if visible[27 + k] >= 3 {
            out.push(index_to_tile(27 + k));
        } else {
            assert(out@ == out@ + Seq::<Tile>::empty());
        }
        k = k + 1;
    }
    out
}

} // verus!
