//! The start of a round: four copies of every kind shuffled into a wall, the
//! dice rolled, and thirteen tiles dealt to each seat from the head of the
//! wall, four at a time for three rounds and then one each.

use vstd::prelude::*;
use crate::tile::{Tile, MatchPhase, all_tiles, all_tiles_seq};
use crate::table::{Wall, rinshan_max_for};
use crate::counting::push_all;
use crate::chance::roll_inclusive;

verus! {

/// The 136 tiles of a set: the 34 kinds, four times over.
pub open spec fn full_set() -> Seq<Tile> {
    all_tiles_seq() + all_tiles_seq() + all_tiles_seq() + all_tiles_seq()
}

/// The offset from the head of the wall of the `k`-th tile dealt to seat
/// `p` among `n` seats: the first twelve come in three rounds of four, seat
/// after seat, and the last one comes after those rounds.
pub open spec fn deal_offset(n: int, p: int, k: int) -> int {
    if k < 12 {
        4 * ((k / 4) * n + p) + k % 4
    } else {
        12 * n + p
    }
}

/// Every tile dealt to `n` seats lies among the first `13 * n` tiles after
/// the head of the wall.
pub proof fn lemma_deal_offset_in_range(n: int, p: int, k: int)
    requires
        1 <= n,
        0 <= p < n,
        0 <= k < 13,
    ensures
        0 <= deal_offset(n, p, k) < 13 * n,
{
    if k < 12 {
        let r = k / 4;
        let j = k % 4;
        assert(0 <= r < 3 && 0 <= j < 4);
        assert(0 <= r * n + p < 3 * n) by (nonlinear_arith)
            requires
                0 <= r < 3,
                0 <= p < n,
        ;
    }
}

/// No tile of the wall is dealt twice: two different deals, to a seat and
/// at a place in its hand, take tiles from two different places.
pub proof fn lemma_deal_offsets_distinct(n: int, p1: int, k1: int, p2: int, k2: int)
    requires
        1 <= n,
        0 <= p1 < n,
        0 <= p2 < n,
        0 <= k1 < 13,
        0 <= k2 < 13,
        p1 != p2 || k1 != k2,
    ensures
        deal_offset(n, p1, k1) != deal_offset(n, p2, k2),
{
    lemma_deal_offset_in_range(n, p1, k1);
    lemma_deal_offset_in_range(n, p2, k2);
    if k1 < 12 && k2 < 12 {
        let r1 = k1 / 4;
        let j1 = k1 % 4;
        let r2 = k2 / 4;
        let j2 = k2 % 4;
        if deal_offset(n, p1, k1) == deal_offset(n, p2, k2) {
            let a1 = r1 * n + p1;
            let a2 = r2 * n + p2;
            assert(4 * a1 + j1 == 4 * a2 + j2);
            assert(j1 == j2 && a1 == a2) by (nonlinear_arith)
                requires
                    4 * a1 + j1 == 4 * a2 + j2,
                    0 <= j1 < 4,
                    0 <= j2 < 4,
            ;
            assert(r1 == r2 && p1 == p2) by (nonlinear_arith)
                requires
                    r1 * n + p1 == r2 * n + p2,
                    0 <= p1 < n,
                    0 <= p2 < n,
                    0 <= r1,
                    0 <= r2,
            ;
            assert(k1 == 4 * r1 + j1 && k2 == 4 * r2 + j2);
        }
    } else if k1 < 12 {
        assert(0 <= (k1 / 4) * n + p1 < 3 * n) by (nonlinear_arith)
            requires
                0 <= k1 / 4 < 3,
                0 <= p1 < n,
        ;
    } else if k2 < 12 {
        assert(0 <= (k2 / 4) * n + p2 < 3 * n) by (nonlinear_arith)
            requires
                0 <= k2 / 4 < 3,
                0 <= p2 < n,
        ;
    }
}

/// A wall of a full set, shuffled, with the dice rolled (two to twelve).
pub fn new_round_wall(phase: MatchPhase) -> (w: Wall)
    ensures
        w.tiles@.to_multiset() == full_set().to_multiset(),
        w.tiles@.len() == 136,
        w.head == 0,
        w.tail == 136 - 14,
        w.dora_count == 1,
        w.rinshan_draws == 0,
        w.rinshan_max == rinshan_max_for(phase),
        2 <= w.dice_roll <= 12,
{
    let kinds = all_tiles();
    let mut tiles: Vec<Tile> = Vec::new();
    push_all(&mut tiles, kinds.as_slice());
    push_all(&mut tiles, kinds.as_slice());
    push_all(&mut tiles, kinds.as_slice());
    push_all(&mut tiles, kinds.as_slice());
    assert(tiles@ == full_set());
    let dice = roll_inclusive(2, 12);
    Wall::new(tiles, phase, dice as usize)
}

/// Deals thirteen tiles to each of `players` seats from the head of the
/// wall: `hands[p]` holds, in the order dealt, the tiles at the offsets
/// `deal_offset(players, p, k)` from the head.
pub fn deal_hands(wall: &mut Wall, players: usize) -> (hands: Vec<Vec<Tile>>)
    requires
        1 <= players <= 4,
        old(wall).head + 13 * players <= old(wall).tail <= old(wall).tiles@.len(),
    ensures
        hands@.len() == players,
        forall|p: int|
            0 <= p < players ==> (#[trigger] hands@[p])@.len() == 13,
        forall|p: int, k: int|
            0 <= p < players && 0 <= k < 13 ==> #[trigger] hands@[p]@[k] == old(wall).tiles@[old(
                wall,
            ).head + deal_offset(players as int, p, k)],
        *final(wall) == (Wall { head: (old(wall).head + 13 * players) as usize, ..*old(wall) }),
{
    let head = wall.head;
    let n = players;
    let mut hands: Vec<Vec<Tile>> = Vec::new();
    let mut p: usize = 0;
    while p < n
        invariant
            wall == old(wall),
            head == wall.head,
            n == players,
            1 <= n <= 4,
            head + 13 * n <= wall.tail <= wall.tiles@.len(),
            p <= n,
            hands@.len() == p,
            forall|q: int| 0 <= q < p ==> (#[trigger] hands@[q])@.len() == 13,
            forall|q: int, k: int|
                0 <= q < p && 0 <= k < 13 ==> #[trigger] hands@[q]@[k] == wall.tiles@[head
                    + deal_offset(n as int, q, k)],
        decreases n - p,
    {
        let mut hand: Vec<Tile> = Vec::new();
        let mut r: usize = 0;
        while r < 3
            invariant
                wall == old(wall),
                head == wall.head,
                n == players,
                1 <= n <= 4,
                p < n,
                head + 13 * n <= wall.tail <= wall.tiles@.len(),
                r <= 3,
                hand@.len() == 4 * r,
                forall|k: int| 0 <= k < hand@.len() ==> #[trigger] hand@[k] == wall.tiles@[head
                    + deal_offset(n as int, p as int, k)],
            decreases 3 - r,
        {
            assert(r * n + p < 3 * n) by (nonlinear_arith)
                requires
                    r < 3,
                    p < n,
            ;
            let base = head + 4 * (r * n + p);
            let mut j: usize = 0;
            while j < 4
                invariant
                    wall == old(wall),
                    head == wall.head,
                    n == players,
                    1 <= n <= 4,
                    p < n,
                    r < 3,
                    r * n + p < 3 * n,
                    base == head + 4 * (r * n + p),
                    head + 13 * n <= wall.tail <= wall.tiles@.len(),
                    j <= 4,
                    hand@.len() == 4 * r + j,
                    forall|k: int| 0 <= k < hand@.len() ==> #[trigger] hand@[k] == wall.tiles@[head
                        + deal_offset(n as int, p as int, k)],
                decreases 4 - j,
            {
                let ghost k = 4 * r + j;
                assert(k / 4 == r && k % 4 == j) by (nonlinear_arith)
                    requires
                        k == 4 * r + j,
                        j < 4,
                ;
                assert(deal_offset(n as int, p as int, k) == 4 * (r * n + p) + j);
                hand.push(wall.tiles[base + j]);
                j = j + 1;
            }
            r = r + 1;
        }
        assert(12 * n + p < 13 * n);
        hand.push(wall.tiles[head + 12 * n + p]);
        hands.push(hand);
        p = p + 1;
    }
    wall.head = head + 13 * n;
    hands
}

/// A fresh wall (see `new_round_wall`) with thirteen tiles dealt to each
/// of `players` seats (see `deal_hands`).
pub fn deal_round(phase: MatchPhase, players: usize) -> (out: (Wall, Vec<Vec<Tile>>))
    requires
        1 <= players <= 4,
    ensures
        out.0.tiles@.to_multiset() == full_set().to_multiset(),
        out.0.tiles@.len() == 136,
        out.0.head == 13 * players,
        out.0.tail == 136 - 14,
        out.0.dora_count == 1,
        out.0.rinshan_draws == 0,
        out.0.rinshan_max == rinshan_max_for(phase),
        2 <= out.0.dice_roll <= 12,
        out.1@.len() == players,
        forall|p: int| 0 <= p < players ==> (#[trigger] out.1@[p])@.len() == 13,
        forall|p: int, k: int|
            0 <= p < players && 0 <= k < 13 ==> #[trigger] out.1@[p]@[k] == out.0.tiles@[deal_offset(
                players as int,
                p,
                k,
            )],
{
    let mut wall = new_round_wall(phase);
    let hands = deal_hands(&mut wall, players);
    (wall, hands)
}

} // verus!
