//! Carrying out calls and finding the options of the player on turn: a pon
//! or chi taken into the open melds with the tiles it then forbids
//! discarding, the discards that keep a hand tenpai for riichi, and the
//! closed and added kans on offer.

use vstd::prelude::*;
use crate::tile::{Tile, Mentsu, ChiTilePos, next_of, prev_of, next_tile_sequence, previous_tile_sequence};
use crate::counting::{count_tile, count_of, contains_tile};
use crate::decompose::first_from;
use crate::calls::{waits, check_tenpai, can_declare_kan_from_pon, pon_of};
use crate::table::{Hand, OpenMentsu, Tenpai};

verus! {

/// The sequence with its first copy of `t` taken out (unchanged if there is
/// none).
pub open spec fn without_first(s: Seq<Tile>, t: Tile) -> Seq<Tile> {
    if first_from(s, t, 0) == -1 {
        s
    } else {
        s.remove(first_from(s, t, 0))
    }
}

/// Taking the first copy of a held tile out of a sequence takes exactly that
/// tile out of its multiset.
pub proof fn lemma_without_first_multiset(s: Seq<Tile>, t: Tile)
    requires
        s.contains(t),
    ensures
        without_first(s, t).to_multiset() == s.to_multiset().remove(t),
{
    crate::decompose::lemma_first_from(s, t, 0);
    let i = first_from(s, t, 0);
    if i == -1 {
        let k = choose|k: int| 0 <= k < s.len() && s[k] == t;
        assert(s[k] != t);
    }
    vstd::seq_lib::to_multiset_remove(s, i);
}

/// How many copies of `t` a sequence holds is how many its multiset holds.
pub proof fn lemma_count_tile_multiset(s: Seq<Tile>, t: Tile)
    ensures
        count_tile(s, t) == s.to_multiset().count(t),
    decreases s.len(),
{
    broadcast use vstd::multiset::group_multiset_axioms;

    if s.len() > 0 {
        lemma_count_tile_multiset(s.drop_last(), t);
        vstd::seq_lib::to_multiset_build(s.drop_last(), s.last());
        assert(s.drop_last().push(s.last()) == s);
    } else {
        vstd::seq_lib::to_multiset_len(s);
        vstd::multiset::lemma_multiset_empty_len(s.to_multiset());
    }
}

/// Pon: two tiles of the kind leave the hand, an open triplet joins the
/// melds, and the same kind may not be discarded this turn.
pub fn apply_pon(hand: &mut Hand, open_mentsu: &mut OpenMentsu, tile: Tile) -> (forbidden: Vec<Tile>)
    requires
        count_tile(old(hand).0@, tile) >= 2,
    ensures
        final(hand).0@ == without_first(without_first(old(hand).0@, tile), tile),
        final(open_mentsu).0@ == old(open_mentsu).0@.push(Mentsu::Koutsu([tile, tile, tile], false)),
        forbidden@ == seq![tile],
{
    open_mentsu.0.push(Mentsu::Koutsu([tile, tile, tile], false));
    hand.remove_tile_from_hand(&tile);
    hand.remove_tile_from_hand(&tile);
    let mut forbidden: Vec<Tile> = Vec::new();
    forbidden.push(tile);
    forbidden
}

/// The tiles of the two that a chi takes from the hand, and the run it
/// forms, by position of the called tile.
pub open spec fn chi_needs(t: Tile, pos: ChiTilePos) -> bool {
    match pos {
        ChiTilePos::Middle => prev_of(t) is Some && next_of(t) is Some,
        ChiTilePos::Left => next_of(t) is Some && next_of(next_of(t)->0) is Some,
        ChiTilePos::Right => prev_of(t) is Some && prev_of(prev_of(t)->0) is Some,
    }
}

/// The open run a chi forms.
pub open spec fn chi_run(t: Tile, pos: ChiTilePos) -> Mentsu {
    match pos {
        ChiTilePos::Middle => Mentsu::Shuntsu([prev_of(t)->0, t, next_of(t)->0], false),
        ChiTilePos::Left => Mentsu::Shuntsu([t, next_of(t)->0, next_of(next_of(t)->0)->0], false),
        ChiTilePos::Right => Mentsu::Shuntsu([prev_of(prev_of(t)->0)->0, prev_of(t)->0, t], false),
    }
}

/// The hand after a chi: the two run tiles from the hand are taken out, the
/// higher first for a middle chi, the nearer first otherwise.
pub open spec fn chi_hand(h: Seq<Tile>, t: Tile, pos: ChiTilePos) -> Seq<Tile> {
    match pos {
        ChiTilePos::Middle => without_first(without_first(h, next_of(t)->0), prev_of(t)->0),
        ChiTilePos::Left => without_first(without_first(h, next_of(t)->0), next_of(next_of(t)->0)->0),
        ChiTilePos::Right => without_first(without_first(h, prev_of(t)->0), prev_of(prev_of(t)->0)->0),
    }
}

/// The discards a chi forbids this turn (kuikae): the called tile after a
/// middle chi; otherwise the called kind if the hand still holds it, and
/// the tile that would extend the run at its far end, if there is one.
pub open spec fn chi_forbidden(h: Seq<Tile>, t: Tile, pos: ChiTilePos) -> Seq<Tile> {
    match pos {
        ChiTilePos::Middle => seq![t],
        ChiTilePos::Left => (if h.contains(t) {
            seq![t]
        } else {
            Seq::empty()
        }) + match next_of(next_of(next_of(t)->0)->0) {
            Some(n) => seq![n],
            None => Seq::empty(),
        },
        ChiTilePos::Right => (if h.contains(t) {
            seq![t]
        } else {
            Seq::empty()
        }) + match prev_of(prev_of(prev_of(t)->0)->0) {
            Some(p) => seq![p],
            None => Seq::empty(),
        },
    }
}

/// Chi on `tile` at `pos` (see `chi_run`, `chi_hand`, `chi_forbidden`).
pub fn apply_chi(hand: &mut Hand, open_mentsu: &mut OpenMentsu, tile: Tile, pos: ChiTilePos) -> (forbidden: Vec<Tile>)
    requires
        chi_needs(tile, pos),
    ensures
        final(hand).0@ == chi_hand(old(hand).0@, tile, pos),
        final(open_mentsu).0@ == old(open_mentsu).0@.push(chi_run(tile, pos)),
        forbidden@ == chi_forbidden(old(hand).0@, tile, pos),
{
    let mut forbidden: Vec<Tile> = Vec::new();
    match pos {
        ChiTilePos::Middle => {
            let next = next_tile_sequence(&tile).unwrap();
            let prev = previous_tile_sequence(&tile).unwrap();
            hand.remove_tile_from_hand(&next);
            hand.remove_tile_from_hand(&prev);
            open_mentsu.0.push(Mentsu::Shuntsu([prev, tile, next], false));
            forbidden.push(tile);
        },
        ChiTilePos::Left => {
            let next = next_tile_sequence(&tile).unwrap();
            let next_next = next_tile_sequence(&next).unwrap();
            if contains_tile(hand.0.as_slice(), &tile) {
                forbidden.push(tile);
            }
            if let Some(n) = next_tile_sequence(&next_next) {
                forbidden.push(n);
            }
            hand.remove_tile_from_hand(&next);
            hand.remove_tile_from_hand(&next_next);
            open_mentsu.0.push(Mentsu::Shuntsu([tile, next, next_next], false));
        },
        ChiTilePos::Right => {
            let prev = previous_tile_sequence(&tile).unwrap();
            let prev_prev = previous_tile_sequence(&prev).unwrap();
            if contains_tile(hand.0.as_slice(), &tile) {
                forbidden.push(tile);
            }
            if let Some(p) = previous_tile_sequence(&prev_prev) {
                forbidden.push(p);
            }
            hand.remove_tile_from_hand(&prev);
            hand.remove_tile_from_hand(&prev_prev);
            open_mentsu.0.push(Mentsu::Shuntsu([prev_prev, prev, tile], false));
        },
    }
    assert(forbidden@ =~= chi_forbidden(old(hand).0@, tile, pos));
    forbidden
}

/// A pon moves tiles and makes none: the hand after it and the new triplet
/// hold together the tiles of the hand before it and the called tile.
pub proof fn lemma_pon_keeps_the_tiles(h: Seq<Tile>, t: Tile)
    requires
        count_tile(h, t) >= 2,
    ensures
        (without_first(without_first(h, t), t) + Mentsu::Koutsu([t, t, t], false).tile_seq()).to_multiset()
            == h.push(t).to_multiset(),
{
    broadcast use vstd::multiset::group_multiset_axioms, vstd::seq_lib::lemma_multiset_commutative;

    let h1 = without_first(h, t);
    lemma_count_tile_multiset(h, t);
    vstd::seq_lib::to_multiset_contains(h, t);
    lemma_without_first_multiset(h, t);
    vstd::seq_lib::to_multiset_contains(h1, t);
    lemma_without_first_multiset(h1, t);
    let run = Mentsu::Koutsu([t, t, t], false).tile_seq();
    assert(run == seq![t, t, t]);
    let e = Seq::<Tile>::empty();
    assert(run == e.push(t).push(t).push(t));
    vstd::seq_lib::to_multiset_build(e, t);
    vstd::seq_lib::to_multiset_build(e.push(t), t);
    vstd::seq_lib::to_multiset_build(e.push(t).push(t), t);
    vstd::seq_lib::to_multiset_build(h, t);
    assert(e.to_multiset() =~= vstd::multiset::Multiset::empty()) by {
        vstd::seq_lib::to_multiset_len(e);
        vstd::multiset::lemma_multiset_empty_len(e.to_multiset());
    }
    assert((without_first(h1, t) + run).to_multiset() =~= h.push(t).to_multiset());
}

/// The two tiles of the hand a chi takes, by position of the called tile.
pub open spec fn chi_takes(t: Tile, pos: ChiTilePos) -> (Tile, Tile) {
    match pos {
        ChiTilePos::Middle => (next_of(t)->0, prev_of(t)->0),
        ChiTilePos::Left => (next_of(t)->0, next_of(next_of(t)->0)->0),
        ChiTilePos::Right => (prev_of(t)->0, prev_of(prev_of(t)->0)->0),
    }
}

/// A chi moves tiles and makes none: when the hand holds the two tiles the
/// run needs, the hand after it and the new run hold together the tiles of
/// the hand before it and the called tile.
pub proof fn lemma_chi_keeps_the_tiles(h: Seq<Tile>, t: Tile, pos: ChiTilePos)
    requires
        chi_needs(t, pos),
        h.contains(chi_takes(t, pos).0),
        without_first(h, chi_takes(t, pos).0).contains(chi_takes(t, pos).1),
    ensures
        (chi_hand(h, t, pos) + chi_run(t, pos).tile_seq()).to_multiset() == h.push(t).to_multiset(),
{
    broadcast use vstd::multiset::group_multiset_axioms, vstd::seq_lib::lemma_multiset_commutative;

    let (a, b) = chi_takes(t, pos);
    let h1 = without_first(h, a);
    lemma_without_first_multiset(h, a);
    lemma_without_first_multiset(h1, b);
    vstd::seq_lib::to_multiset_contains(h, a);
    vstd::seq_lib::to_multiset_contains(h1, b);
    assert(chi_hand(h, t, pos) == without_first(h1, b));
    let run = chi_run(t, pos).tile_seq();
    let e = Seq::<Tile>::empty();
    assert(e.to_multiset() =~= vstd::multiset::Multiset::empty()) by {
        vstd::seq_lib::to_multiset_len(e);
        vstd::multiset::lemma_multiset_empty_len(e.to_multiset());
    }
    vstd::seq_lib::to_multiset_build(h, t);
    match pos {
        ChiTilePos::Middle => {
            assert(run == e.push(b).push(t).push(a));
            vstd::seq_lib::to_multiset_build(e, b);
            vstd::seq_lib::to_multiset_build(e.push(b), t);
            vstd::seq_lib::to_multiset_build(e.push(b).push(t), a);
        },
        ChiTilePos::Left => {
            assert(run == e.push(t).push(a).push(b));
            vstd::seq_lib::to_multiset_build(e, t);
            vstd::seq_lib::to_multiset_build(e.push(t), a);
            vstd::seq_lib::to_multiset_build(e.push(t).push(a), b);
        },
        ChiTilePos::Right => {
            assert(run == e.push(b).push(a).push(t));
            vstd::seq_lib::to_multiset_build(e, b);
            vstd::seq_lib::to_multiset_build(e.push(b), a);
            vstd::seq_lib::to_multiset_build(e.push(b).push(a), t);
        },
    }
    assert((without_first(h1, b) + run).to_multiset() =~= h.push(t).to_multiset());
}

/// Riichi may be offered to a closed hand not yet in riichi, holding 1000
/// points for the stick, with at least four draws left in the wall.
pub fn riichi_allowed(is_riichi: bool, is_closed: bool, points: i32, remaining_draws: usize) -> (b: bool)
    ensures
        b == (!is_riichi && is_closed && points >= 1000 && remaining_draws >= 4),
{
    !is_riichi && is_closed && points >= 1000 && remaining_draws >= 4
}

/// Over the first `n` positions of the fourteen tiles: each kind (at its
/// first position) whose discard leaves a hand with waits.
pub open spec fn riichi_discards_upto(full: Seq<Tile>, n: int) -> Seq<Tile>
    decreases n,
{
    if n <= 0 {
        Seq::empty()
    } else {
        riichi_discards_upto(full, n - 1) + if !full.take(n - 1).contains(full[n - 1]) && waits(
            full.remove(n - 1),
        ).len() > 0 {
            seq![full[n - 1]]
        } else {
            Seq::empty()
        }
    }
}

fn seen_before(s: &Vec<Tile>, d: usize) -> (b: bool)
    requires
        d < s@.len(),
    ensures
        b == s@.take(d as int).contains(s@[d as int]),
{
    let mut k: usize = 0;
    while k < d
        invariant
            k <= d < s@.len(),
            forall|i: int| 0 <= i < k ==> s@[i] != s@[d as int],
        decreases d - k,
    {
        if s[k] == s[d] {
            assert(s@.take(d as int)[k as int] == s@[d as int]);
            return true;
        }
        k = k + 1;
    }
    assert forall|i: int| 0 <= i < s@.take(d as int).len() implies s@.take(d as int)[i] != s@[d as int] by {
        assert(s@.take(d as int)[i] == s@[i]);
    }
    false
}

/// The tiles a riichi may be declared with: the discards after which the
/// hand is tenpai, each kind once, in hand order.
pub fn riichi_discards(full_hand: &Vec<Tile>) -> (valid: Vec<Tile>)
    ensures
        valid@ == riichi_discards_upto(full_hand@, full_hand@.len() as int),
{
    let mut valid: Vec<Tile> = Vec::new();
    let mut i: usize = 0;
    while i < full_hand.len()
        invariant
            i <= full_hand@.len(),
            valid@ == riichi_discards_upto(full_hand@, i as int),
        decreases full_hand@.len() - i,
    {
        if !seen_before(full_hand, i) {
            let mut remaining = full_hand.clone();
            assert(remaining@ == full_hand@);
            remaining.remove(i);
            let w = check_tenpai(remaining.as_slice());
            if w.len() > 0 {
                valid.push(full_hand[i]);
            }
        }
        proof {
            assert(valid@ =~= riichi_discards_upto(full_hand@, i + 1));
        }
        i = i + 1;
    }
    valid
}

/// The sequence without any copy of `t`.
pub open spec fn drop_kind(s: Seq<Tile>, t: Tile) -> Seq<Tile>
    decreases s.len(),
{
    if s.len() == 0 {
        Seq::empty()
    } else if s.last() == t {
        drop_kind(s.drop_last(), t)
    } else {
        drop_kind(s.drop_last(), t).push(s.last())
    }
}

fn without_kind(s: &Vec<Tile>, t: &Tile) -> (r: Vec<Tile>)
    ensures
        r@ == drop_kind(s@, *t),
{
    let mut r: Vec<Tile> = Vec::new();
    let mut k: usize = 0;
    while k < s.len()
        invariant
            k <= s@.len(),
            r@ == drop_kind(s@.take(k as int), *t),
        decreases s@.len() - k,
    {
        assert(s@.take(k + 1).drop_last() == s@.take(k as int));
        if s[k] != *t {
            r.push(s[k]);
        }
        k = k + 1;
    }
    assert(s@.take(k as int) == s@);
    r
}

fn same_tiles(a: &Vec<Tile>, b: &Vec<Tile>) -> (eq: bool)
    ensures
        eq == (a@ == b@),
{
    if a.len() != b.len() {
        return false;
    }
    let mut k: usize = 0;
    while k < a.len()
        invariant
            k <= a@.len() == b@.len(),
            forall|i: int| 0 <= i < k ==> a@[i] == b@[i],
        decreases a@.len() - k,
    {
        if a[k] != b[k] {
            return false;
        }
        k = k + 1;
    }
    assert(a@ =~= b@);
    true
}

/// A closed kan of kind `t` is on offer when the fourteen tiles hold four of
/// it and, for a player in riichi whose waits are known, the waits without
/// the four stay the same.
pub open spec fn ankan_ok(full: Seq<Tile>, t: Tile, is_riichi: bool, tenpai: Option<Seq<Tile>>) -> bool {
    count_tile(full, t) == 4 && !(is_riichi && tenpai is Some && waits(drop_kind(full, t)) != tenpai->0)
}

/// Over the first `n` positions: each kind (at its first position) that can
/// be declared as a closed kan.
pub open spec fn ankan_upto(full: Seq<Tile>, is_riichi: bool, tenpai: Option<Seq<Tile>>, n: int) -> Seq<Tile>
    decreases n,
{
    if n <= 0 {
        Seq::empty()
    } else {
        ankan_upto(full, is_riichi, tenpai, n - 1) + if !full.take(n - 1).contains(full[n - 1]) && ankan_ok(
            full,
            full[n - 1],
            is_riichi,
            tenpai,
        ) {
            seq![full[n - 1]]
        } else {
            Seq::empty()
        }
    }
}

pub open spec fn tenpai_view(t: Option<&Tenpai>) -> Option<Seq<Tile>> {
    match t {
        Some(x) => Some(x.0@),
        None => None,
    }
}

/// The closed kans on offer, each kind once in hand order; none once four
/// kans are on the table.
pub fn ankan_options(full_hand: &Vec<Tile>, is_riichi: bool, tenpai: Option<&Tenpai>, total_kans: u8) -> (kan_tiles: Vec<Tile>)
    ensures
        kan_tiles@ == if total_kans >= 4 {
            Seq::empty()
        } else {
            ankan_upto(full_hand@, is_riichi, tenpai_view(tenpai), full_hand@.len() as int)
        },
{
    let mut kan_tiles: Vec<Tile> = Vec::new();
    if total_kans >= 4 {
        return kan_tiles;
    }
    let mut i: usize = 0;
    while i < full_hand.len()
        invariant
            i <= full_hand@.len(),
            kan_tiles@ == ankan_upto(full_hand@, is_riichi, tenpai_view(tenpai), i as int),
        decreases full_hand@.len() - i,
    {
        let tile = full_hand[i];
        if !seen_before(full_hand, i) && count_of(full_hand.as_slice(), &tile) == 4 {
            let mut ok = true;
            if is_riichi {
                if let Some(tp) = tenpai {
                    let remaining = without_kind(full_hand, &tile);
                    let new_waits = check_tenpai(remaining.as_slice());
                    if !same_tiles(&new_waits, &tp.0) {
                        ok = false;
                    }
                }
            }
            if ok {
                kan_tiles.push(tile);
            }
        }
        proof {
            assert(kan_tiles@ =~= ankan_upto(full_hand@, is_riichi, tenpai_view(tenpai), i + 1));
        }
        i = i + 1;
    }
    kan_tiles
}

/// Over the first `n` tiles: each kind (once) that an open triplet can be
/// raised to a kan with.
pub open spec fn shouminkan_upto(full: Seq<Tile>, open: Seq<Mentsu>, n: int) -> Seq<Tile>
    decreases n,
{
    if n <= 0 {
        Seq::empty()
    } else {
        let prev = shouminkan_upto(full, open, n - 1);
        if (exists|i: int| 0 <= i < open.len() && pon_of(#[trigger] open[i], full[n - 1])) && !prev.contains(
            full[n - 1],
        ) {
            prev.push(full[n - 1])
        } else {
            prev
        }
    }
}

/// The added kans on offer; none once four kans are on the table.
pub fn shouminkan_options(full_hand: &Vec<Tile>, open_mentsu: &OpenMentsu, total_kans: u8) -> (kan_tiles: Vec<Tile>)
    ensures
        kan_tiles@ == if total_kans >= 4 {
            Seq::empty()
        } else {
            shouminkan_upto(full_hand@, open_mentsu.0@, full_hand@.len() as int)
        },
{
    let mut kan_tiles: Vec<Tile> = Vec::new();
    if total_kans >= 4 {
        return kan_tiles;
    }
    let mut i: usize = 0;
    while i < full_hand.len()
        invariant
            i <= full_hand@.len(),
            kan_tiles@ == shouminkan_upto(full_hand@, open_mentsu.0@, i as int),
        decreases full_hand@.len() - i,
    {
        let tile = full_hand[i];
        if can_declare_kan_from_pon(open_mentsu.0.as_slice(), &tile) && !contains_tile(kan_tiles.as_slice(), &tile) {
            kan_tiles.push(tile);
        }
        i = i + 1;
    }
    kan_tiles
}

} // verus!
