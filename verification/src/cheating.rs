//! A bot that cheats in the dark swaps one of its tiles for a tile lying in
//! a pond. It weighs every swap, pond by pond, tile by tile of the pond and
//! of its hand, by how its hand would then stand, and keeps the swaps that
//! stand best, if they beat leaving the hand alone.

use vstd::prelude::*;
use crate::tile::{Tile, Mentsu, all_valid, valid_tile};
use crate::counting::{freq_seq, meld_tiles, combine_tiles, tiles_to_frequency_array, push_all, sort_tiles, sort_seq};
use crate::shanten::{shanten_of, ukeire_upto, calculate_shanten_from_array, ukeire_tiles};
use crate::scoring::dora_total;
use crate::bot::{unseen_total, unseen_count, lemma_ukeire_below_34};
use crate::bot_calls::dora_in;

verus! {

/// Taking the tile at `kawa_idx` of the pond of `seat` and leaving there the
/// tile at `hand_idx` of the hand.
#[derive(Clone, Copy, PartialEq, Eq, Debug, Structural)]
pub struct Swap {
    pub seat: usize,
    pub kawa_idx: usize,
    pub taken: Tile,
    pub hand_idx: usize,
    pub given: Tile,
}

/// How a hand stands: its shanten, then its unseen advancing tiles, then its
/// dora; fewer shanten, more advancing tiles and more dora stand better.
#[derive(Clone, Copy, PartialEq, Eq, Debug, Structural)]
pub struct Standing {
    pub shanten: i32,
    pub ukeire: i32,
    pub dora: i32,
}

/// The standing as a key that is lower the better the hand stands.
pub open spec fn standing_key(s: Standing) -> (int, int, int) {
    (s.shanten as int, -s.ukeire, -s.dora)
}

/// The key of the hand `hand` with the melds `open`, given the copies of
/// each kind in sight and the dora indicators.
pub open spec fn standing_of(hand: Seq<Tile>, open: Seq<Mentsu>, vis: Seq<u8>, inds: Seq<Tile>) -> (
    int,
    int,
    int,
) {
    let c = hand + meld_tiles(open);
    let f = freq_seq(c);
    let sh = shanten_of(f);
    let uke = ukeire_upto(f, sh, 34);
    (sh, -unseen_total(uke, f, vis, uke.len() as int), -(dora_total(c, inds) as int))
}

/// Lexicographic order on keys.
pub open spec fn key_less(a: (int, int, int), b: (int, int, int)) -> bool {
    a.0 < b.0 || (a.0 == b.0 && (a.1 < b.1 || (a.1 == b.1 && a.2 < b.2)))
}

/// The key of the hand after a swap.
pub open spec fn swap_key(s: Swap, full: Seq<Tile>, open: Seq<Mentsu>, vis: Seq<u8>, inds: Seq<Tile>) -> (
    int,
    int,
    int,
) {
    standing_of(full.update(s.hand_idx as int, s.taken), open, vis, inds)
}

/// The swaps of the tile at `ki` of a pond with each tile of the hand.
pub open spec fn kawa_row(kawa: Seq<Tile>, seat: int, ki: int, full: Seq<Tile>) -> Seq<Swap> {
    Seq::new(
        full.len(),
        |hi: int|
            Swap {
                seat: seat as usize,
                kawa_idx: ki as usize,
                taken: kawa[ki],
                hand_idx: hi as usize,
                given: full[hi],
            },
    )
}

/// The swaps with the first `n` tiles of a pond.
pub open spec fn pond_swaps(kawa: Seq<Tile>, seat: int, full: Seq<Tile>, n: int) -> Seq<Swap>
    decreases n,
{
    if n <= 0 {
        Seq::empty()
    } else {
        pond_swaps(kawa, seat, full, n - 1) + kawa_row(kawa, seat, n - 1, full)
    }
}

/// The swaps with the ponds of the first `n` seats.
pub open spec fn table_swaps(kawas: Seq<Vec<Tile>>, full: Seq<Tile>, n: int) -> Seq<Swap>
    decreases n,
{
    if n <= 0 {
        Seq::empty()
    } else {
        table_swaps(kawas, full, n - 1) + pond_swaps(kawas[n - 1]@, n - 1, full, kawas[n - 1]@.len() as int)
    }
}

/// One swap weighed: a better key starts the list anew, an equal key that
/// beats the hand as it stands (`base`) joins it.
pub open spec fn weigh(
    st: ((int, int, int), Seq<Swap>),
    c: Swap,
    full: Seq<Tile>,
    open: Seq<Mentsu>,
    vis: Seq<u8>,
    inds: Seq<Tile>,
    base: (int, int, int),
) -> ((int, int, int), Seq<Swap>) {
    let k = swap_key(c, full, open, vis, inds);
    if key_less(k, st.0) {
        (k, seq![c])
    } else if k == st.0 && key_less(k, base) {
        (st.0, st.1.push(c))
    } else {
        st
    }
}

/// The swaps `cands` weighed in turn from the state `st`.
pub open spec fn weigh_all(
    st: ((int, int, int), Seq<Swap>),
    cands: Seq<Swap>,
    full: Seq<Tile>,
    open: Seq<Mentsu>,
    vis: Seq<u8>,
    inds: Seq<Tile>,
    base: (int, int, int),
) -> ((int, int, int), Seq<Swap>)
    decreases cands.len(),
{
    if cands.len() == 0 {
        st
    } else {
        weigh(weigh_all(st, cands.drop_last(), full, open, vis, inds, base), cands.last(), full, open, vis, inds, base)
    }
}

pub proof fn lemma_weigh_all_append(
    st: ((int, int, int), Seq<Swap>),
    a: Seq<Swap>,
    b: Seq<Swap>,
    full: Seq<Tile>,
    open: Seq<Mentsu>,
    vis: Seq<u8>,
    inds: Seq<Tile>,
    base: (int, int, int),
)
    ensures
        weigh_all(st, a + b, full, open, vis, inds, base) == weigh_all(
            weigh_all(st, a, full, open, vis, inds, base),
            b,
            full,
            open,
            vis,
            inds,
            base,
        ),
    decreases b.len(),
{
    if b.len() == 0 {
        assert(a + b == a);
    } else {
        assert((a + b).drop_last() == a + b.drop_last());
        assert((a + b).last() == b.last());
        lemma_weigh_all_append(st, a, b.drop_last(), full, open, vis, inds, base);
    }
}

/// The swaps a bot weighing `cands` keeps are exactly those of the best key
/// among them, when that key beats the hand as it stands (`base`): no swap
/// stands better than the kept key, which is never worse than `base`; each
/// kept swap has that key and beats `base`; and each swap that has it and
/// beats `base` is kept.
pub proof fn lemma_weigh_keeps_the_best(
    cands: Seq<Swap>,
    full: Seq<Tile>,
    open: Seq<Mentsu>,
    vis: Seq<u8>,
    inds: Seq<Tile>,
    base: (int, int, int),
)
    ensures
        ({
            let r = weigh_all((base, Seq::empty()), cands, full, open, vis, inds, base);
            &&& !key_less(base, r.0)
            &&& forall|i: int| 0 <= i < cands.len() ==> !key_less(#[trigger] swap_key(cands[i], full, open, vis, inds), r.0)
            &&& forall|j: int| 0 <= j < r.1.len() ==> #[trigger] swap_key(r.1[j], full, open, vis, inds) == r.0
                && key_less(r.0, base)
            &&& forall|i: int|
                0 <= i < cands.len() && swap_key(cands[i], full, open, vis, inds) == r.0 && key_less(r.0, base)
                    ==> r.1.contains(#[trigger] cands[i])
        }),
    decreases cands.len(),
{
    if cands.len() > 0 {
        let init = cands.drop_last();
        lemma_weigh_keeps_the_best(init, full, open, vis, inds, base);
        let p = weigh_all((base, Seq::empty()), init, full, open, vis, inds, base);
        let c = cands.last();
        let k = swap_key(c, full, open, vis, inds);
        let r = weigh_all((base, Seq::empty()), cands, full, open, vis, inds, base);
        assert(r == weigh(p, c, full, open, vis, inds, base));
        assert forall|i: int| 0 <= i < cands.len() implies !key_less(
            #[trigger] swap_key(cands[i], full, open, vis, inds),
            r.0,
        ) by {
            if i < init.len() {
                assert(cands[i] == init[i]);
            }
        }
        assert forall|j: int| 0 <= j < r.1.len() implies #[trigger] swap_key(r.1[j], full, open, vis, inds) == r.0
            && key_less(r.0, base) by {
            if key_less(k, p.0) {
            } else if k == p.0 && key_less(k, base) {
                if j < p.1.len() {
                    assert(r.1[j] == p.1[j]);
                }
            }
        }
        assert forall|i: int|
            0 <= i < cands.len() && swap_key(cands[i], full, open, vis, inds) == r.0 && key_less(r.0, base)
                implies r.1.contains(#[trigger] cands[i]) by {
            if i == cands.len() - 1 {
                if key_less(k, p.0) {
                    assert(r.1[0] == c);
                } else {
                    assert(r.1[r.1.len() - 1] == c);
                }
            } else {
                assert(cands[i] == init[i]);
                if key_less(k, p.0) {
                    assert(!key_less(swap_key(init[i], full, open, vis, inds), p.0));
                } else if k == p.0 && key_less(k, base) {
                    let w = choose|w: int| 0 <= w < p.1.len() && p.1[w] == init[i];
                    assert(r.1[w] == init[i]);
                }
            }
        }
    }
}

fn standing(hand: &[Tile], open_mentsu: &[Mentsu], visible: &[u8; 34], dora_indicators: &[Tile]) -> (st: Standing)
    requires
        all_valid(hand@ + meld_tiles(open_mentsu@)),
        (hand@ + meld_tiles(open_mentsu@)).len() <= 255,
        dora_indicators@.len() <= 255,
    ensures
        standing_key(st) == standing_of(hand@, open_mentsu@, visible@, dora_indicators@),
{
    let combined = combine_tiles(hand, open_mentsu);
    proof {
        crate::counting::lemma_short_kinds_fit(combined@);
    }
    let mut freq = tiles_to_frequency_array(combined.as_slice());
    proof {
        crate::shanten::lemma_fsum_freq_seq(combined@);
    }
    let shanten = calculate_shanten_from_array(&mut freq);
    let ukeire = ukeire_tiles(&mut freq, shanten);
    proof {
        lemma_ukeire_below_34(freq@, shanten as int, 34);
    }
    let count = unseen_count(&ukeire, &freq, visible);
    let dora = dora_in(combined.as_slice(), dora_indicators);
    Standing { shanten, ukeire: count as i32, dora: dora as i32 }
}

fn key_below(a: &Standing, b: &Standing) -> (r: bool)
    ensures
        r == key_less(standing_key(*a), standing_key(*b)),
{
    a.shanten < b.shanten || (a.shanten == b.shanten && (a.ukeire > b.ukeire || (a.ukeire == b.ukeire
        && a.dora > b.dora)))
}

/// The swaps a cheating bot may make (see `lemma_weigh_keeps_the_best`):
/// the hand `full_hand` (closed tiles and the drawn tile) with its melds,
/// the ponds of the seats in order, the copies of each kind in sight and the
/// dora indicators.
pub fn best_swaps(
    full_hand: &[Tile],
    open_mentsu: &[Mentsu],
    kawas: &[Vec<Tile>],
    visible: &[u8; 34],
    dora_indicators: &[Tile],
) -> (out: Vec<Swap>)
    requires
        all_valid(full_hand@ + meld_tiles(open_mentsu@)),
        (full_hand@ + meld_tiles(open_mentsu@)).len() <= 255,
        forall|s: int| 0 <= s < kawas@.len() ==> all_valid(#[trigger] kawas@[s]@),
        dora_indicators@.len() <= 255,
    ensures
        ({
            let base = standing_of(full_hand@, open_mentsu@, visible@, dora_indicators@);
            out@ == weigh_all(
                (base, Seq::empty()),
                table_swaps(kawas@, full_hand@, kawas@.len() as int),
                full_hand@,
                open_mentsu@,
                visible@,
                dora_indicators@,
                base,
            ).1
        }),
{
    let ghost full = full_hand@;
    let ghost open = open_mentsu@;
    let ghost vis = visible@;
    let ghost inds = dora_indicators@;
    let baseline = standing(full_hand, open_mentsu, visible, dora_indicators);
    let ghost base = standing_key(baseline);
    let mut best = baseline;
    let mut swaps: Vec<Swap> = Vec::new();
    let mut t: usize = 0;
    while t < kawas.len()
        invariant
            t <= kawas@.len(),
            full == full_hand@,
            open == open_mentsu@,
            vis == visible@,
            inds == dora_indicators@,
            base == standing_of(full, open, vis, inds),
            base == standing_key(baseline),
            all_valid(full + meld_tiles(open)),
            (full + meld_tiles(open)).len() <= 255,
            forall|s: int| 0 <= s < kawas@.len() ==> all_valid(#[trigger] kawas@[s]@),
            inds.len() <= 255,
            (standing_key(best), swaps@) == weigh_all(
                (base, Seq::empty()),
                table_swaps(kawas@, full, t as int),
                full,
                open,
                vis,
                inds,
                base,
            ),
        decreases kawas@.len() - t,
    {
        let kawa = &kawas[t];
        let ghost before = table_swaps(kawas@, full, t as int);
        let ghost st_t = (standing_key(best), swaps@);
        let mut ki: usize = 0;
        while ki < kawa.len()
            invariant
                t < kawas@.len(),
                kawa == kawas@[t as int],
                ki <= kawa@.len(),
                full == full_hand@,
                open == open_mentsu@,
                vis == visible@,
                inds == dora_indicators@,
                base == standing_key(baseline),
                all_valid(full + meld_tiles(open)),
                (full + meld_tiles(open)).len() <= 255,
                all_valid(kawa@),
                inds.len() <= 255,
                (standing_key(best), swaps@) == weigh_all(
                    st_t,
                    pond_swaps(kawa@, t as int, full, ki as int),
                    full,
                    open,
                    vis,
                    inds,
                    base,
                ),
            decreases kawa@.len() - ki,
        {
            let ghost st_k = (standing_key(best), swaps@);
            let ghost row = kawa_row(kawa@, t as int, ki as int, full);
            let mut hi: usize = 0;
            while hi < full_hand.len()
                invariant
                    t < kawas@.len(),
                    kawa == kawas@[t as int],
                    ki < kawa@.len(),
                    hi <= full_hand@.len(),
                    full == full_hand@,
                    open == open_mentsu@,
                    vis == visible@,
                    inds == dora_indicators@,
                    base == standing_key(baseline),
                    all_valid(full + meld_tiles(open)),
                    (full + meld_tiles(open)).len() <= 255,
                    all_valid(kawa@),
                    inds.len() <= 255,
                    row == kawa_row(kawa@, t as int, ki as int, full),
                    (standing_key(best), swaps@) == weigh_all(st_k, row.take(hi as int), full, open, vis, inds, base),
                decreases full_hand@.len() - hi,
            {
                let c = Swap { seat: t, kawa_idx: ki, taken: kawa[ki], hand_idx: hi, given: full_hand[hi] };
                assert(row[hi as int] == c);
                let mut temp: Vec<Tile> = Vec::new();
                push_all(&mut temp, full_hand);
                temp.set(hi, kawa[ki]);
                assert(temp@ == full.update(hi as int, c.taken));
                proof {
                    let a = full + meld_tiles(open);
                    let b = temp@ + meld_tiles(open);
                    assert(valid_tile(kawa@[ki as int]));
                    assert forall|i: int| 0 <= i < b.len() implies valid_tile(#[trigger] b[i]) by {
                        if i != hi {
                            assert(b[i] == a[i]);
                        }
                    }
                }
                let st = standing(temp.as_slice(), open_mentsu, visible, dora_indicators);
                assert(standing_key(st) == swap_key(c, full, open, vis, inds));
                if key_below(&st, &best) {
                    best = st;
                    swaps = Vec::new();
                    swaps.push(c);
                } else if st == best && key_below(&st, &baseline) {
                    swaps.push(c);
                }
                assert(row.take(hi + 1).drop_last() == row.take(hi as int));
                hi = hi + 1;
            }
            assert(row.take(hi as int) == row);
            proof {
                lemma_weigh_all_append(st_t, pond_swaps(kawa@, t as int, full, ki as int), row, full, open, vis, inds, base);
            }
            ki = ki + 1;
        }
        proof {
            lemma_weigh_all_append(
                (base, Seq::empty()),
                before,
                pond_swaps(kawa@, t as int, full, kawa@.len() as int),
                full,
                open,
                vis,
                inds,
                base,
            );
        }
        t = t + 1;
    }
    swaps
}

/// The drawn tile as a sequence of no tile or one.
pub open spec fn drawn_seq(d: Option<Tile>) -> Seq<Tile> {
    match d {
        Some(t) => seq![t],
        None => Seq::empty(),
    }
}

/// A swap moves tiles and makes none: when it takes the tile lying at its
/// place of the pond and gives the tile at its place of the hand (past the
/// closed hand, the drawn tile), the hand, the drawn tile and the pond hold
/// together the same tiles after `apply_swap` as before.
pub proof fn lemma_swap_keeps_the_tiles(hand: Seq<Tile>, drawn: Option<Tile>, kawa: Seq<Tile>, swap: Swap)
    requires
        swap.kawa_idx < kawa.len(),
        kawa[swap.kawa_idx as int] == swap.taken,
        swap.hand_idx < hand.len() ==> hand[swap.hand_idx as int] == swap.given,
        swap.hand_idx >= hand.len() ==> drawn == Some(swap.given),
    ensures
        ({
            let kawa2 = kawa.update(swap.kawa_idx as int, swap.given);
            let hand2 = if swap.hand_idx < hand.len() {
                sort_seq(hand.update(swap.hand_idx as int, swap.taken))
            } else {
                hand
            };
            let drawn2 = if swap.hand_idx < hand.len() {
                drawn
            } else {
                match drawn {
                    Some(_) => Some(swap.taken),
                    None => None,
                }
            };
            (hand2 + drawn_seq(drawn2) + kawa2).to_multiset() == (hand + drawn_seq(drawn) + kawa).to_multiset()
        }),
{
    broadcast use {
        vstd::multiset::group_multiset_axioms,
        vstd::seq_lib::lemma_multiset_commutative,
        vstd::seq_lib::to_multiset_update,
    };

    let ki = swap.kawa_idx as int;
    let hi = swap.hand_idx as int;
    let kawa2 = kawa.update(ki, swap.given);
    let mk = kawa.to_multiset();
    let mk2 = kawa2.to_multiset();
    assert(mk2 == mk.insert(swap.given).remove(swap.taken));
    assert(mk.count(swap.taken) > 0) by {
        vstd::seq_lib::to_multiset_contains(kawa, swap.taken);
    }
    if hi < hand.len() {
        let h1 = hand.update(hi, swap.taken);
        crate::counting::lemma_sort_seq(h1);
        let hand2 = sort_seq(h1);
        assert(hand2.to_multiset() == hand.to_multiset().insert(swap.taken).remove(swap.given));
        assert(hand.to_multiset().count(swap.given) > 0) by {
            vstd::seq_lib::to_multiset_contains(hand, swap.given);
        }
        let d = drawn_seq(drawn);
        assert((hand2 + d + kawa2).to_multiset() == hand2.to_multiset().add(d.to_multiset()).add(mk2));
        assert((hand + d + kawa).to_multiset() == hand.to_multiset().add(d.to_multiset()).add(mk));
        assert(hand2.to_multiset().add(d.to_multiset()).add(mk2) =~= hand.to_multiset().add(d.to_multiset()).add(
            mk,
        ));
    } else {
        let d = drawn_seq(drawn);
        let d2 = drawn_seq(Some(swap.taken));
        assert(d == seq![swap.given]);
        assert((hand + d2 + kawa2).to_multiset() == hand.to_multiset().add(d2.to_multiset()).add(mk2));
        assert((hand + d + kawa).to_multiset() == hand.to_multiset().add(d.to_multiset()).add(mk));
        let e = Seq::<Tile>::empty();
        assert(d2 == e.push(swap.taken));
        assert(d == e.push(swap.given));
        vstd::seq_lib::to_multiset_build(e, swap.taken);
        vstd::seq_lib::to_multiset_build(e, swap.given);
        assert(hand.to_multiset().add(d2.to_multiset()).add(mk2) =~= hand.to_multiset().add(d.to_multiset()).add(
            mk,
        ));
    }
}

/// Carries out a swap: the pond gets the given tile at the swapped place;
/// a tile of the closed hand is replaced and the hand sorted, or else, for
/// the place past the closed hand, the drawn tile is replaced.
pub fn apply_swap(hand: &mut Vec<Tile>, drawn: &mut Option<Tile>, kawa: &mut Vec<Tile>, swap: Swap)
    requires
        swap.kawa_idx < old(kawa)@.len(),
    ensures
        final(kawa)@ == old(kawa)@.update(swap.kawa_idx as int, swap.given),
        swap.hand_idx < old(hand)@.len() ==> final(hand)@ == sort_seq(
            old(hand)@.update(swap.hand_idx as int, swap.taken),
        ) && *final(drawn) == *old(drawn),
        swap.hand_idx >= old(hand)@.len() ==> final(hand)@ == old(hand)@ && *final(drawn) == (match *old(
            drawn,
        ) {
            Some(_) => Some(swap.taken),
            None => None,
        }),
{
    kawa.set(swap.kawa_idx, swap.given);
    if swap.hand_idx < hand.len() {
        hand.set(swap.hand_idx, swap.taken);
        sort_tiles(hand);
    } else if drawn.is_some() {
        *drawn = Some(swap.taken);
    }
}

} // verus!
