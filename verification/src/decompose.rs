//! Splitting a winning hand into a pair and sets. One hand can split in more
//! than one way (1-1-1-2-2-2-3-3-3 of a suit is three runs or three
//! triplets), so every split is returned.

use vstd::prelude::*;
use crate::tile::{Tile, Mentsu, next_of, next_tile_sequence};
use crate::counting::meld_tiles;

verus! {

/// The first position at or after `start` that holds `x`, or -1.
pub open spec fn first_from(s: Seq<Tile>, x: Tile, start: int) -> int
    decreases s.len() - start,
{
    if start < 0 || start >= s.len() {
        -1
    } else if s[start] == x {
        start
    } else {
        first_from(s, x, start + 1)
    }
}

pub proof fn lemma_first_from(s: Seq<Tile>, x: Tile, start: int)
    requires
        0 <= start,
    ensures
        first_from(s, x, start) == -1 || (start <= first_from(s, x, start) < s.len() && s[first_from(s, x, start)] == x),
        first_from(s, x, start) == -1 ==> forall|k: int| start <= k < s.len() ==> s[k] != x,
        first_from(s, x, start) != -1 ==> forall|k: int| start <= k < first_from(s, x, start) ==> s[k] != x,
    decreases s.len() - start,
{
    if start < s.len() && s[start] != x {
        lemma_first_from(s, x, start + 1);
    }
}

/// Where the run that starts with the first tile of `s` takes its second and
/// third tiles: the first later copy of the next rank, then the first copy of
/// the rank after it that comes later still.
pub open spec fn run_positions(s: Seq<Tile>) -> Option<(int, int)> {
    if s.len() == 0 {
        None
    } else {
        match next_of(s[0]) {
            Some(second) => match next_of(second) {
                Some(third) => {
                    let j = first_from(s, second, 1);
                    if j < 0 {
                        None
                    } else {
                        let k = first_from(s, third, j + 1);
                        if k < 0 {
                            None
                        } else {
                            Some((j, k))
                        }
                    }
                },
                None => None,
            },
            None => None,
        }
    }
}

/// The splits in which the first tile of `rem` opens a closed triplet.
pub open spec fn triplet_branch(rem: Seq<Tile>, current: Seq<Mentsu>) -> Seq<Seq<Mentsu>>
    decreases rem.len(), 0int,
{
    if rem.len() >= 3 && rem[0] == rem[1] && rem[0] == rem[2] {
        search(
            rem.subrange(3, rem.len() as int),
            current.push(Mentsu::Koutsu([rem[0], rem[1], rem[2]], true)),
        )
    } else {
        Seq::empty()
    }
}

/// The splits in which the first tile of `rem` opens a closed run.
pub open spec fn run_branch(rem: Seq<Tile>, current: Seq<Mentsu>) -> Seq<Seq<Mentsu>>
    decreases rem.len(), 0int,
{
    match run_positions(rem) {
        Some((j, k)) => if 0 < j < k < rem.len() {
            search(
                rem.remove(k).remove(j).remove(0),
                current.push(Mentsu::Shuntsu([rem[0], rem[j], rem[k]], true)),
            )
        } else {
            Seq::empty()
        },
        None => Seq::empty(),
    }
}

/// Every way to split `rem` into triplets and runs, each appended to
/// `current`. The first tile always opens the next set: a triplet of it is
/// tried first, then the run that starts with it.
pub open spec fn search(rem: Seq<Tile>, current: Seq<Mentsu>) -> Seq<Seq<Mentsu>>
    decreases rem.len(), 1int,
{
    if rem.len() == 0 {
        seq![current]
    } else {
        triplet_branch(rem, current) + run_branch(rem, current)
    }
}

/// The splits found when the pair is taken at positions `i` and `i + 1`:
/// only where those two tiles match and `i` starts its group of equal tiles.
pub open spec fn pair_step(t: Seq<Tile>, i: int) -> Seq<Seq<Mentsu>> {
    if 0 <= i && i + 1 < t.len() && t[i] == t[i + 1] && !(i > 0 && t[i] == t[i - 1]) {
        search(t.remove(i + 1).remove(i), seq![Mentsu::Jantou([t[i], t[i + 1]])])
    } else {
        Seq::empty()
    }
}

pub open spec fn decompose_upto(t: Seq<Tile>, n: int) -> Seq<Seq<Mentsu>>
    decreases n,
{
    if n <= 0 {
        Seq::empty()
    } else {
        decompose_upto(t, n - 1) + pair_step(t, n - 1)
    }
}

/// All splits of a (sorted) hand into one pair and sets, pair positions
/// taken from left to right.
pub open spec fn decompositions(t: Seq<Tile>) -> Seq<Seq<Mentsu>> {
    decompose_upto(t, t.len() - 1)
}

pub open spec fn views(r: Seq<Vec<Mentsu>>) -> Seq<Seq<Mentsu>> {
    r.map_values(|v: Vec<Mentsu>| v@)
}

fn position_from(s: &[Tile], x: &Tile, start: usize) -> (r: Option<usize>)
    ensures
        r matches Some(k) ==> k == first_from(s@, *x, start as int),
        r is None ==> first_from(s@, *x, start as int) == -1,
{
    let mut k = start;
    while k < s.len()
        invariant
            start <= k,
            first_from(s@, *x, start as int) == first_from(s@, *x, k as int),
        decreases s@.len() - k,
    {
        if s[k] == *x {
            return Some(k);
        }
        k = k + 1;
    }
    None
}

fn copy_tiles(s: &[Tile]) -> (v: Vec<Tile>)
    ensures
        v@ == s@,
{
    let mut v: Vec<Tile> = Vec::new();
    let mut k: usize = 0;
    while k < s.len()
        invariant
            k <= s@.len(),
            v@ == s@.take(k as int),
        decreases s@.len() - k,
    {
        v.push(s[k]);
        k = k + 1;
    }
    assert(s@.take(k as int) == s@);
    v
}

fn copy_melds(s: &[Mentsu]) -> (v: Vec<Mentsu>)
    ensures
        v@ == s@,
{
    let mut v: Vec<Mentsu> = Vec::new();
    let mut k: usize = 0;
    while k < s.len()
        invariant
            k <= s@.len(),
            v@ == s@.take(k as int),
        decreases s@.len() - k,
    {
        v.push(s[k]);
        k = k + 1;
    }
    assert(s@.take(k as int) == s@);
    v
}

fn try_triplet(remaining: &[Tile], current: &Vec<Mentsu>, results: &mut Vec<Vec<Mentsu>>)
    requires
        remaining@.len() > 0,
    ensures
        views(final(results)@) == views(old(results)@) + triplet_branch(remaining@, current@),
    decreases remaining@.len(), 0int,
{
    if remaining.len() >= 3 && remaining[0] == remaining[1] && remaining[0] == remaining[2] {
        let koutsu_group = Mentsu::Koutsu([remaining[0], remaining[1], remaining[2]], true);
        let mut new_remaining = copy_tiles(remaining);
        new_remaining.remove(0);
        new_remaining.remove(0);
        new_remaining.remove(0);
        assert(new_remaining@ =~= remaining@.subrange(3, remaining@.len() as int));
        let mut new_current = copy_melds(current.as_slice());
        new_current.push(koutsu_group);
        find_mentsu(new_remaining.as_slice(), new_current, results);
    } else {
        assert(views(results@) =~= views(old(results)@) + triplet_branch(remaining@, current@));
    }
}

fn try_run(remaining: &[Tile], current: &Vec<Mentsu>, results: &mut Vec<Vec<Mentsu>>)
    requires
        remaining@.len() > 0,
    ensures
        views(final(results)@) == views(old(results)@) + run_branch(remaining@, current@),
    decreases remaining@.len(), 0int,
{
    let ghost rem = remaining@;
    if let Some(second) = next_tile_sequence(&remaining[0]) {
        if let Some(third) = next_tile_sequence(&second) {
            let pj = position_from(remaining, &second, 1);
            proof {
                lemma_first_from(rem, second, 1);
            }
            if let Some(j) = pj {
                let pk = position_from(remaining, &third, j + 1);
                proof {
                    lemma_first_from(rem, third, j + 1);
                }
                if let Some(k) = pk {
                    let shuntsu_group = Mentsu::Shuntsu(
                        [remaining[0], remaining[j], remaining[k]],
                        true,
                    );
                    let mut new_remaining = copy_tiles(remaining);
                    new_remaining.remove(k);
                    new_remaining.remove(j);
                    new_remaining.remove(0);
                    let mut new_current = copy_melds(current.as_slice());
                    new_current.push(shuntsu_group);
                    find_mentsu(new_remaining.as_slice(), new_current, results);
                    return;
                }
            }
        }
    }
    assert(views(results@) =~= views(old(results)@) + run_branch(rem, current@));
}

/// Appends to `results` every split of `remaining` into triplets and runs,
/// each after the sets already in `current`.
pub fn find_mentsu(remaining: &[Tile], current: Vec<Mentsu>, results: &mut Vec<Vec<Mentsu>>)
    ensures
        views(final(results)@) == views(old(results)@) + search(remaining@, current@),
    decreases remaining@.len(), 1int,
{
    if remaining.len() == 0 {
        results.push(current);
        assert(views(results@) =~= views(old(results)@) + search(remaining@, current@));
        return;
    }
    try_triplet(remaining, &current, results);
    try_run(remaining, &current, results);
    assert(views(results@) =~= views(old(results)@) + search(remaining@, current@));
}

/// Every split of the hand into one pair and sets. The hand is expected in
/// sorted order; the pair is tried at each first position of a run of equal
/// tiles, from left to right.
pub fn decompose(tiles: &[Tile]) -> (results: Vec<Vec<Mentsu>>)
    requires
        tiles@.len() >= 1,
    ensures
        views(results@) == decompositions(tiles@),
{
    let mut results: Vec<Vec<Mentsu>> = Vec::new();
    let n = tiles.len() - 1;
    let mut i: usize = 0;
    while i < n
        invariant
            n == tiles@.len() - 1,
            i <= n,
            views(results@) == decompose_upto(tiles@, i as int),
        decreases n - i,
    {
        let ghost before = views(results@);
        if tiles[i] == tiles[i + 1] && !(i > 0 && tiles[i] == tiles[i - 1]) {
            let pair = Mentsu::Jantou([tiles[i], tiles[i + 1]]);
            let mut remaining = copy_tiles(tiles);
            remaining.remove(i + 1);
            remaining.remove(i);
            let mut current: Vec<Mentsu> = Vec::new();
            current.push(pair);
            assert(current@ =~= seq![Mentsu::Jantou([tiles@[i as int], tiles@[i + 1]])]);
            find_mentsu(remaining.as_slice(), current, &mut results);
        }
        assert(views(results@) =~= before + pair_step(tiles@, i as int));
        i = i + 1;
    }
    results
}

/// Every split that `search` finds adds one set for each three tiles left.
proof fn lemma_search_len(rem: Seq<Tile>, current: Seq<Mentsu>)
    ensures
        forall|i: int|
            0 <= i < search(rem, current).len() ==> 3 * (#[trigger] search(rem, current)[i]).len() == 3
                * current.len() + rem.len(),
    decreases rem.len(),
{
    if rem.len() > 0 {
        let a = triplet_branch(rem, current);
        let b = run_branch(rem, current);
        if rem.len() >= 3 && rem[0] == rem[1] && rem[0] == rem[2] {
            lemma_search_len(
                rem.subrange(3, rem.len() as int),
                current.push(Mentsu::Koutsu([rem[0], rem[1], rem[2]], true)),
            );
        }
        match run_positions(rem) {
            Some((j, k)) => {
                if 0 < j < k < rem.len() {
                    lemma_search_len(
                        rem.remove(k).remove(j).remove(0),
                        current.push(Mentsu::Shuntsu([rem[0], rem[j], rem[k]], true)),
                    );
                }
            },
            None => {},
        }
        assert forall|i: int| 0 <= i < (a + b).len() implies 3 * (#[trigger] (a + b)[i]).len() == 3
            * current.len() + rem.len() by {
            if i < a.len() {
                assert((a + b)[i] == a[i]);
                let r2 = rem.subrange(3, rem.len() as int);
                let c2 = current.push(Mentsu::Koutsu([rem[0], rem[1], rem[2]], true));
                assert(a[i] == search(r2, c2)[i]);
            } else {
                assert((a + b)[i] == b[i - a.len()]);
                let (j, k) = run_positions(rem)->0;
                let r2 = rem.remove(k).remove(j).remove(0);
                let c2 = current.push(Mentsu::Shuntsu([rem[0], rem[j], rem[k]], true));
                assert(r2.len() == rem.len() - 3);
                assert(b[i - a.len()] == search(r2, c2)[i - a.len()]);
            }
        }
    }
}

proof fn lemma_decompose_upto_len(t: Seq<Tile>, n: int)
    ensures
        forall|i: int|
            0 <= i < decompose_upto(t, n).len() ==> 3 * ((#[trigger] decompose_upto(t, n)[i]).len() - 1)
                == t.len() - 2,
    decreases n,
{
    if n > 0 {
        lemma_decompose_upto_len(t, n - 1);
        let a = decompose_upto(t, n - 1);
        let b = pair_step(t, n - 1);
        let i0 = n - 1;
        if 0 <= i0 && i0 + 1 < t.len() && t[i0] == t[i0 + 1] && !(i0 > 0 && t[i0] == t[i0 - 1]) {
            lemma_search_len(t.remove(i0 + 1).remove(i0), seq![Mentsu::Jantou([t[i0], t[i0 + 1]])]);
        }
        assert forall|i: int| 0 <= i < (a + b).len() implies 3 * ((#[trigger] (a + b)[i]).len() - 1)
            == t.len() - 2 by {
            if i < a.len() {
                assert((a + b)[i] == a[i]);
            } else {
                assert((a + b)[i] == b[i - a.len()]);
            }
        }
    }
}

/// Every split of a hand of `n` tiles is its pair and `(n - 2) / 3` sets:
/// one set for each three tiles besides the pair.
pub proof fn lemma_split_len(t: Seq<Tile>)
    ensures
        forall|i: int|
            0 <= i < decompositions(t).len() ==> 3 * ((#[trigger] decompositions(t)[i]).len() - 1) == t.len()
                - 2,
{
    lemma_decompose_upto_len(t, t.len() - 1);
}

/// A closed triplet of one kind, or a closed run of three consecutive tiles.
pub open spec fn closed_set(m: Mentsu) -> bool {
    match m {
        Mentsu::Koutsu(x, c) => c && x[0] == x[1] && x[1] == x[2],
        Mentsu::Shuntsu(x, c) => c && next_of(x[0]) == Some(x[1]) && next_of(x[1]) == Some(x[2]),
        _ => false,
    }
}

/// A pair of one kind.
pub open spec fn pair_of_one_kind(m: Mentsu) -> bool {
    m matches Mentsu::Jantou(y) && y[0] == y[1]
}

proof fn lemma_meld_tiles_push(ms: Seq<Mentsu>, m: Mentsu)
    ensures
        meld_tiles(ms.push(m)) == meld_tiles(ms) + m.tile_seq(),
{
    assert(ms.push(m).drop_last() == ms);
}

proof fn lemma_three_tiles_multiset(a: Tile, b: Tile, c: Tile)
    ensures
        seq![a, b, c].to_multiset() =~= vstd::multiset::Multiset::empty().insert(a).insert(b).insert(c),
{
    broadcast use vstd::multiset::group_multiset_axioms;

    let e = Seq::<Tile>::empty();
    assert(e.to_multiset() =~= vstd::multiset::Multiset::empty()) by {
        vstd::seq_lib::to_multiset_len(e);
        vstd::multiset::lemma_multiset_empty_len(e.to_multiset());
    }
    assert(seq![a, b, c] == e.push(a).push(b).push(c));
    vstd::seq_lib::to_multiset_build(e, a);
    vstd::seq_lib::to_multiset_build(e.push(a), b);
    vstd::seq_lib::to_multiset_build(e.push(a).push(b), c);
}

/// What `search` finds extends `current` by closed sets made of exactly the
/// tiles of `rem`.
#[verifier::rlimit(80)]
#[verifier::spinoff_prover]
pub proof fn lemma_search_sound(rem: Seq<Tile>, current: Seq<Mentsu>)
    ensures
        forall|i: int|
            0 <= i < search(rem, current).len() ==> {
                let r = #[trigger] search(rem, current)[i];
                &&& r.len() >= current.len()
                &&& r.subrange(0, current.len() as int) == current
                &&& forall|j: int| current.len() <= j < r.len() ==> closed_set(#[trigger] r[j])
                &&& meld_tiles(r).to_multiset() == meld_tiles(current).to_multiset().add(rem.to_multiset())
            },
    decreases rem.len(),
{
    broadcast use vstd::multiset::group_multiset_axioms, vstd::seq_lib::lemma_multiset_commutative;

    if rem.len() == 0 {
        assert(rem.to_multiset() =~= vstd::multiset::Multiset::empty()) by {
            vstd::seq_lib::to_multiset_len(rem);
            vstd::multiset::lemma_multiset_empty_len(rem.to_multiset());
        }
        assert(search(rem, current) == seq![current]);
        assert(current.subrange(0, current.len() as int) == current);
    } else {
        let a = triplet_branch(rem, current);
        let b = run_branch(rem, current);
        assert(search(rem, current) == a + b);
        if rem.len() >= 3 && rem[0] == rem[1] && rem[0] == rem[2] {
            let rest = rem.subrange(3, rem.len() as int);
            let m = Mentsu::Koutsu([rem[0], rem[1], rem[2]], true);
            let cur2 = current.push(m);
            lemma_search_sound(rest, cur2);
            lemma_meld_tiles_push(current, m);
            assert(m.tile_seq() == seq![rem[0], rem[1], rem[2]]);
            assert(rem == seq![rem[0], rem[1], rem[2]] + rest);
            lemma_three_tiles_multiset(rem[0], rem[1], rem[2]);
            assert forall|i: int| 0 <= i < a.len() implies {
                let r = #[trigger] a[i];
                &&& r.len() >= current.len()
                &&& r.subrange(0, current.len() as int) == current
                &&& forall|j: int| current.len() <= j < r.len() ==> closed_set(#[trigger] r[j])
                &&& meld_tiles(r).to_multiset() == meld_tiles(current).to_multiset().add(rem.to_multiset())
            } by {
                assert(a == search(rest, cur2));
                let r = a[i];
                assert(r == search(rest, cur2)[i]);
                assert(r.subrange(0, cur2.len() as int) == cur2);
                assert(r.subrange(0, current.len() as int) =~= cur2.subrange(0, current.len() as int));
                assert(cur2.subrange(0, current.len() as int) =~= current);
                assert(r[current.len() as int] == cur2[current.len() as int]);
                assert(meld_tiles(r).to_multiset() =~= meld_tiles(current).to_multiset().add(rem.to_multiset()));
            }
        }
        match run_positions(rem) {
            Some((j, k)) => {
                if 0 < j < k < rem.len() {
                    let second = next_of(rem[0])->0;
                    let third = next_of(second)->0;
                    lemma_first_from(rem, second, 1);
                    lemma_first_from(rem, third, j + 1);
                    assert(rem[j] == second && rem[k] == third);
                    let rest = rem.remove(k).remove(j).remove(0);
                    let m = Mentsu::Shuntsu([rem[0], rem[j], rem[k]], true);
                    let cur2 = current.push(m);
                    lemma_search_sound(rest, cur2);
                    lemma_meld_tiles_push(current, m);
                    assert(m.tile_seq() == seq![rem[0], rem[j], rem[k]]);
                    lemma_three_tiles_multiset(rem[0], rem[j], rem[k]);
                    let r1 = rem.remove(k);
                    let r2 = r1.remove(j);
                    vstd::seq_lib::to_multiset_remove(rem, k);
                    vstd::seq_lib::to_multiset_remove(r1, j);
                    vstd::seq_lib::to_multiset_remove(r2, 0);
                    assert(r1[j] == rem[j]);
                    assert(r2[0] == rem[0]);
                    vstd::seq_lib::to_multiset_contains(rem, rem[k]);
                    vstd::seq_lib::to_multiset_contains(r1, rem[j]);
                    vstd::seq_lib::to_multiset_contains(r2, rem[0]);
                    assert(rem.to_multiset() =~= rest.to_multiset().insert(rem[0]).insert(rem[j]).insert(rem[k]));
                    assert forall|i: int| 0 <= i < b.len() implies {
                        let r = #[trigger] b[i];
                        &&& r.len() >= current.len()
                        &&& r.subrange(0, current.len() as int) == current
                        &&& forall|jj: int| current.len() <= jj < r.len() ==> closed_set(#[trigger] r[jj])
                        &&& meld_tiles(r).to_multiset() == meld_tiles(current).to_multiset().add(rem.to_multiset())
                    } by {
                        assert(b == search(rest, cur2));
                        let r = b[i];
                        assert(r == search(rest, cur2)[i]);
                        assert(r.subrange(0, cur2.len() as int) == cur2);
                        assert(r.subrange(0, current.len() as int) =~= cur2.subrange(0, current.len() as int));
                        assert(cur2.subrange(0, current.len() as int) =~= current);
                        assert(r[current.len() as int] == cur2[current.len() as int]);
                        assert(meld_tiles(r).to_multiset() =~= meld_tiles(current).to_multiset().add(rem.to_multiset()));
                    }
                }
            },
            None => {},
        }
        assert forall|i: int| 0 <= i < search(rem, current).len() implies {
            let r = #[trigger] search(rem, current)[i];
            &&& r.len() >= current.len()
            &&& r.subrange(0, current.len() as int) == current
            &&& forall|j: int| current.len() <= j < r.len() ==> closed_set(#[trigger] r[j])
            &&& meld_tiles(r).to_multiset() == meld_tiles(current).to_multiset().add(rem.to_multiset())
        } by {
            if i < a.len() {
                assert(search(rem, current)[i] == a[i]);
            } else {
                assert(search(rem, current)[i] == b[i - a.len()]);
            }
        }
    }
}

#[verifier::spinoff_prover]
proof fn lemma_pair_step_sound(t: Seq<Tile>, i: int)
    ensures
        forall|k: int|
            0 <= k < pair_step(t, i).len() ==> {
                let x = #[trigger] pair_step(t, i)[k];
                &&& x.len() >= 1
                &&& pair_of_one_kind(x[0])
                &&& forall|j: int| 1 <= j < x.len() ==> closed_set(#[trigger] x[j])
                &&& meld_tiles(x).to_multiset() == t.to_multiset()
            },
{
    broadcast use vstd::multiset::group_multiset_axioms, vstd::seq_lib::lemma_multiset_commutative;

    if 0 <= i && i + 1 < t.len() && t[i] == t[i + 1] && !(i > 0 && t[i] == t[i - 1]) {
        let rest = t.remove(i + 1).remove(i);
        let pair = Mentsu::Jantou([t[i], t[i + 1]]);
        let cur = seq![pair];
        lemma_search_sound(rest, cur);
        lemma_meld_tiles_push(Seq::empty(), pair);
        assert(Seq::<Mentsu>::empty().push(pair) == cur);
        assert(meld_tiles(Seq::<Mentsu>::empty()) == Seq::<Tile>::empty());
        assert(pair.tile_seq() == seq![t[i], t[i + 1]]);
        let e = Seq::<Tile>::empty();
        assert(e.to_multiset() =~= vstd::multiset::Multiset::empty()) by {
            vstd::seq_lib::to_multiset_len(e);
            vstd::multiset::lemma_multiset_empty_len(e.to_multiset());
        }
        assert(meld_tiles(cur) == e + seq![t[i], t[i + 1]]);
        assert(seq![t[i], t[i + 1]] == e.push(t[i]).push(t[i + 1]));
        vstd::seq_lib::to_multiset_build(e, t[i]);
        vstd::seq_lib::to_multiset_build(e.push(t[i]), t[i + 1]);
        let r1 = t.remove(i + 1);
        vstd::seq_lib::to_multiset_remove(t, i + 1);
        vstd::seq_lib::to_multiset_remove(r1, i);
        assert(r1[i] == t[i]);
        vstd::seq_lib::to_multiset_contains(t, t[i + 1]);
        vstd::seq_lib::to_multiset_contains(r1, t[i]);
        assert(t.to_multiset() =~= rest.to_multiset().insert(t[i]).insert(t[i + 1]));
        assert forall|k: int| 0 <= k < pair_step(t, i).len() implies {
            let x = #[trigger] pair_step(t, i)[k];
            &&& x.len() >= 1
            &&& pair_of_one_kind(x[0])
            &&& forall|j: int| 1 <= j < x.len() ==> closed_set(#[trigger] x[j])
            &&& meld_tiles(x).to_multiset() == t.to_multiset()
        } by {
            let x = pair_step(t, i)[k];
            assert(x == search(rest, cur)[k]);
            assert(x.subrange(0, 1) == cur);
            assert(x[0] == x.subrange(0, 1)[0]);
            assert(meld_tiles(x).to_multiset() =~= t.to_multiset());
        }
    }
}

proof fn lemma_decompose_upto_sound(t: Seq<Tile>, n: int)
    ensures
        forall|k: int|
            0 <= k < decompose_upto(t, n).len() ==> {
                let x = #[trigger] decompose_upto(t, n)[k];
                &&& x.len() >= 1
                &&& pair_of_one_kind(x[0])
                &&& forall|j: int| 1 <= j < x.len() ==> closed_set(#[trigger] x[j])
                &&& meld_tiles(x).to_multiset() == t.to_multiset()
            },
    decreases n,
{
    if n > 0 {
        lemma_decompose_upto_sound(t, n - 1);
        lemma_pair_step_sound(t, n - 1);
        let a = decompose_upto(t, n - 1);
        let b = pair_step(t, n - 1);
        assert(decompose_upto(t, n) == a + b);
        assert forall|k: int| 0 <= k < decompose_upto(t, n).len() implies {
            let x = #[trigger] decompose_upto(t, n)[k];
            &&& x.len() >= 1
            &&& pair_of_one_kind(x[0])
            &&& forall|j: int| 1 <= j < x.len() ==> closed_set(#[trigger] x[j])
            &&& meld_tiles(x).to_multiset() == t.to_multiset()
        } by {
            if k < a.len() {
                assert(decompose_upto(t, n)[k] == a[k]);
            } else {
                assert(decompose_upto(t, n)[k] == b[k - a.len()]);
            }
        }
    }
}

/// Every split `decompose` finds is a pair followed by closed sets, and
/// uses exactly the tiles of the hand.
pub proof fn lemma_splits_use_the_hand(t: Seq<Tile>)
    ensures
        forall|k: int|
            0 <= k < decompositions(t).len() ==> {
                let x = #[trigger] decompositions(t)[k];
                &&& x.len() >= 1
                &&& pair_of_one_kind(x[0])
                &&& forall|j: int| 1 <= j < x.len() ==> closed_set(#[trigger] x[j])
                &&& meld_tiles(x).to_multiset() == t.to_multiset()
            },
{
    lemma_decompose_upto_sound(t, t.len() - 1);
}

} // verus!
