//! Counting tiles: frequency arrays, tile order and sorting, and the tiles
//! of a list of melds.

use vstd::prelude::*;
use crate::tile::{Tile, Honor, Mentsu, valid_tile, all_valid, index_of, tile_to_index};

verus! {

/// How many tiles of `s` sit at position `i` of the frequency array.
pub open spec fn count_index(s: Seq<Tile>, i: int) -> nat
    decreases s.len(),
{
    if s.len() == 0 {
        0
    } else {
        count_index(s.drop_last(), i) + if index_of(s.last()) == i {
            1nat
        } else {
            0nat
        }
    }
}

/// How many copies of `t` the sequence holds.
pub open spec fn count_tile(s: Seq<Tile>, t: Tile) -> nat
    decreases s.len(),
{
    if s.len() == 0 {
        0
    } else {
        count_tile(s.drop_last(), t) + if s.last() == t {
            1nat
        } else {
            0nat
        }
    }
}

/// The 34-slot frequency array of a sequence of tiles.
pub open spec fn freq_seq(s: Seq<Tile>) -> Seq<u8> {
    Seq::new(34, |i: int| count_index(s, i) as u8)
}

pub proof fn lemma_count_index_le(s: Seq<Tile>, i: int)
    ensures
        count_index(s, i) <= s.len(),
    decreases s.len(),
{
    if s.len() > 0 {
        lemma_count_index_le(s.drop_last(), i);
    }
}

pub proof fn lemma_count_tile_le(s: Seq<Tile>, t: Tile)
    ensures
        count_tile(s, t) <= s.len(),
    decreases s.len(),
{
    if s.len() > 0 {
        lemma_count_tile_le(s.drop_last(), t);
    }
}

/// For valid tiles, counting a position and counting the tile there agree.
pub proof fn lemma_count_index_is_count_tile(s: Seq<Tile>, t: Tile)
    requires
        all_valid(s),
        valid_tile(t),
    ensures
        count_index(s, index_of(t)) == count_tile(s, t),
    decreases s.len(),
{
    if s.len() > 0 {
        crate::tile::lemma_index_round_trip(t, 0);
        crate::tile::lemma_index_round_trip(s.last(), 0);
        lemma_count_index_is_count_tile(s.drop_last(), t);
    }
}

/// No kind occurs more than 255 times: every count fits a `u8`.
pub open spec fn kinds_fit(s: Seq<Tile>) -> bool {
    forall|i: int| 0 <= i < 34 ==> #[trigger] count_index(s, i) <= 255
}

/// A sequence of at most 255 tiles holds no kind more than 255 times.
pub proof fn lemma_short_kinds_fit(s: Seq<Tile>)
    requires
        s.len() <= 255,
    ensures
        kinds_fit(s),
{
    assert forall|i: int| 0 <= i < 34 implies #[trigger] count_index(s, i) <= 255 by {
        lemma_count_index_le(s, i);
    }
}

proof fn lemma_count_index_prefix(s: Seq<Tile>, i: int, k: int)
    requires
        0 <= k <= s.len(),
    ensures
        count_index(s.take(k), i) <= count_index(s, i),
    decreases s.len(),
{
    if k < s.len() {
        assert(s.drop_last().take(k) == s.take(k));
        lemma_count_index_prefix(s.drop_last(), i, k);
    } else {
        assert(s.take(k) == s);
    }
}

pub fn tiles_to_frequency_array(tiles: &[Tile]) -> (freq: [u8; 34])
    requires
        all_valid(tiles@),
        kinds_fit(tiles@),
    ensures
        freq@ == freq_seq(tiles@),
{
    let mut freq_array = [0u8; 34];
    let mut k: usize = 0;
    while k < tiles.len()
        invariant
            k <= tiles@.len(),
            all_valid(tiles@),
            kinds_fit(tiles@),
            forall|i: int| 0 <= i < 34 ==> #[trigger] freq_array@[i] == count_index(tiles@.take(k as int), i),
        decreases tiles@.len() - k,
    {
        let idx = tile_to_index(&tiles[k]);
        assert(tiles@.take(k + 1).drop_last() == tiles@.take(k as int));
        proof {
            lemma_count_index_prefix(tiles@, idx as int, k + 1);
            assert(count_index(tiles@, idx as int) <= 255);
        }
        freq_array[idx] = freq_array[idx] + 1;
        k = k + 1;
    }
    assert(tiles@.take(k as int) == tiles@);
    assert(freq_array@ =~= freq_seq(tiles@));
    freq_array
}

/// A total order on tiles that agrees with the derived `Ord` of `Tile`:
/// man before pin before sou before honors, then by rank or honor order.
pub open spec fn rank(t: Tile) -> int {
    match t {
        Tile::Man(n) => n as int,
        Tile::Pin(n) => 256 + n,
        Tile::Sou(n) => 512 + n,
        Tile::Honor(h) => 768 + match h {
            Honor::White => 0int,
            Honor::Red => 1,
            Honor::Green => 2,
            Honor::North => 3,
            Honor::West => 4,
            Honor::East => 5,
            Honor::South => 6,
        },
    }
}

pub proof fn lemma_rank_injective(a: Tile, b: Tile)
    ensures
        rank(a) == rank(b) ==> a == b,
{
}

pub fn tile_rank(t: &Tile) -> (r: u16)
    ensures
        r == rank(*t),
{
    match t {
        Tile::Man(n) => *n as u16,
        Tile::Pin(n) => 256 + *n as u16,
        Tile::Sou(n) => 512 + *n as u16,
        Tile::Honor(h) => 768 + match h {
            Honor::White => 0u16,
            Honor::Red => 1,
            Honor::Green => 2,
            Honor::North => 3,
            Honor::West => 4,
            Honor::East => 5,
            Honor::South => 6,
        },
    }
}

/// The first position at or after `j` whose tile ranks above `r`, or the
/// length of `s` when there is none.
pub open spec fn first_above(s: Seq<Tile>, r: int, j: int) -> int
    decreases s.len() - j,
{
    if j >= s.len() {
        s.len() as int
    } else if rank(s[j]) > r {
        j
    } else {
        first_above(s, r, j + 1)
    }
}

/// `x` inserted into `s` right after every tile that does not rank above it.
pub open spec fn insert_sorted(s: Seq<Tile>, x: Tile) -> Seq<Tile> {
    s.insert(first_above(s, rank(x), 0), x)
}

/// The tiles of `s` in ascending order (insertion sort, stable).
pub open spec fn sort_seq(s: Seq<Tile>) -> Seq<Tile>
    decreases s.len(),
{
    if s.len() == 0 {
        s
    } else {
        insert_sorted(sort_seq(s.drop_last()), s.last())
    }
}

pub open spec fn sorted(s: Seq<Tile>) -> bool {
    forall|i: int, j: int| 0 <= i < j < s.len() ==> rank(#[trigger] s[i]) <= rank(#[trigger] s[j])
}

proof fn lemma_first_above_bounds(s: Seq<Tile>, r: int, j: int)
    requires
        0 <= j <= s.len(),
    ensures
        j <= first_above(s, r, j) <= s.len(),
        forall|k: int| j <= k < first_above(s, r, j) ==> rank(#[trigger] s[k]) <= r,
        first_above(s, r, j) < s.len() ==> rank(s[first_above(s, r, j)]) > r,
    decreases s.len() - j,
{
    if j < s.len() && rank(s[j]) <= r {
        lemma_first_above_bounds(s, r, j + 1);
    }
}

proof fn lemma_insert_sorted(s: Seq<Tile>, x: Tile)
    requires
        sorted(s),
    ensures
        sorted(insert_sorted(s, x)),
        insert_sorted(s, x).to_multiset() == s.to_multiset().insert(x),
        insert_sorted(s, x).len() == s.len() + 1,
{
    let p = first_above(s, rank(x), 0);
    lemma_first_above_bounds(s, rank(x), 0);
    let t = insert_sorted(s, x);
    assert forall|i: int, j: int| 0 <= i < j < t.len() implies rank(#[trigger] t[i]) <= rank(
        #[trigger] t[j],
    ) by {
        if i < p && j == p {
            assert(t[i] == s[i]);
        } else if i == p && j > p {
            assert(t[j] == s[j - 1]);
        } else if i < p && j > p {
            assert(t[i] == s[i] && t[j] == s[j - 1]);
        } else if i > p {
            assert(t[i] == s[i - 1] && t[j] == s[j - 1]);
        } else {
            assert(t[i] == s[i] && t[j] == s[j]);
        }
    }
    vstd::seq_lib::to_multiset_insert(s, p, x);
}

/// Sorting gives an ascending permutation of its input.
pub proof fn lemma_sort_seq(s: Seq<Tile>)
    ensures
        sorted(sort_seq(s)),
        sort_seq(s).to_multiset() == s.to_multiset(),
        sort_seq(s).len() == s.len(),
    decreases s.len(),
{
    if s.len() > 0 {
        lemma_sort_seq(s.drop_last());
        lemma_insert_sorted(sort_seq(s.drop_last()), s.last());
        vstd::seq_lib::to_multiset_build(s.drop_last(), s.last());
        assert(s.drop_last().push(s.last()) == s);
    }
}

/// Sorts the tiles in place, in the order of the derived `Ord` of `Tile`.
pub fn sort_tiles(v: &mut Vec<Tile>)
    ensures
        final(v)@ == sort_seq(old(v)@),
{
    let src = v.clone();
    let mut out: Vec<Tile> = Vec::new();
    let mut i: usize = 0;
    while i < src.len()
        invariant
            i <= src@.len(),
            src@ == old(v)@,
            out@ == sort_seq(src@.take(i as int)),
        decreases src@.len() - i,
    {
        let x = src[i];
        let rx = tile_rank(&x);
        let mut j: usize = 0;
        while j < out.len() && tile_rank(&out[j]) <= rx
            invariant
                j <= out@.len(),
                first_above(out@, rx as int, j as int) == first_above(out@, rx as int, 0),
            decreases out@.len() - j,
        {
            j = j + 1;
        }
        assert(first_above(out@, rx as int, j as int) == j);
        assert(src@.take(i + 1).drop_last() == src@.take(i as int));
        out.insert(j, x);
        i = i + 1;
    }
    assert(src@.take(i as int) == src@);
    *v = out;
}

/// The tiles of a list of melds, meld after meld.
pub open spec fn meld_tiles(ms: Seq<Mentsu>) -> Seq<Tile>
    decreases ms.len(),
{
    if ms.len() == 0 {
        Seq::empty()
    } else {
        meld_tiles(ms.drop_last()) + ms.last().tile_seq()
    }
}

/// Appends the tiles of a slice to a vector.
pub fn push_all(dst: &mut Vec<Tile>, src: &[Tile])
    ensures
        final(dst)@ == old(dst)@ + src@,
{
    let mut k: usize = 0;
    while k < src.len()
        invariant
            k <= src@.len(),
            dst@ == old(dst)@ + src@.take(k as int),
        decreases src@.len() - k,
    {
        dst.push(src[k]);
        assert(src@.take(k + 1) == src@.take(k as int).push(src@[k as int]));
        k = k + 1;
    }
    assert(src@.take(k as int) == src@);
}

/// The closed hand followed by the tiles of the open melds.
pub fn combine_tiles(hand: &[Tile], open_mentsu: &[Mentsu]) -> (result: Vec<Tile>)
    ensures
        result@ == hand@ + meld_tiles(open_mentsu@),
{
    let mut result: Vec<Tile> = Vec::new();
    push_all(&mut result, hand);
    let mut k: usize = 0;
    while k < open_mentsu.len()
        invariant
            k <= open_mentsu@.len(),
            result@ == hand@ + meld_tiles(open_mentsu@.take(k as int)),
        decreases open_mentsu@.len() - k,
    {
        assert(open_mentsu@.take(k + 1).drop_last() == open_mentsu@.take(k as int));
        push_all(&mut result, open_mentsu[k].tiles());
        k = k + 1;
    }
    assert(open_mentsu@.take(k as int) == open_mentsu@);
    result
}

/// Whether `s` holds `t`.
pub fn contains_tile(s: &[Tile], t: &Tile) -> (b: bool)
    ensures
        b == s@.contains(*t),
{
    let mut k: usize = 0;
    while k < s.len()
        invariant
            k <= s@.len(),
            forall|i: int| 0 <= i < k ==> s@[i] != *t,
        decreases s@.len() - k,
    {
        if s[k] == *t {
            return true;
        }
        k = k + 1;
    }
    false
}

/// How many copies of `t` the slice holds.
pub fn count_of(s: &[Tile], t: &Tile) -> (n: usize)
    ensures
        n == count_tile(s@, *t),
{
    let mut n: usize = 0;
    let mut k: usize = 0;
    while k < s.len()
        invariant
            k <= s@.len(),
            n == count_tile(s@.take(k as int), *t),
            n <= k,
        decreases s@.len() - k,
    {
        assert(s@.take(k + 1).drop_last() == s@.take(k as int));
        if s[k] == *t {
            n = n + 1;
        }
        k = k + 1;
    }
    assert(s@.take(k as int) == s@);
    n
}

} // verus!
