//! Shanten: how many tiles a hand is away from tenpai, computed on the
//! 34-slot frequency array, and the tiles that bring it closer.

use vstd::prelude::*;
use crate::tile::{Tile, Mentsu, all_valid, valid_tile, index_of, tile_of};
use crate::decompose::{decompositions, closed_set, pair_of_one_kind, lemma_splits_use_the_hand, lemma_split_len};
use crate::yaku::seven_pairs;
use crate::counting::{freq_seq, tiles_to_frequency_array, count_index, lemma_count_index_le, meld_tiles};

verus! {

/// The sum of the first `n` slots of a frequency array.
pub open spec fn fsum_upto(f: Seq<u8>, n: int) -> int
    decreases n,
{
    if n <= 0 {
        0
    } else {
        fsum_upto(f, n - 1) + f[n - 1]
    }
}

/// How many tiles a frequency array counts.
pub open spec fn fsum(f: Seq<u8>) -> int {
    fsum_upto(f, f.len() as int)
}

proof fn lemma_fsum_upto_update(f: Seq<u8>, n: int, i: int, v: u8)
    requires
        0 <= i < f.len(),
        0 <= n <= f.len(),
    ensures
        fsum_upto(f.update(i, v), n) == fsum_upto(f, n) + if i < n {
            v - f[i]
        } else {
            0
        },
    decreases n,
{
    if n > 0 {
        lemma_fsum_upto_update(f, n - 1, i, v);
    }
}

pub proof fn lemma_fsum_update(f: Seq<u8>, i: int, v: u8)
    requires
        0 <= i < f.len(),
    ensures
        fsum(f.update(i, v)) == fsum(f) - f[i] + v,
{
    lemma_fsum_upto_update(f, f.len() as int, i, v);
}

/// A frequency array counts at least as many tiles as any one slot holds.
pub proof fn lemma_fsum_ge(f: Seq<u8>, i: int)
    requires
        0 <= i < f.len(),
    ensures
        fsum(f) >= f[i],
{
    lemma_fsum_update(f, i, 0);
    lemma_fsum_nonneg(f.update(i, 0), f.len() as int);
}

pub proof fn lemma_fsum_nonneg(f: Seq<u8>, n: int)
    ensures
        fsum_upto(f, n) >= 0,
    decreases n,
{
    if n > 0 {
        lemma_fsum_nonneg(f, n - 1);
    }
}

pub open spec fn imin(a: int, b: int) -> int {
    if b < a {
        b
    } else {
        a
    }
}

/// Whether slots `pos`, `pos + 1`, `pos + 2` are one suit and all held.
pub open spec fn run_ok(f: Seq<u8>, pos: int) -> bool {
    pos < 27 && pos % 9 <= 6 && f[pos] >= 1 && f[pos + 1] >= 1 && f[pos + 2] >= 1
}

/// Whether slots `pos` and `pos + 1` are one suit and both held.
pub open spec fn side_ok(f: Seq<u8>, pos: int) -> bool {
    pos < 27 && pos % 9 <= 7 && f[pos] >= 1 && f[pos + 1] >= 1
}

/// Whether slots `pos` and `pos + 2` are one suit and both held.
pub open spec fn gap_ok(f: Seq<u8>, pos: int) -> bool {
    pos < 27 && pos % 9 <= 6 && f[pos] >= 1 && f[pos + 2] >= 1
}

pub open spec fn take1(f: Seq<u8>, i: int) -> Seq<u8> {
    f.update(i, (f[i] - 1) as u8)
}

/// The value of a finished count: eight, less two per set, less one per
/// partial set (at most as many as sets are missing from four), less one
/// for the pair.
pub open spec fn block_value(m: int, p: int, hp: int) -> int {
    let missing = if 4 - m > 0 {
        4 - m
    } else {
        0
    };
    8 - 2 * m - imin(p, missing) - hp
}

/// The best count over every way to take sets (triplet, run) and partial
/// sets (pair, two-sided or edge pair, closed pair) out of the slots from
/// `pos` on, with `m` sets, `p` partial sets and `hp` pairs taken so far.
pub open spec fn blocks(pos: int, m: int, p: int, f: Seq<u8>, hp: int) -> int
    decreases 34 - pos, f[pos],
{
    if pos >= 34 || pos < 0 || f.len() != 34 {
        block_value(m, p, hp)
    } else {
        let skip = blocks(pos + 1, m, p, f, hp);
        let a = if f[pos] >= 3 {
            imin(skip, blocks(pos, m + 1, p, f.update(pos, (f[pos] - 3) as u8), hp))
        } else {
            skip
        };
        let b = if run_ok(f, pos) {
            imin(a, blocks(pos, m + 1, p, take1(take1(take1(f, pos), pos + 1), pos + 2), hp))
        } else {
            a
        };
        let c = if f[pos] >= 2 {
            imin(b, blocks(pos, m, p + 1, f.update(pos, (f[pos] - 2) as u8), hp))
        } else {
            b
        };
        let d = if side_ok(f, pos) {
            imin(c, blocks(pos, m, p + 1, take1(take1(f, pos), pos + 1), hp))
        } else {
            c
        };
        let e = if gap_ok(f, pos) {
            imin(d, blocks(pos, m, p + 1, take1(take1(f, pos), pos + 2), hp))
        } else {
            d
        };
        e
    }
}

/// Keeps the counters of `count_blocks` inside `u8`: every set takes three
/// tiles and every partial set two.
pub open spec fn counters_fit(m: int, p: int, f: Seq<u8>) -> bool {
    2 * (m + p) + fsum(f) <= 511
}

fn imin32(a: i32, b: i32) -> (r: i32)
    ensures
        r == imin(a as int, b as int),
{
    if b < a {
        b
    } else {
        a
    }
}

fn try_sets(
    pos: usize,
    mentsu: u8,
    partials: u8,
    freq_array: &mut [u8; 34],
    has_pair: u8,
    skip: i32,
) -> (r: i32)
    requires
        pos < 34,
        counters_fit(mentsu as int, partials as int, old(freq_array)@),
    ensures
        final(freq_array)@ == old(freq_array)@,
        r == ({
            let f = old(freq_array)@;
            let a = if f[pos as int] >= 3 {
                imin(
                    skip as int,
                    blocks(
                        pos as int,
                        mentsu + 1,
                        partials as int,
                        f.update(pos as int, (f[pos as int] - 3) as u8),
                        has_pair as int,
                    ),
                )
            } else {
                skip as int
            };
            if run_ok(f, pos as int) {
                imin(
                    a,
                    blocks(
                        pos as int,
                        mentsu + 1,
                        partials as int,
                        take1(take1(take1(f, pos as int), pos + 1), pos + 2),
                        has_pair as int,
                    ),
                )
            } else {
                a
            }
        }),
    decreases 34 - pos, old(freq_array)@[pos as int], 0int,
{
    let ghost f = freq_array@;
    proof {
        lemma_fsum_ge(f, pos as int);
    }
    let mut min_shanten = skip;
    if freq_array[pos] >= 3 {
        proof {
            lemma_fsum_update(f, pos as int, (f[pos as int] - 3) as u8);
        }
        freq_array[pos] = freq_array[pos] - 3;
        let koutsu_shanten = count_blocks(pos, mentsu + 1, partials, freq_array, has_pair);
        min_shanten = imin32(min_shanten, koutsu_shanten);
        freq_array[pos] = freq_array[pos] + 3;
        assert(freq_array@ =~= f);
    }
    if pos < 27 && pos % 9 <= 6 && freq_array[pos] >= 1 && freq_array[pos + 1] >= 1 && freq_array[pos + 2] >= 1 {
        let ghost f1 = take1(f, pos as int);
        let ghost f2 = take1(f1, pos + 1);
        proof {
            lemma_fsum_update(f, pos as int, (f[pos as int] - 1) as u8);
            lemma_fsum_update(f1, pos + 1, (f1[pos + 1] - 1) as u8);
            lemma_fsum_update(f2, pos + 2, (f2[pos + 2] - 1) as u8);
            lemma_fsum_nonneg(take1(f2, pos + 2), 34);
        }
        freq_array[pos] = freq_array[pos] - 1;
        freq_array[pos + 1] = freq_array[pos + 1] - 1;
        freq_array[pos + 2] = freq_array[pos + 2] - 1;
        let shuntsu_shanten = count_blocks(pos, mentsu + 1, partials, freq_array, has_pair);
        min_shanten = imin32(min_shanten, shuntsu_shanten);
        freq_array[pos] = freq_array[pos] + 1;
        freq_array[pos + 1] = freq_array[pos + 1] + 1;
        freq_array[pos + 2] = freq_array[pos + 2] + 1;
        assert(freq_array@ =~= f);
    }
    min_shanten
}

fn try_partials(
    pos: usize,
    mentsu: u8,
    partials: u8,
    freq_array: &mut [u8; 34],
    has_pair: u8,
    before: i32,
) -> (r: i32)
    requires
        pos < 34,
        counters_fit(mentsu as int, partials as int, old(freq_array)@),
    ensures
        final(freq_array)@ == old(freq_array)@,
        r == ({
            let f = old(freq_array)@;
            let c = if f[pos as int] >= 2 {
                imin(
                    before as int,
                    blocks(
                        pos as int,
                        mentsu as int,
                        partials + 1,
                        f.update(pos as int, (f[pos as int] - 2) as u8),
                        has_pair as int,
                    ),
                )
            } else {
                before as int
            };
            let d = if side_ok(f, pos as int) {
                imin(
                    c,
                    blocks(
                        pos as int,
                        mentsu as int,
                        partials + 1,
                        take1(take1(f, pos as int), pos + 1),
                        has_pair as int,
                    ),
                )
            } else {
                c
            };
            if gap_ok(f, pos as int) {
                imin(
                    d,
                    blocks(
                        pos as int,
                        mentsu as int,
                        partials + 1,
                        take1(take1(f, pos as int), pos + 2),
                        has_pair as int,
                    ),
                )
            } else {
                d
            }
        }),
    decreases 34 - pos, old(freq_array)@[pos as int], 0int,
{
    let ghost f = freq_array@;
    proof {
        lemma_fsum_ge(f, pos as int);
    }
    let mut min_shanten = before;
    if freq_array[pos] >= 2 {
        proof {
            lemma_fsum_update(f, pos as int, (f[pos as int] - 2) as u8);
        }
        freq_array[pos] = freq_array[pos] - 2;
        let toitsu_shanten = count_blocks(pos, mentsu, partials + 1, freq_array, has_pair);
        min_shanten = imin32(min_shanten, toitsu_shanten);
        freq_array[pos] = freq_array[pos] + 2;
        assert(freq_array@ =~= f);
    }
    if pos < 27 && pos % 9 <= 7 && freq_array[pos] >= 1 && freq_array[pos + 1] >= 1 {
        let ghost f1 = take1(f, pos as int);
        proof {
            lemma_fsum_update(f, pos as int, (f[pos as int] - 1) as u8);
            lemma_fsum_update(f1, pos + 1, (f1[pos + 1] - 1) as u8);
            lemma_fsum_nonneg(take1(f1, pos + 1), 34);
        }
        freq_array[pos] = freq_array[pos] - 1;
        freq_array[pos + 1] = freq_array[pos + 1] - 1;
        let taatsu_shanten = count_blocks(pos, mentsu, partials + 1, freq_array, has_pair);
        min_shanten = imin32(min_shanten, taatsu_shanten);
        freq_array[pos] = freq_array[pos] + 1;
        freq_array[pos + 1] = freq_array[pos + 1] + 1;
        assert(freq_array@ =~= f);
    }
    if pos < 27 && pos % 9 <= 6 && freq_array[pos] >= 1 && freq_array[pos + 2] >= 1 {
        let ghost f1 = take1(f, pos as int);
        proof {
            lemma_fsum_update(f, pos as int, (f[pos as int] - 1) as u8);
            lemma_fsum_update(f1, pos + 2, (f1[pos + 2] - 1) as u8);
            lemma_fsum_nonneg(take1(f1, pos + 2), 34);
        }
        freq_array[pos] = freq_array[pos] - 1;
        freq_array[pos + 2] = freq_array[pos + 2] - 1;
        let kanchan_shanten = count_blocks(pos, mentsu, partials + 1, freq_array, has_pair);
        min_shanten = imin32(min_shanten, kanchan_shanten);
        freq_array[pos] = freq_array[pos] + 1;
        freq_array[pos + 2] = freq_array[pos + 2] + 1;
        assert(freq_array@ =~= f);
    }
    min_shanten
}

/// The best count over every way to take sets and partial sets out of the
/// slots from `pos` on (see `blocks`). The array is restored before return.
pub fn count_blocks(pos: usize, mentsu: u8, partials: u8, freq_array: &mut [u8; 34], has_pair: u8) -> (r: i32)
    requires
        pos <= 34,
        counters_fit(mentsu as int, partials as int, old(freq_array)@),
    ensures
        final(freq_array)@ == old(freq_array)@,
        r == blocks(pos as int, mentsu as int, partials as int, old(freq_array)@, has_pair as int),
    decreases 34 - pos, if pos < 34 { old(freq_array)@[pos as int] as int } else { 0 }, 1int,
{
    proof {
        lemma_fsum_nonneg(freq_array@, 34);
    }
    if pos == 34 {
        let missing: u8 = if mentsu < 4 {
            4 - mentsu
        } else {
            0
        };
        let valid_partials: u8 = if missing < partials {
            missing
        } else {
            partials
        };
        return 8 - (2 * mentsu as i32) - (valid_partials as i32) - (has_pair as i32);
    }
    let skip = count_blocks(pos + 1, mentsu, partials, freq_array, has_pair);
    let after_sets = try_sets(pos, mentsu, partials, freq_array, has_pair, skip);
    try_partials(pos, mentsu, partials, freq_array, has_pair, after_sets)
}

/// The standard shape: the best count without a pair, or with the pair
/// taken from any slot holding two.
pub open spec fn standard_upto(f: Seq<u8>, n: int) -> int
    decreases n,
{
    if n <= 0 {
        imin(8, blocks(0, 0, 0, f, 0))
    } else if f[n - 1] >= 2 {
        imin(standard_upto(f, n - 1), blocks(0, 0, 0, f.update(n - 1, (f[n - 1] - 2) as u8), 1))
    } else {
        standard_upto(f, n - 1)
    }
}

pub open spec fn standard_shanten(f: Seq<u8>) -> int {
    standard_upto(f, 34)
}

pub fn calculate_standard_shanten(freq_array: &mut [u8; 34]) -> (r: i32)
    requires
        fsum(old(freq_array)@) <= 511,
    ensures
        final(freq_array)@ == old(freq_array)@,
        r == standard_shanten(old(freq_array)@),
{
    let ghost f = freq_array@;
    let first = count_blocks(0, 0, 0, freq_array, 0);
    let mut best_shanten: i32 = imin32(8, first);
    let mut i: usize = 0;
    while i < 34
        invariant
            i <= 34,
            freq_array@ == f,
            fsum(f) <= 511,
            best_shanten == standard_upto(f, i as int),
        decreases 34 - i,
    {
        if freq_array[i] >= 2 {
            proof {
                lemma_fsum_update(f, i as int, (f[i as int] - 2) as u8);
            }
            freq_array[i] = freq_array[i] - 2;
            let with_pair = count_blocks(0, 0, 0, freq_array, 1);
            best_shanten = imin32(best_shanten, with_pair);
            freq_array[i] = freq_array[i] + 2;
            assert(freq_array@ =~= f);
        }
        i = i + 1;
    }
    best_shanten
}

/// How many slots among the first `n` hold at least `k` tiles.
pub open spec fn slots_with(f: Seq<u8>, n: int, k: int) -> int
    decreases n,
{
    if n <= 0 {
        0
    } else {
        slots_with(f, n - 1, k) + if f[n - 1] >= k {
            1int
        } else {
            0
        }
    }
}

/// Seven pairs: six less the number of kinds held at least twice.
pub open spec fn chiitoitsu_shanten(f: Seq<u8>) -> int {
    6 - slots_with(f, 34, 2)
}

pub fn calculate_chiitoitsu_shanten(freq_array: &[u8; 34]) -> (r: i32)
    ensures
        r == chiitoitsu_shanten(freq_array@),
{
    let mut pairs: i32 = 0;
    let mut i: usize = 0;
    while i < 34
        invariant
            i <= 34,
            pairs == slots_with(freq_array@, i as int, 2),
            0 <= pairs <= i,
        decreases 34 - i,
    {
        if freq_array[i] >= 2 {
            pairs = pairs + 1;
        }
        i = i + 1;
    }
    6 - pairs
}

/// The slots of the thirteen terminal and honor kinds.
pub open spec fn yaochuu_slot(k: int) -> int {
    if k < 6 {
        if k % 2 == 0 {
            (k / 2) * 9
        } else {
            (k / 2) * 9 + 8
        }
    } else {
        k + 21
    }
}

/// Among the first `n` terminal and honor slots, how many hold at least `k`.
pub open spec fn yaochuu_with(f: Seq<u8>, n: int, k: int) -> int
    decreases n,
{
    if n <= 0 {
        0
    } else {
        yaochuu_with(f, n - 1, k) + if f[yaochuu_slot(n - 1)] >= k {
            1int
        } else {
            0
        }
    }
}

/// Thirteen orphans: thirteen less the terminal and honor kinds held, less
/// one more if one of them is held twice.
pub open spec fn kokushi_shanten(f: Seq<u8>) -> int {
    13 - yaochuu_with(f, 13, 1) - if yaochuu_with(f, 13, 2) > 0 {
        1int
    } else {
        0
    }
}

pub fn calculate_kokushi_shanten(freq_array: &[u8; 34]) -> (r: i32)
    ensures
        r == kokushi_shanten(freq_array@),
{
    let positions: [usize; 13] = [0, 8, 9, 17, 18, 26, 27, 28, 29, 30, 31, 32, 33];
    let mut yaochuuhai_count: i32 = 0;
    let mut has_pair = false;
    let mut j: usize = 0;
    while j < 13
        invariant
            j <= 13,
            forall|k: int| 0 <= k < 13 ==> #[trigger] positions@[k] == yaochuu_slot(k),
            yaochuuhai_count == yaochuu_with(freq_array@, j as int, 1),
            0 <= yaochuuhai_count <= j,
            has_pair == (yaochuu_with(freq_array@, j as int, 2) > 0),
            yaochuu_with(freq_array@, j as int, 2) >= 0,
        decreases 13 - j,
    {
        let i = positions[j];
        if freq_array[i] >= 1 {
            yaochuuhai_count = yaochuuhai_count + 1;
        }
        if freq_array[i] >= 2 {
            has_pair = true;
        }
        j = j + 1;
    }
    13 - yaochuuhai_count - if has_pair {
        1i32
    } else {
        0
    }
}

/// The shanten of a frequency array: the best of the standard shape, seven
/// pairs and thirteen orphans, and never above eight.
pub open spec fn shanten_of(f: Seq<u8>) -> int {
    imin(imin(imin(8, standard_shanten(f)), chiitoitsu_shanten(f)), kokushi_shanten(f))
}

proof fn lemma_slots_with_range(f: Seq<u8>, n: int, k: int)
    requires
        n >= 0,
    ensures
        0 <= slots_with(f, n, k) <= n,
    decreases n,
{
    if n > 0 {
        lemma_slots_with_range(f, n - 1, k);
    }
}

proof fn lemma_blocks_floor(pos: int, m: int, p: int, f: Seq<u8>, hp: int)
    requires
        0 <= m,
        0 <= p,
        0 <= hp <= 1,
        f.len() == 34,
        3 * m + 2 * hp + fsum(f) <= 14,
    ensures
        blocks(pos, m, p, f, hp) >= -1,
    decreases 34 - pos, f[pos],
{
    lemma_fsum_nonneg(f, 34);
    if pos >= 34 || pos < 0 {
    } else {
        lemma_blocks_floor(pos + 1, m, p, f, hp);
        if f[pos] >= 3 {
            lemma_fsum_update(f, pos, (f[pos] - 3) as u8);
            lemma_blocks_floor(pos, m + 1, p, f.update(pos, (f[pos] - 3) as u8), hp);
        }
        if run_ok(f, pos) {
            let f1 = take1(f, pos);
            let f2 = take1(f1, pos + 1);
            let f3 = take1(f2, pos + 2);
            lemma_fsum_update(f, pos, (f[pos] - 1) as u8);
            lemma_fsum_update(f1, pos + 1, (f1[pos + 1] - 1) as u8);
            lemma_fsum_update(f2, pos + 2, (f2[pos + 2] - 1) as u8);
            lemma_blocks_floor(pos, m + 1, p, f3, hp);
        }
        if f[pos] >= 2 {
            lemma_fsum_update(f, pos, (f[pos] - 2) as u8);
            lemma_blocks_floor(pos, m, p + 1, f.update(pos, (f[pos] - 2) as u8), hp);
        }
        if side_ok(f, pos) {
            let f1 = take1(f, pos);
            lemma_fsum_update(f, pos, (f[pos] - 1) as u8);
            lemma_fsum_update(f1, pos + 1, (f1[pos + 1] - 1) as u8);
            lemma_blocks_floor(pos, m, p + 1, take1(f1, pos + 1), hp);
        }
        if gap_ok(f, pos) {
            let f1 = take1(f, pos);
            lemma_fsum_update(f, pos, (f[pos] - 1) as u8);
            lemma_fsum_update(f1, pos + 2, (f1[pos + 2] - 1) as u8);
            lemma_blocks_floor(pos, m, p + 1, take1(f1, pos + 2), hp);
        }
    }
}

proof fn lemma_standard_floor(f: Seq<u8>, n: int)
    requires
        f.len() == 34,
        fsum(f) <= 14,
        0 <= n <= 34,
    ensures
        standard_upto(f, n) >= -1,
    decreases n,
{
    if n <= 0 {
        lemma_blocks_floor(0, 0, 0, f, 0);
    } else {
        lemma_standard_floor(f, n - 1);
        if f[n - 1] >= 2 {
            lemma_fsum_update(f, n - 1, (f[n - 1] - 2) as u8);
            lemma_blocks_floor(0, 0, 0, f.update(n - 1, (f[n - 1] - 2) as u8), 1);
        }
    }
}

proof fn lemma_pairs_within_sum(f: Seq<u8>, n: int)
    requires
        0 <= n <= f.len(),
    ensures
        2 * slots_with(f, n, 2) <= fsum_upto(f, n),
    decreases n,
{
    if n > 0 {
        lemma_pairs_within_sum(f, n - 1);
    }
}

proof fn lemma_yaochuu_with_le(f: Seq<u8>, n: int, k: int)
    requires
        0 <= n,
    ensures
        0 <= yaochuu_with(f, n, k) <= n,
    decreases n,
{
    if n > 0 {
        lemma_yaochuu_with_le(f, n - 1, k);
    }
}

/// A frequency array of at most fourteen tiles is between complete (-1)
/// and six steps from tenpai.
pub proof fn lemma_shanten_range(f: Seq<u8>)
    requires
        f.len() == 34,
        fsum(f) <= 14,
    ensures
        -1 <= shanten_of(f) <= 6,
{
    lemma_shanten_at_most_six(f);
    lemma_standard_floor(f, 34);
    lemma_pairs_within_sum(f, 34);
    lemma_yaochuu_with_le(f, 13, 1);
    lemma_yaochuu_with_le(f, 13, 2);
}

/// The shanten of a hand of at most fourteen tiles lies between -1 (a
/// complete hand) and 6.
pub proof fn lemma_hand_shanten_range(hand: Seq<Tile>)
    requires
        all_valid(hand),
        hand.len() <= 14,
    ensures
        -1 <= shanten_of(freq_seq(hand)) <= 6,
{
    lemma_fsum_freq_seq(hand);
    lemma_shanten_range(freq_seq(hand));
}

proof fn lemma_count_one(s: Seq<Tile>, a: int, i: int)
    requires
        0 <= a < s.len(),
        index_of(s[a]) == i,
    ensures
        count_index(s, i) >= 1,
    decreases s.len(),
{
    if a < s.len() - 1 {
        lemma_count_one(s.drop_last(), a, i);
    }
}

proof fn lemma_count_two(s: Seq<Tile>, a: int, b: int, i: int)
    requires
        0 <= a < b < s.len(),
        index_of(s[a]) == i,
        index_of(s[b]) == i,
    ensures
        count_index(s, i) >= 2,
    decreases s.len(),
{
    if b == s.len() - 1 {
        lemma_count_one(s.drop_last(), a, i);
    } else {
        lemma_count_two(s.drop_last(), a, b, i);
    }
}

/// Of the first `j` pairs of a seven-pairs hand, how many are of a kind
/// below slot `n`.
spec fn pairs_below(s: Seq<Tile>, n: int, j: int) -> int
    decreases j,
{
    if j <= 0 {
        0
    } else {
        pairs_below(s, n, j - 1) + if index_of(s[2 * (j - 1)]) < n {
            1int
        } else {
            0
        }
    }
}

/// Of the first `j` pairs, how many are of the kind in slot `x`.
spec fn pairs_at(s: Seq<Tile>, x: int, j: int) -> int
    decreases j,
{
    if j <= 0 {
        0
    } else {
        pairs_at(s, x, j - 1) + if index_of(s[2 * (j - 1)]) == x {
            1int
        } else {
            0
        }
    }
}

proof fn lemma_pairs_below_step(s: Seq<Tile>, n: int, j: int)
    ensures
        pairs_below(s, n + 1, j) == pairs_below(s, n, j) + pairs_at(s, n, j),
    decreases j,
{
    if j > 0 {
        lemma_pairs_below_step(s, n, j - 1);
    }
}

proof fn lemma_pairs_at_once(s: Seq<Tile>, x: int, j: int)
    requires
        0 <= j <= 7,
        seven_pairs(s),
        all_valid(s),
    ensures
        pairs_at(s, x, j) <= 1,
        pairs_at(s, x, j) == 1 ==> exists|k: int| 0 <= k < j && index_of(#[trigger] s[2 * k]) == x,
    decreases j,
{
    if j > 0 {
        lemma_pairs_at_once(s, x, j - 1);
        let t = s[2 * (j - 1)];
        if index_of(t) == x && pairs_at(s, x, j - 1) == 1 {
            let k = choose|k: int| 0 <= k < j - 1 && index_of(#[trigger] s[2 * k]) == x;
            crate::tile::lemma_index_round_trip(s[2 * k], 0);
            crate::tile::lemma_index_round_trip(t, 0);
            assert(s[2 * k] != s[2 * (j - 1)]);
            assert(false);
        }
    }
}

proof fn lemma_pairs_counted(s: Seq<Tile>, n: int)
    requires
        0 <= n <= 34,
        seven_pairs(s),
        all_valid(s),
    ensures
        slots_with(freq_seq(s), n, 2) >= pairs_below(s, n, 7),
    decreases n,
{
    let f = freq_seq(s);
    if n == 0 {
        lemma_pairs_below_zero(s, 7);
    } else {
        lemma_pairs_counted(s, n - 1);
        lemma_pairs_below_step(s, n - 1, 7);
        lemma_pairs_at_once(s, n - 1, 7);
        if pairs_at(s, n - 1, 7) == 1 {
            let k = choose|k: int| 0 <= k < 7 && index_of(#[trigger] s[2 * k]) == n - 1;
            assert(s[2 * k] == s[2 * k + 1]);
            lemma_count_two(s, 2 * k, 2 * k + 1, n - 1);
            crate::counting::lemma_count_index_le(s, n - 1);
            assert(f[n - 1] >= 2);
        }
    }
}

proof fn lemma_pairs_below_zero(s: Seq<Tile>, j: int)
    requires
        0 <= j <= 7,
        s.len() == 14,
        all_valid(s),
    ensures
        pairs_below(s, 0, j) == 0,
        pairs_below(s, 34, j) == j,
    decreases j,
{
    if j > 0 {
        lemma_pairs_below_zero(s, j - 1);
        crate::tile::lemma_index_round_trip(s[2 * (j - 1)], 0);
    }
}

/// A seven-pairs hand is complete: its shanten is -1.
pub proof fn lemma_seven_pairs_complete(s: Seq<Tile>)
    requires
        seven_pairs(s),
        all_valid(s),
    ensures
        shanten_of(freq_seq(s)) == -1,
{
    lemma_pairs_counted(s, 34);
    lemma_pairs_below_zero(s, 7);
    lemma_shanten_at_most_six(freq_seq(s));
    lemma_hand_shanten_range(s);
}

/// A set on the slots of a frequency array: a run (`.0`) or a triplet
/// starting at slot `.1`.
pub open spec fn slot_set_count(st: (bool, int), i: int) -> int {
    if st.0 {
        if st.1 <= i <= st.1 + 2 {
            1
        } else {
            0
        }
    } else if i == st.1 {
        3
    } else {
        0
    }
}

/// A run lies within one suit; a triplet on any kind.
pub open spec fn slot_set_ok(st: (bool, int)) -> bool {
    if st.0 {
        0 <= st.1 < 27 && st.1 % 9 <= 6
    } else {
        0 <= st.1 < 34
    }
}

/// How many tiles of slot `i` a list of sets uses.
pub open spec fn slot_sets_count(sets: Seq<(bool, int)>, i: int) -> int
    decreases sets.len(),
{
    if sets.len() == 0 {
        0
    } else {
        slot_sets_count(sets.drop_last(), i) + slot_set_count(sets.last(), i)
    }
}

proof fn lemma_slot_sets_nonneg(sets: Seq<(bool, int)>, i: int)
    ensures
        slot_sets_count(sets, i) >= 0,
        forall|q: int| 0 <= q < sets.len() ==> slot_sets_count(sets, i) >= slot_set_count(#[trigger] sets[q], i),
    decreases sets.len(),
{
    if sets.len() > 0 {
        lemma_slot_sets_nonneg(sets.drop_last(), i);
        assert forall|q: int| 0 <= q < sets.len() implies slot_sets_count(sets, i) >= slot_set_count(
            #[trigger] sets[q],
            i,
        ) by {
            if q < sets.len() - 1 {
                assert(sets[q] == sets.drop_last()[q]);
            }
        }
    }
}

proof fn lemma_slot_sets_remove(sets: Seq<(bool, int)>, q: int, i: int)
    requires
        0 <= q < sets.len(),
    ensures
        slot_sets_count(sets.remove(q), i) == slot_sets_count(sets, i) - slot_set_count(sets[q], i),
    decreases sets.len(),
{
    if q == sets.len() - 1 {
        assert(sets.remove(q) == sets.drop_last());
    } else {
        lemma_slot_sets_remove(sets.drop_last(), q, i);
        assert(sets.remove(q).drop_last() == sets.drop_last().remove(q));
        assert(sets.remove(q).last() == sets.last());
    }
}

/// When the slots from `pos` on hold exactly the tiles of some sets that
/// all start there or later, the block count finds them all.
proof fn lemma_blocks_find_sets(pos: int, m: int, p: int, f: Seq<u8>, hp: int, sets: Seq<(bool, int)>)
    requires
        0 <= pos <= 34,
        f.len() == 34,
        forall|q: int| 0 <= q < sets.len() ==> slot_set_ok(#[trigger] sets[q]) && sets[q].1 >= pos,
        forall|i: int| pos <= i < 34 ==> f[i] == #[trigger] slot_sets_count(sets, i),
    ensures
        blocks(pos, m, p, f, hp) <= block_value(m + sets.len(), p, hp),
    decreases 34 - pos, sets.len(),
{
    if pos >= 34 {
        if sets.len() > 0 {
            assert(slot_set_ok(sets[0]) && sets[0].1 >= 34);
        }
    } else if f[pos] == 0 {
        assert forall|q: int| 0 <= q < sets.len() implies slot_set_ok(#[trigger] sets[q]) && sets[q].1 >= pos + 1 by {
            lemma_slot_sets_nonneg(sets, pos);
            assert(slot_sets_count(sets, pos) >= slot_set_count(sets[q], pos));
        }
        lemma_blocks_find_sets(pos + 1, m, p, f, hp, sets);
    } else {
        lemma_slot_sets_nonneg(sets, pos);
        if forall|q: int| 0 <= q < sets.len() ==> (#[trigger] sets[q]).1 != pos {
            assert(slot_sets_count(sets, pos) == 0) by {
                lemma_no_set_at(sets, pos);
            }
            assert(false);
        }
        let q = choose|q: int| 0 <= q < sets.len() && (#[trigger] sets[q]).1 == pos;
        let rest = sets.remove(q);
        assert forall|r: int| 0 <= r < rest.len() implies slot_set_ok(#[trigger] rest[r]) && rest[r].1 >= pos by {
            if r < q {
                assert(rest[r] == sets[r]);
            } else {
                assert(rest[r] == sets[r + 1]);
            }
        }
        if sets[q].0 {
            let f1 = take1(f, pos);
            let f2 = take1(f1, pos + 1);
            let f3 = take1(f2, pos + 2);
            lemma_slot_sets_nonneg(sets, pos + 1);
            lemma_slot_sets_nonneg(sets, pos + 2);
            assert(run_ok(f, pos));
            assert forall|i: int| pos <= i < 34 implies f3[i] == #[trigger] slot_sets_count(rest, i) by {
                lemma_slot_sets_remove(sets, q, i);
            }
            lemma_blocks_find_sets(pos, m + 1, p, f3, hp, rest);
        } else {
            let f1 = f.update(pos, (f[pos] - 3) as u8);
            assert(f[pos] >= 3);
            assert forall|i: int| pos <= i < 34 implies f1[i] == #[trigger] slot_sets_count(rest, i) by {
                lemma_slot_sets_remove(sets, q, i);
            }
            lemma_blocks_find_sets(pos, m + 1, p, f1, hp, rest);
        }
    }
}

proof fn lemma_no_set_at(sets: Seq<(bool, int)>, pos: int)
    requires
        forall|q: int| 0 <= q < sets.len() ==> (#[trigger] sets[q]).1 >= pos,
        forall|q: int| 0 <= q < sets.len() ==> (#[trigger] sets[q]).1 != pos,
    ensures
        slot_sets_count(sets, pos) == 0,
    decreases sets.len(),
{
    if sets.len() > 0 {
        assert(sets.last() == sets[sets.len() - 1]);
        assert forall|q: int| 0 <= q < sets.drop_last().len() implies (#[trigger] sets.drop_last()[q]).1 >= pos
            && sets.drop_last()[q].1 != pos by {
            assert(sets.drop_last()[q] == sets[q]);
        }
        lemma_no_set_at(sets.drop_last(), pos);
    }
}

proof fn lemma_count_index_concat(a: Seq<Tile>, b: Seq<Tile>, i: int)
    ensures
        count_index(a + b, i) == count_index(a, i) + count_index(b, i),
    decreases b.len(),
{
    if b.len() == 0 {
        assert(a + b == a);
    } else {
        assert((a + b).drop_last() == a + b.drop_last());
        assert((a + b).last() == b.last());
        lemma_count_index_concat(a, b.drop_last(), i);
    }
}

proof fn lemma_count_index_multiset(s: Seq<Tile>, i: int)
    requires
        all_valid(s),
        0 <= i < 34,
    ensures
        count_index(s, i) == s.to_multiset().count(tile_of(i)),
    decreases s.len(),
{
    broadcast use vstd::multiset::group_multiset_axioms;

    if s.len() == 0 {
        vstd::seq_lib::to_multiset_len(s);
        vstd::multiset::lemma_multiset_empty_len(s.to_multiset());
    } else {
        lemma_count_index_multiset(s.drop_last(), i);
        vstd::seq_lib::to_multiset_build(s.drop_last(), s.last());
        assert(s.drop_last().push(s.last()) == s);
        crate::tile::lemma_index_round_trip(s.last(), i);
    }
}

proof fn lemma_melds_valid(x: Seq<Mentsu>)
    requires
        all_valid(meld_tiles(x)),
    ensures
        forall|j: int| 0 <= j < x.len() ==> all_valid(#[trigger] x[j].tile_seq()),
    decreases x.len(),
{
    if x.len() > 0 {
        let a = meld_tiles(x.drop_last());
        let b = x.last().tile_seq();
        assert(meld_tiles(x) == a + b);
        assert forall|k: int| 0 <= k < a.len() implies valid_tile(#[trigger] a[k]) by {
            assert((a + b)[k] == a[k]);
        }
        assert forall|k: int| 0 <= k < b.len() implies valid_tile(#[trigger] b[k]) by {
            assert((a + b)[a.len() + k] == b[k]);
        }
        lemma_melds_valid(x.drop_last());
        assert forall|j: int| 0 <= j < x.len() implies all_valid(#[trigger] x[j].tile_seq()) by {
            if j < x.len() - 1 {
                assert(x[j] == x.drop_last()[j]);
            }
        }
    }
}

/// The slot set a closed set stands for.
pub open spec fn slot_of(m: Mentsu) -> (bool, int) {
    match m {
        Mentsu::Shuntsu(x, _) => (true, index_of(x[0])),
        Mentsu::Koutsu(x, _) => (false, index_of(x[0])),
        _ => (false, -1),
    }
}

proof fn lemma_set_slots(m: Mentsu, i: int)
    requires
        closed_set(m),
        all_valid(m.tile_seq()),
    ensures
        count_index(m.tile_seq(), i) == slot_set_count(slot_of(m), i),
        slot_set_ok(slot_of(m)),
{
    reveal_with_fuel(count_index, 4);
    let ts = m.tile_seq();
    assert(ts.len() == 3);
    assert(valid_tile(ts[0]) && valid_tile(ts[1]) && valid_tile(ts[2]));
    assert(ts.drop_last().drop_last().drop_last().len() == 0);
    assert(ts.drop_last().drop_last().last() == ts[0]);
    assert(ts.drop_last().last() == ts[1]);
    assert(ts.last() == ts[2]);
}

/// The slot sets of the sets of a split (all but its pair).
pub open spec fn split_slots(x: Seq<Mentsu>) -> Seq<(bool, int)> {
    Seq::new((x.len() - 1) as nat, |q: int| slot_of(x[q + 1]))
}

proof fn lemma_split_counts(x: Seq<Mentsu>, i: int)
    requires
        x.len() >= 1,
        forall|j: int| 1 <= j < x.len() ==> closed_set(#[trigger] x[j]),
        forall|j: int| 0 <= j < x.len() ==> all_valid(#[trigger] x[j].tile_seq()),
    ensures
        count_index(meld_tiles(x), i) == count_index(x[0].tile_seq(), i) + slot_sets_count(split_slots(x), i),
    decreases x.len(),
{
    assert(meld_tiles(x) == meld_tiles(x.drop_last()) + x.last().tile_seq());
    lemma_count_index_concat(meld_tiles(x.drop_last()), x.last().tile_seq(), i);
    if x.len() == 1 {
        assert(x.drop_last().len() == 0);
        assert(meld_tiles(x.drop_last()) == Seq::<Tile>::empty());
        assert(split_slots(x).len() == 0);
    } else {
        let d = x.drop_last();
        assert forall|j: int| 1 <= j < d.len() implies closed_set(#[trigger] d[j]) by {
            assert(d[j] == x[j]);
        }
        assert forall|j: int| 0 <= j < d.len() implies all_valid(#[trigger] d[j].tile_seq()) by {
            assert(d[j] == x[j]);
        }
        lemma_split_counts(d, i);
        assert(split_slots(x).drop_last() == split_slots(d));
        assert(split_slots(x).last() == slot_of(x.last()));
        lemma_set_slots(x.last(), i);
    }
}

proof fn lemma_standard_le_pair(f: Seq<u8>, n: int, pp: int)
    requires
        0 <= pp < n <= 34,
        f.len() == 34,
        f[pp] >= 2,
    ensures
        standard_upto(f, n) <= blocks(0, 0, 0, f.update(pp, (f[pp] - 2) as u8), 1),
    decreases n,
{
    if n - 1 != pp {
        lemma_standard_le_pair(f, n - 1, pp);
    }
}

/// A hand of fourteen tiles that splits into a pair and four sets is
/// complete: its shanten is -1.
pub proof fn lemma_split_hand_complete(t: Seq<Tile>)
    requires
        all_valid(t),
        t.len() == 14,
        decompositions(t).len() > 0,
    ensures
        shanten_of(freq_seq(t)) == -1,
{
    broadcast use vstd::multiset::group_multiset_axioms;

    lemma_splits_use_the_hand(t);
    lemma_split_len(t);
    let x = decompositions(t)[0];
    assert(x.len() == 5);
    assert(pair_of_one_kind(x[0]));
    let mt = meld_tiles(x);
    assert(mt.to_multiset() == t.to_multiset());
    assert forall|k: int| 0 <= k < mt.len() implies valid_tile(#[trigger] mt[k]) by {
        vstd::seq_lib::to_multiset_contains(mt, mt[k]);
        vstd::seq_lib::to_multiset_contains(t, mt[k]);
        let w = choose|w: int| 0 <= w < t.len() && t[w] == mt[k];
    }
    lemma_melds_valid(x);
    let f = freq_seq(t);
    let a = x[0].tile_seq()[0];
    assert(x[0].tile_seq() == seq![a, a]);
    crate::tile::lemma_index_round_trip(a, 0);
    let pp = index_of(a);
    let sets = split_slots(x);
    assert forall|i: int| 0 <= i < 34 implies count_index(t, i) == count_index(x[0].tile_seq(), i) + slot_sets_count(
        sets,
        i,
    ) by {
        lemma_count_index_multiset(t, i);
        lemma_count_index_multiset(mt, i);
        lemma_split_counts(x, i);
    }
    assert forall|i: int| 0 <= i < 34 implies count_index(seq![a, a], i) == if i == pp {
        2int
    } else {
        0
    } by {
        reveal_with_fuel(count_index, 3);
        assert(seq![a, a].drop_last().drop_last().len() == 0);
    }
    assert forall|i: int| 0 <= i < 34 implies #[trigger] count_index(t, i) <= 14 by {
        lemma_count_index_le(t, i);
    }
    let f2 = f.update(pp, (f[pp] - 2) as u8);
    assert forall|q: int| 0 <= q < sets.len() implies slot_set_ok(#[trigger] sets[q]) && sets[q].1 >= 0 by {
        assert(sets[q] == slot_of(x[q + 1]));
        lemma_set_slots(x[q + 1], 0);
    }
    assert forall|i: int| 0 <= i < 34 implies f2[i] == #[trigger] slot_sets_count(sets, i) by {
        assert(count_index(t, i) <= 14);
        assert(count_index(t, i) == count_index(x[0].tile_seq(), i) + slot_sets_count(sets, i));
        assert(count_index(seq![a, a], i) == if i == pp {
            2int
        } else {
            0
        });
        lemma_slot_sets_nonneg(sets, i);
        assert(f[i] == count_index(t, i) as u8);
        if i == pp {
            assert(f2[i] == (f[pp] - 2) as u8);
        } else {
            assert(f2[i] == f[i]);
        }
    }
    lemma_blocks_find_sets(0, 0, 0, f2, 1, sets);
    assert(f[pp] >= 2) by {
        assert(count_index(t, pp) <= 14);
        lemma_slot_sets_nonneg(sets, pp);
    }
    lemma_standard_le_pair(f, 34, pp);
    lemma_hand_shanten_range(t);
}

/// No hand is more than six steps from tenpai: seven pairs alone are never
/// further away than that. A hand holding seven kinds at least twice is
/// complete as far as seven pairs go.
pub proof fn lemma_shanten_at_most_six(f: Seq<u8>)
    ensures
        shanten_of(f) <= 6,
        slots_with(f, 34, 2) >= 7 ==> shanten_of(f) <= -1,
{
    lemma_slots_with_range(f, 34, 2);
}

pub fn calculate_shanten_from_array(freq_array: &mut [u8; 34]) -> (r: i32)
    requires
        fsum(old(freq_array)@) <= 511,
    ensures
        final(freq_array)@ == old(freq_array)@,
        r == shanten_of(old(freq_array)@),
{
    let standard = calculate_standard_shanten(freq_array);
    let mut shanten: i32 = imin32(8, standard);
    shanten = imin32(shanten, calculate_chiitoitsu_shanten(freq_array));
    shanten = imin32(shanten, calculate_kokushi_shanten(freq_array));
    shanten
}

pub proof fn lemma_fsum_freq_seq(s: Seq<Tile>)
    requires
        all_valid(s),
        s.len() <= 255,
    ensures
        fsum(freq_seq(s)) == s.len(),
{
    lemma_fsum_counts(s, 34);
    lemma_counts_total(s);
}

proof fn lemma_fsum_counts(s: Seq<Tile>, n: int)
    requires
        0 <= n <= 34,
        s.len() <= 255,
    ensures
        fsum_upto(freq_seq(s), n) == count_below(s, n),
    decreases n,
{
    if n > 0 {
        lemma_fsum_counts(s, n - 1);
        lemma_count_index_le(s, n - 1);
    }
}

/// How many tiles of `s` sit at positions below `n`.
pub open spec fn count_below(s: Seq<Tile>, n: int) -> int
    decreases n,
{
    if n <= 0 {
        0
    } else {
        count_below(s, n - 1) + count_index(s, n - 1)
    }
}

proof fn lemma_count_below_push(s: Seq<Tile>, t: Tile, n: int)
    requires
        0 <= n,
    ensures
        count_below(s.push(t), n) == count_below(s, n) + if 0 <= crate::tile::index_of(t) < n {
            1int
        } else {
            0
        },
    decreases n,
{
    assert(s.push(t).drop_last() == s);
    if n > 0 {
        lemma_count_below_push(s, t, n - 1);
    }
}

proof fn lemma_count_below_empty(s: Seq<Tile>, n: int)
    requires
        s.len() == 0,
    ensures
        count_below(s, n) == 0,
    decreases n,
{
    if n > 0 {
        lemma_count_below_empty(s, n - 1);
    }
}

proof fn lemma_counts_total(s: Seq<Tile>)
    requires
        all_valid(s),
    ensures
        count_below(s, 34) == s.len(),
    decreases s.len(),
{
    if s.len() > 0 {
        let t = s.last();
        assert(valid_tile(s[s.len() - 1]));
        assert(s.drop_last().push(t) == s);
        lemma_counts_total(s.drop_last());
        lemma_count_below_push(s.drop_last(), t, 34);
        crate::tile::lemma_index_round_trip(t, 0);
    } else {
        lemma_count_below_empty(s, 34);
    }
}

/// The shanten of a hand given as tiles.
pub fn calculate_shanten(hand: &[Tile]) -> (r: i32)
    requires
        all_valid(hand@),
        hand@.len() <= 255,
    ensures
        r == shanten_of(freq_seq(hand@)),
{
    proof {
        crate::counting::lemma_short_kinds_fit(hand@);
    }
    let mut freq_array = tiles_to_frequency_array(hand);
    proof {
        lemma_fsum_freq_seq(hand@);
    }
    calculate_shanten_from_array(&mut freq_array)
}

/// The kinds below `n` that, drawn once more, lower the shanten below
/// `current` (kinds already held four times are skipped).
pub open spec fn ukeire_upto(f: Seq<u8>, current: int, n: int) -> Seq<usize>
    decreases n,
{
    if n <= 0 {
        Seq::empty()
    } else {
        let rest = ukeire_upto(f, current, n - 1);
        let i = n - 1;
        if f[i] < 4 && shanten_of(f.update(i, (f[i] + 1) as u8)) < current {
            rest.push(i as usize)
        } else {
            rest
        }
    }
}

pub fn ukeire_tiles(freq_array: &mut [u8; 34], current_shanten: i32) -> (ukeire: Vec<usize>)
    requires
        fsum(old(freq_array)@) <= 510,
    ensures
        final(freq_array)@ == old(freq_array)@,
        ukeire@ == ukeire_upto(old(freq_array)@, current_shanten as int, 34),
{
    let ghost f = freq_array@;
    let mut ukeire: Vec<usize> = Vec::new();
    let mut i: usize = 0;
    while i < 34
        invariant
            i <= 34,
            freq_array@ == f,
            fsum(f) <= 510,
            ukeire@ == ukeire_upto(f, current_shanten as int, i as int),
        decreases 34 - i,
    {
        if freq_array[i] < 4 {
            proof {
                lemma_fsum_update(f, i as int, (f[i as int] + 1) as u8);
            }
            freq_array[i] = freq_array[i] + 1;
            let s = calculate_shanten_from_array(freq_array);
            if s < current_shanten {
                ukeire.push(i);
            }
            freq_array[i] = freq_array[i] - 1;
            assert(freq_array@ =~= f);
        }
        i = i + 1;
    }
    ukeire
}

} // verus!
