//! How a bot notices a cheat after the lights come back: it compares the
//! ponds it remembers with the ponds on the table, and it may know from the
//! record of swaps who cheated on a pond it found changed.

use vstd::prelude::*;
use crate::tile::Tile;

verus! {

/// Which ponds a bot remembers, by how far round the table they lie: its
/// own always, its neighbours' when it is `keen`, the one across the table
/// when it is `very_keen`.
pub open spec fn remembers(distance: u8, keen: bool, very_keen: bool) -> bool {
    if distance == 0 {
        true
    } else if distance == 1 || distance == 3 {
        keen
    } else if distance == 2 {
        very_keen
    } else {
        false
    }
}

pub fn can_remember(distance: u8, keen: bool, very_keen: bool) -> (b: bool)
    ensures
        b == remembers(distance, keen, very_keen),
{
    match distance {
        0 => true,
        1 | 3 => keen,
        2 => very_keen,
        _ => false,
    }
}

/// A pond changed since it was remembered: same length, some tile differs.
pub open spec fn changed(before: Seq<Tile>, now: Seq<Tile>) -> bool {
    before.len() == now.len() && exists|i: int| 0 <= i < before.len() && before[i] != now[i]
}

/// The seats among the first `n` whose pond the bot remembers and finds
/// changed, in seat order.
pub open spec fn tampered_upto(before: Seq<Vec<Tile>>, now: Seq<Vec<Tile>>, mem: Seq<bool>, n: int) -> Seq<usize>
    decreases n,
{
    if n <= 0 {
        Seq::empty()
    } else {
        tampered_upto(before, now, mem, n - 1) + if mem[n - 1] && changed(before[n - 1]@, now[n - 1]@) {
            seq![(n - 1) as usize]
        } else {
            Seq::empty()
        }
    }
}

fn pond_changed(before: &Vec<Tile>, now: &Vec<Tile>) -> (b: bool)
    ensures
        b == changed(before@, now@),
{
    if before.len() != now.len() {
        return false;
    }
    let mut i: usize = 0;
    while i < before.len()
        invariant
            before@.len() == now@.len(),
            i <= before@.len(),
            forall|j: int| 0 <= j < i ==> before@[j] == now@[j],
        decreases before@.len() - i,
    {
        if before[i] != now[i] {
            return true;
        }
        i = i + 1;
    }
    false
}

/// The seats whose ponds changed, among those the bot remembers
/// (`memory[s]`), comparing `snapshot[s]` with `current[s]`.
pub fn tampered_ponds(snapshot: &[Vec<Tile>], current: &[Vec<Tile>], memory: &[bool]) -> (out: Vec<usize>)
    requires
        current@.len() == snapshot@.len(),
        memory@.len() == snapshot@.len(),
    ensures
        out@ == tampered_upto(snapshot@, current@, memory@, snapshot@.len() as int),
{
    let mut out: Vec<usize> = Vec::new();
    let mut s: usize = 0;
    while s < snapshot.len()
        invariant
            current@.len() == snapshot@.len(),
            memory@.len() == snapshot@.len(),
            s <= snapshot@.len(),
            out@ == tampered_upto(snapshot@, current@, memory@, s as int),
        decreases snapshot@.len() - s,
    {
        if memory[s] && pond_changed(&snapshot[s], &current[s]) {
            out.push(s);
        } else {
            assert(out@ == out@ + Seq::<usize>::empty());
        }
        s = s + 1;
    }
    out
}

/// A swap made in the dark, as the game records it.
#[derive(Clone, Copy, PartialEq, Eq, Debug, Structural)]
pub struct CheatEntry {
    pub cheater: usize,
    pub target_kawa: usize,
    pub tile_taken: Tile,
    pub tile_left: Tile,
}

/// The first recorded cheat, from position `k` on, on one of the ponds
/// found changed.
pub open spec fn first_cheat_on(log: Seq<CheatEntry>, detected: Seq<usize>, k: int) -> Option<usize>
    decreases log.len() - k,
{
    if k < 0 || k >= log.len() {
        None
    } else if detected.contains(log[k].target_kawa) {
        Some(log[k].cheater)
    } else {
        first_cheat_on(log, detected, k + 1)
    }
}

fn holds(v: &[usize], x: usize) -> (b: bool)
    ensures
        b == v@.contains(x),
{
    let mut i: usize = 0;
    while i < v.len()
        invariant
            i <= v@.len(),
            forall|j: int| 0 <= j < i ==> v@[j] != x,
        decreases v@.len() - i,
    {
        if v[i] == x {
            return true;
        }
        i = i + 1;
    }
    false
}

/// Who a bot that reads the record right suspects: the cheater of the
/// first recorded swap on a pond it found changed.
pub fn suspect_from_log(log: &[CheatEntry], detected: &[usize]) -> (s: Option<usize>)
    ensures
        s == first_cheat_on(log@, detected@, 0),
{
    let mut k: usize = 0;
    while k < log.len()
        invariant
            k <= log@.len(),
            first_cheat_on(log@, detected@, 0) == first_cheat_on(log@, detected@, k as int),
        decreases log@.len() - k,
    {
        if holds(detected, log[k].target_kawa) {
            return Some(log[k].cheater);
        }
        k = k + 1;
    }
    None
}

} // verus!
