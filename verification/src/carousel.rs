//! Ordering of outputs in the cover-flow carousel ring.

use vstd::prelude::*;

verus! {

/// Output `j` sorts before output `i`: by position `(x, y)`, ties kept in the original order.
pub open spec fn sorts_before(p: Seq<(i32, i32)>, j: int, i: int) -> bool {
    ||| p[j].0 < p[i].0
    ||| p[j].0 == p[i].0 && p[j].1 < p[i].1
    ||| p[j].0 == p[i].0 && p[j].1 == p[i].1 && j < i
}

/// How many of the first `m` outputs sort before output `i`.
pub open spec fn rank_upto(p: Seq<(i32, i32)>, i: int, m: int) -> int
    decreases m,
{
    if m <= 0 {
        0
    } else {
        rank_upto(p, i, m - 1) + if sorts_before(p, m - 1, i) {
            1int
        } else {
            0int
        }
    }
}

/// Output `i`'s place when all outputs are sorted by position.
pub open spec fn rank(p: Seq<(i32, i32)>, i: int) -> int {
    rank_upto(p, i, p.len() as int)
}

proof fn lemma_rank_upto_bounds(p: Seq<(i32, i32)>, i: int, m: int)
    ensures
        0 <= rank_upto(p, i, m) <= if m < 0 {
            0
        } else {
            m
        },
    decreases m,
{
    if m > 0 {
        lemma_rank_upto_bounds(p, i, m - 1);
    }
}

/// If `a` sorts before `b`, everything before `a` is before `b` too, and `a` itself is.
proof fn lemma_rank_upto_increases(p: Seq<(i32, i32)>, a: int, b: int, m: int)
    requires
        0 <= a < p.len(),
        0 <= b < p.len(),
        m <= p.len(),
        sorts_before(p, a, b),
    ensures
        rank_upto(p, a, m) + (if a < m {
            1int
        } else {
            0int
        }) <= rank_upto(p, b, m),
    decreases m,
{
    if m > 0 {
        lemma_rank_upto_increases(p, a, b, m - 1);
    }
}

/// Outputs that sort earlier get a smaller ring position.
pub proof fn lemma_rank_strictly_increasing(p: Seq<(i32, i32)>, a: int, b: int)
    requires
        0 <= a < p.len(),
        0 <= b < p.len(),
        sorts_before(p, a, b),
    ensures
        rank(p, a) < rank(p, b),
{
    lemma_rank_upto_increases(p, a, b, p.len() as int);
}

/// No two outputs share a ring position.
pub proof fn lemma_ring_positions_distinct(p: Seq<(i32, i32)>, a: int, b: int)
    requires
        0 <= a < p.len(),
        0 <= b < p.len(),
        a != b,
    ensures
        rank(p, a) != rank(p, b),
{
    if sorts_before(p, a, b) {
        lemma_rank_strictly_increasing(p, a, b);
    } else {
        assert(sorts_before(p, b, a));
        lemma_rank_strictly_increasing(p, b, a);
    }
}

/// Every ring rank lies in `0..n`.
pub proof fn lemma_rank_in_range(p: Seq<(i32, i32)>, i: int)
    ensures
        0 <= rank(p, i) <= p.len(),
        0 <= i < p.len() ==> rank(p, i) < p.len(),
{
    lemma_rank_upto_bounds(p, i, p.len() as int);
    if 0 <= i < p.len() {
        lemma_rank_upto_below(p, i, p.len() as int);
    }
}

/// An output never sorts before itself, so among the first `m` outputs at most `m - 1` come
/// before it when it is one of them.
proof fn lemma_rank_upto_below(p: Seq<(i32, i32)>, i: int, m: int)
    requires
        0 <= i < m <= p.len(),
    ensures
        rank_upto(p, i, m) < m,
    decreases m,
{
    lemma_rank_upto_bounds(p, i, m - 1);
    if m - 1 > i {
        lemma_rank_upto_below(p, i, m - 1);
    }
}

/// The ring follows the outputs' physical layout: an output further left is further left in
/// the ring; at the same `x`, the higher one (smaller `y`) comes first; outputs at the same
/// position keep their order; the host is at position zero; and the positions are distinct
/// and run over `-rank(host) .. n - rank(host)`.
pub proof fn lemma_ring_follows_layout(p: Seq<(i32, i32)>, host: int, a: int, b: int)
    requires
        0 <= host < p.len(),
        0 <= a < p.len(),
        0 <= b < p.len(),
    ensures
        p[a].0 < p[b].0 ==> rank(p, a) - rank(p, host) < rank(p, b) - rank(p, host),
        p[a].0 == p[b].0 && p[a].1 < p[b].1 ==> rank(p, a) - rank(p, host) < rank(p, b) - rank(
            p,
            host,
        ),
        p[a] == p[b] && a < b ==> rank(p, a) < rank(p, b),
        a != b ==> rank(p, a) != rank(p, b),
        rank(p, host) - rank(p, host) == 0,
        -rank(p, host) <= rank(p, a) - rank(p, host) < p.len() - rank(p, host),
{
    if p[a].0 < p[b].0 || (p[a].0 == p[b].0 && p[a].1 < p[b].1) || (p[a] == p[b] && a < b) {
        lemma_rank_strictly_increasing(p, a, b);
    }
    if a != b {
        lemma_ring_positions_distinct(p, a, b);
    }
    lemma_rank_in_range(p, a);
}

fn sorts_before_exec(positions: &[(i32, i32)], j: usize, i: usize) -> (r: bool)
    requires
        j < positions@.len(),
        i < positions@.len(),
    ensures
        r == sorts_before(positions@, j as int, i as int),
{
    let (xj, yj) = positions[j];
    let (xi, yi) = positions[i];
    xj < xi || (xj == xi && yj < yi) || (xj == xi && yj == yi && j < i)
}

fn rank_of(positions: &[(i32, i32)], i: usize) -> (r: usize)
    requires
        i < positions@.len(),
    ensures
        r == rank(positions@, i as int),
{
    let mut count: usize = 0;
    let mut m: usize = 0;
    while m < positions.len()
        invariant
            m <= positions@.len(),
            i < positions@.len(),
            count == rank_upto(positions@, i as int, m as int),
        decreases positions@.len() - m,
    {
        proof {
            lemma_rank_upto_bounds(positions@, i as int, m as int);
        }
        if sorts_before_exec(positions, m, i) {
            count = count + 1;
        }
        m = m + 1;
    }
    count
}

/// Signed ring position per output (same order as `positions`): the host gets 0, outputs that
/// sort before it (by `(x, y)` position) get -1, -2, … nearest first, those after it 1, 2, ….
pub fn ring_positions(positions: &[(i32, i32)], host_idx: usize) -> (ring: Vec<i64>)
    requires
        host_idx < positions@.len(),
        positions@.len() <= i64::MAX,
    ensures
        ring@.len() == positions@.len(),
        forall|i: int|
            0 <= i < positions@.len() ==> #[trigger] ring@[i] == rank(positions@, i) - rank(
                positions@,
                host_idx as int,
            ),
{
    let host = rank_of(positions, host_idx);
    proof {
        lemma_rank_upto_bounds(positions@, host_idx as int, positions@.len() as int);
    }
    let mut ring: Vec<i64> = Vec::new();
    let mut i: usize = 0;
    while i < positions.len()
        invariant
            i <= positions@.len(),
            positions@.len() <= i64::MAX,
            host == rank(positions@, host_idx as int),
            host <= positions@.len(),
            ring@.len() == i,
            forall|j: int|
                0 <= j < i ==> #[trigger] ring@[j] == rank(positions@, j) - rank(
                    positions@,
                    host_idx as int,
                ),
        decreases positions@.len() - i,
    {
        let r = rank_of(positions, i);
        proof {
            lemma_rank_upto_bounds(positions@, i as int, positions@.len() as int);
        }
        ring.push(r as i64 - host as i64);
        i = i + 1;
    }
    ring
}

} // verus!
