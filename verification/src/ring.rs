//! Hash positions on the ring `[0, u32::MAX]` and the arcs between them.
//!
//! A hash is a `u32`; the ring is the interval `[0, u32::MAX]` whose two ends
//! are identified, so that a fraction `x` of the ring is `x * u32::MAX`.

use vstd::prelude::*;
use itertools::Itertools;

verus! {

/// `s` is in ascending order.
pub open spec fn is_sorted(s: Seq<u32>) -> bool {
    forall|i: int, j: int| 0 <= i <= j < s.len() ==> s[i] <= s[j]
}

/// `p` holds the elements of `s` in ascending order.
pub open spec fn is_sorted_permutation_of(p: Seq<u32>, s: Seq<u32>) -> bool {
    is_sorted(p) && p.to_multiset() == s.to_multiset()
}

/// Calls `Itertools::sorted` (which sorts with `slice::sort`) and collects the
/// result. Claims that the result is in ascending order and holds the same
/// elements as the input, each as often.
#[verifier::external_body]
fn itertools_sorted(v: Vec<u32>) -> (r: Vec<u32>)
    ensures
        is_sorted_permutation_of(r@, v@),
{
    v.into_iter().sorted().collect()
}

/// Calls `slice::sort` on the vector. Claims that afterwards it is in
/// ascending order and holds the same elements as before, each as often.
#[verifier::external_body]
fn slice_sort(v: &mut Vec<u32>)
    ensures
        is_sorted_permutation_of(final(v)@, old(v)@),
{
    v.sort()
}

/// The hashes in ascending order.
pub fn sort_hashes(hashes: Vec<u32>) -> (r: Vec<u32>)
    ensures
        is_sorted_permutation_of(r@, hashes@),
{
    itertools_sorted(hashes)
}

/// Sorts the hashes in place.
pub fn sort_hashes_in_place(hashes: &mut Vec<u32>)
    ensures
        is_sorted_permutation_of(final(hashes)@, old(hashes)@),
{
    slice_sort(hashes)
}

/// The hashes of `s` rotated so that its first hash sits at 0.
pub open spec fn shift_to_origin(s: Seq<u32>) -> Seq<u32> {
    Seq::new(s.len(), |i: int| (s[i] - s[0]) as u32)
}

/// The ring's positions for the sorted hashes `s`: the hashes rotated so
/// that the first sits at 0, followed by the end of the ring, `u32::MAX`,
/// where the ring wraps round to the first hash again.
pub open spec fn closed_ring(s: Seq<u32>) -> Seq<u32> {
    shift_to_origin(s).push(u32::MAX)
}

/// The length of the arc from position `i` to position `i + 1`.
pub open spec fn arc(p: Seq<u32>, i: int) -> int {
    p[i + 1] - p[i]
}

/// The total length of the first `k` arcs of the positions `p`.
pub open spec fn arcs_sum(p: Seq<u32>, k: int) -> int
    decreases k,
{
    if k <= 0 {
        0
    } else {
        arcs_sum(p, k - 1) + arc(p, k - 1)
    }
}

/// The lengths of all arcs between consecutive positions of `p`.
pub open spec fn ring_arcs(p: Seq<u32>) -> Seq<u32> {
    Seq::new((p.len() - 1) as nat, |i: int| (p[i + 1] - p[i]) as u32)
}

/// The sum of the values of `s`.
pub open spec fn seq_sum(s: Seq<u32>) -> int
    decreases s.len(),
{
    if s.len() == 0 {
        0
    } else {
        seq_sum(s.drop_last()) + s.last()
    }
}

/// Rotating sorted hashes to the origin keeps them sorted and puts the first
/// one at 0; closing the ring keeps them sorted too.
pub proof fn lemma_closed_ring_sorted(s: Seq<u32>)
    requires
        is_sorted(s),
        s.len() > 0,
    ensures
        is_sorted(shift_to_origin(s)),
        shift_to_origin(s)[0] == 0,
        is_sorted(closed_ring(s)),
        closed_ring(s)[0] == 0,
        closed_ring(s).len() == s.len() + 1,
        closed_ring(s)[s.len() as int] == u32::MAX,
{
    assert forall|i: int, j: int| 0 <= i <= j < s.len() implies shift_to_origin(s)[i]
        <= shift_to_origin(s)[j] by {
        assert(s[0] <= s[i]);
    }
    assert forall|i: int, j: int|
        0 <= i <= j < closed_ring(s).len() implies closed_ring(s)[i] <= closed_ring(s)[j] by {
        if j < s.len() {
            assert(s[0] <= s[i]);
        }
    }
}

/// The first `b` arcs minus the first `a` arcs span exactly from position
/// `a` to position `b`.
pub proof fn lemma_arcs_telescope(p: Seq<u32>, a: int, b: int)
    requires
        0 <= a <= b < p.len(),
    ensures
        arcs_sum(p, b) - arcs_sum(p, a) == p[b] - p[a],
    decreases b - a,
{
    if b > a {
        lemma_arcs_telescope(p, a, b - 1);
    }
}

/// The sum of the listed arcs is the sum of the first arcs.
pub proof fn lemma_ring_arcs_sum(p: Seq<u32>, k: int)
    requires
        is_sorted(p),
        0 <= k < p.len(),
    ensures
        seq_sum(ring_arcs(p).take(k)) == arcs_sum(p, k),
    decreases k,
{
    if k > 0 {
        lemma_ring_arcs_sum(p, k - 1);
        assert(ring_arcs(p).take(k).drop_last() =~= ring_arcs(p).take(k - 1));
        assert(p[k - 1] <= p[k]);
    }
}

/// The arcs between the sorted positions of a closed ring cover the whole
/// ring exactly once: their lengths add up to `u32::MAX`.
pub proof fn ring_arcs_cover_ring(s: Seq<u32>)
    requires
        is_sorted(s),
        s.len() > 0,
    ensures
        arcs_sum(closed_ring(s), s.len() as int) == u32::MAX,
        seq_sum(ring_arcs(closed_ring(s))) == u32::MAX,
{
    let p = closed_ring(s);
    lemma_closed_ring_sorted(s);
    lemma_arcs_telescope(p, 0, s.len() as int);
    lemma_ring_arcs_sum(p, s.len() as int);
    assert(ring_arcs(p).take(s.len() as int) =~= ring_arcs(p));
}

/// With the first hash pinned at 0, the first `k` arcs together reach
/// exactly to the position of hash `k` (counting from 0).
pub proof fn first_arcs_reach_hash(s: Seq<u32>, k: int)
    requires
        is_sorted(s),
        s.len() > 0,
        0 <= k <= s.len(),
    ensures
        arcs_sum(closed_ring(s), k) == closed_ring(s)[k],
{
    lemma_closed_ring_sorted(s);
    lemma_arcs_telescope(closed_ring(s), 0, k);
}

/// Two different arcs of a closed ring never overlap, so together they are
/// never longer than the whole ring.
pub proof fn two_arcs_fit_in_ring(s: Seq<u32>, a: int, b: int)
    requires
        is_sorted(s),
        0 <= a < b < s.len(),
    ensures
        0 <= arc(closed_ring(s), a),
        0 <= arc(closed_ring(s), b),
        arc(closed_ring(s), a) + arc(closed_ring(s), b) <= u32::MAX,
{
    lemma_closed_ring_sorted(s);
    let p = closed_ring(s);
    assert(p[a + 1] <= p[b]);
}

/// Rotating the ring so that the first hash sits at 0 does not change the
/// arcs: each arc between two hashes keeps its length, and the last arc,
/// from the largest hash round the end of the ring, is what the ring has
/// left beyond the span from the first hash to the largest.
pub proof fn rotation_keeps_arcs(s: Seq<u32>, i: int)
    requires
        is_sorted(s),
        0 <= i < s.len(),
    ensures
        i + 1 < s.len() ==> arc(closed_ring(s), i) == s[i + 1] - s[i],
        i + 1 == s.len() ==> arc(closed_ring(s), i) == u32::MAX - (s[i] - s[0]),
{
    assert(s[0] <= s[i]);
    if i + 1 < s.len() {
        assert(s[0] <= s[i + 1]);
    }
}

/// The hashes rotated so that the first sits at 0.
pub fn rotate_to_origin(sorted: &Vec<u32>) -> (p: Vec<u32>)
    requires
        sorted.len() > 0,
        is_sorted(sorted@),
    ensures
        p@ == shift_to_origin(sorted@),
{
    let first = sorted[0];
    let mut p: Vec<u32> = Vec::with_capacity(sorted.len());
    let mut i: usize = 0;
    while i < sorted.len()
        invariant
            first == sorted[0],
            is_sorted(sorted@),
            i <= sorted.len(),
            p@ == shift_to_origin(sorted@).take(i as int),
        decreases sorted.len() - i,
    {
        assert(sorted[0] <= sorted[i as int]);
        p.push(sorted[i] - first);
        i = i + 1;
        assert(p@ =~= shift_to_origin(sorted@).take(i as int));
    }
    assert(p@ =~= shift_to_origin(sorted@));
    p
}

/// The ring's positions for the sorted hashes: rotated so that the first
/// hash sits at 0, then closed by the end of the ring, `u32::MAX`.
pub fn close_ring(sorted: &Vec<u32>) -> (p: Vec<u32>)
    requires
        sorted.len() > 0,
        is_sorted(sorted@),
    ensures
        p@ == closed_ring(sorted@),
{
    let mut p = rotate_to_origin(sorted);
    p.push(u32::MAX);
    p
}

/// The length of the arc from position `i` to position `i + 1`.
pub fn arc_length(positions: &Vec<u32>, i: usize) -> (r: u32)
    requires
        i + 1 < positions.len(),
        positions[i as int] <= positions[i + 1],
    ensures
        r == arc(positions@, i as int),
{
    positions[i + 1] - positions[i]
}

} // verus!
