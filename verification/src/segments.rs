//! The segments that random hashes cut the ring into, produced in batches,
//! and the lengths of groups of `k` adjacent segments.

use vstd::prelude::*;
use crate::random::{fill_random_words, RandomError};
use crate::ring::{
    close_ring, closed_ring, is_sorted, is_sorted_permutation_of, lemma_closed_ring_sorted,
    ring_arcs, ring_arcs_cover_ring, seq_sum, sort_hashes_in_place,
};

verus! {

/// The sum of a concatenation is the sum of its parts.
pub proof fn lemma_seq_sum_append(a: Seq<u32>, b: Seq<u32>)
    ensures
        seq_sum(a + b) == seq_sum(a) + seq_sum(b),
    decreases b.len(),
{
    if b.len() > 0 {
        lemma_seq_sum_append(a, b.drop_last());
        assert((a + b).drop_last() =~= a + b.drop_last());
    }
}

/// A sum of `u32`s is never negative.
pub proof fn lemma_seq_sum_nonnegative(s: Seq<u32>)
    ensures
        seq_sum(s) >= 0,
    decreases s.len(),
{
    if s.len() > 0 {
        lemma_seq_sum_nonnegative(s.drop_last());
    }
}

/// The sum of a contiguous part is the difference of two prefix sums, and
/// is at most the sum of the whole.
pub proof fn lemma_seq_sum_subrange(s: Seq<u32>, a: int, b: int)
    requires
        0 <= a <= b <= s.len(),
    ensures
        seq_sum(s.take(b)) == seq_sum(s.take(a)) + seq_sum(s.subrange(a, b)),
        seq_sum(s.subrange(a, b)) <= seq_sum(s),
        seq_sum(s.take(b)) <= seq_sum(s),
{
    assert(s.take(b) =~= s.take(a) + s.subrange(a, b));
    lemma_seq_sum_append(s.take(a), s.subrange(a, b));
    assert(s =~= s.take(b) + s.subrange(b, s.len() as int));
    lemma_seq_sum_append(s.take(b), s.subrange(b, s.len() as int));
    lemma_seq_sum_nonnegative(s.take(a));
    lemma_seq_sum_nonnegative(s.subrange(b, s.len() as int));
}

/// The lengths of the groups of `k` adjacent segments: group `j` is made of
/// segments `j * k` to `j * k + k - 1`; segments after the last whole group
/// are left out.
pub fn sum_k_segments(segments: &Vec<u32>, k: usize) -> (sums: Vec<u32>)
    requires
        k > 0,
        seq_sum(segments@) <= u32::MAX,
    ensures
        sums.len() == segments.len() / k,
        forall|j: int|
            0 <= j < sums.len() ==> #[trigger] sums[j] as int == seq_sum(
                segments@.subrange(j * k, j * k + k),
            ),
        seq_sum(sums@) == seq_sum(segments@.take(sums.len() * k)),
        seq_sum(sums@) <= u32::MAX,
{
    let groups = segments.len() / k;
    proof {
        vstd::arithmetic::div_mod::lemma_fundamental_div_mod(segments.len() as int, k as int);
        assert(k * groups <= segments.len()) by (nonlinear_arith)
            requires
                segments.len() == k * (segments.len() / k) + segments.len() % k,
                segments.len() % k >= 0,
                groups == segments.len() / k,
        ;
    }
    let mut sums: Vec<u32> = Vec::with_capacity(groups);
    let mut j: usize = 0;
    let mut start: usize = 0;
    while j < groups
        invariant
            k > 0,
            groups == segments.len() / k,
            k * groups <= segments.len(),
            seq_sum(segments@) <= u32::MAX,
            j <= groups,
            start == j * k,
            sums.len() == j,
            forall|i: int|
                0 <= i < j ==> #[trigger] sums[i] as int == seq_sum(
                    segments@.subrange(i * k, i * k + k),
                ),
            seq_sum(sums@) == seq_sum(segments@.take(start as int)),
        decreases groups - j,
    {
        proof {
            assert(j * k + k <= groups * k) by (nonlinear_arith)
                requires
                    j < groups,
            ;
            assert(groups * k == k * groups) by (nonlinear_arith);
        }
        let end = start + k;
        let mut acc: u32 = 0;
        let mut i: usize = start;
        while i < end
            invariant
                start <= i <= end <= segments.len(),
                seq_sum(segments@) <= u32::MAX,
                acc as int == seq_sum(segments@.subrange(start as int, i as int)),
            decreases end - i,
        {
            proof {
                let s = segments@;
                assert(s.subrange(start as int, i + 1).drop_last() =~= s.subrange(
                    start as int,
                    i as int,
                ));
                lemma_seq_sum_subrange(s, start as int, i + 1);
            }
            acc = acc + segments[i];
            i = i + 1;
        }
        proof {
            let s = segments@;
            lemma_seq_sum_subrange(s, start as int, end as int);
            assert(sums@.push(acc).drop_last() =~= sums@);
            assert(start + k == (j + 1) * k) by (nonlinear_arith)
                requires
                    start == j * k,
            ;
        }
        sums.push(acc);
        j = j + 1;
        start = end;
    }
    proof {
        lemma_seq_sum_subrange(segments@, 0, start as int);
        assert(groups * k == k * groups) by (nonlinear_arith);
    }
    sums
}


/// A group of `k` segments, when `k` is the number of segments of a ring,
/// holds them all and is the whole ring: there is exactly one such group
/// and its length is `u32::MAX`.
pub proof fn group_of_all_segments_is_whole_ring(segments: Seq<u32>, k: int)
    requires
        seq_sum(segments) == u32::MAX,
        k == segments.len(),
        k > 0,
    ensures
        (segments.len() as int) / k == 1,
        seq_sum(segments.subrange(0 * k, 0 * k + k)) == u32::MAX,
{
    assert(segments.subrange(0 * k, 0 * k + k) =~= segments);
}

/// `segments` are the pieces that the points of `window`, together with a
/// point at 0, cut the ring into: with `p` those points in ascending order,
/// segment `i` runs from `p[i]` to `p[i + 1]`, and the last one from the
/// largest point round the end of the ring back to 0.
pub open spec fn cut_by_window(segments: Seq<u32>, window: Seq<u32>) -> bool {
    exists|p: Seq<u32>|
        is_sorted_permutation_of(p, window.push(0)) && segments == ring_arcs(closed_ring(p))
}

/// The lengths of the arcs between consecutive positions.
pub fn arcs_between(positions: &Vec<u32>) -> (arcs: Vec<u32>)
    requires
        positions.len() > 0,
        is_sorted(positions@),
    ensures
        arcs@ == ring_arcs(positions@),
{
    let n = positions.len() - 1;
    let mut arcs: Vec<u32> = Vec::with_capacity(n);
    let mut i: usize = 0;
    while i < n
        invariant
            n + 1 == positions.len(),
            is_sorted(positions@),
            i <= n,
            arcs@ == ring_arcs(positions@).take(i as int),
        decreases n - i,
    {
        assert(positions[i as int] <= positions[i + 1]);
        arcs.push(positions[i + 1] - positions[i]);
        i = i + 1;
        assert(arcs@ =~= ring_arcs(positions@).take(i as int));
    }
    assert(arcs@ =~= ring_arcs(positions@));
    arcs
}

/// The segments that the points of `window` and a point at 0 cut the ring
/// into, in ring order starting from 0. They add up to the whole ring.
pub fn segments_from_window(window: &Vec<u32>) -> (segments: Vec<u32>)
    ensures
        cut_by_window(segments@, window@),
        segments.len() == window.len() + 1,
        seq_sum(segments@) == u32::MAX,
{
    let mut points: Vec<u32> = Vec::with_capacity(window.len());
    let mut i: usize = 0;
    while i < window.len()
        invariant
            i <= window.len(),
            points@ == window@.take(i as int),
        decreases window.len() - i,
    {
        points.push(window[i]);
        i = i + 1;
        assert(points@ =~= window@.take(i as int));
    }
    assert(points@ =~= window@);
    points.push(0);
    let ghost unsorted = points@;
    sort_hashes_in_place(&mut points);
    proof {
        broadcast use vstd::seq_lib::group_to_multiset_ensures;
        assert(unsorted.contains(0u32)) by {
            assert(unsorted[unsorted.len() - 1] == 0);
        }
        assert(unsorted.to_multiset().count(0u32) > 0);
        assert(points@.to_multiset().count(0u32) > 0);
        assert(points@.contains(0u32));
        assert(points@.len() == points@.to_multiset().len());
        assert(unsorted.len() == unsorted.to_multiset().len());
        let z = choose|z: int| 0 <= z < points@.len() && points@[z] == 0u32;
        assert(points@[0] <= points@[z]);
        lemma_closed_ring_sorted(points@);
        ring_arcs_cover_ring(points@);
    }
    let ring = close_ring(&points);
    let segments = arcs_between(&ring);
    proof {
        assert(is_sorted_permutation_of(points@, window@.push(0)));
    }
    segments
}

/// How many random points each ring takes: one less than the ring's number
/// of hashes (the point at 0 is the other), but at least one.
pub open spec fn points_per_run(n: nat) -> nat {
    if n <= 1 {
        1
    } else {
        (n - 1) as nat
    }
}

/// How many rings one batch of random words serves: as many as fit in about
/// a megabyte, but at least one.
pub open spec fn runs_per_batch(n: nat) -> nat {
    let q = 1_000_000nat / (points_per_run(n) * 4);
    if q < 1 {
        1
    } else {
        q
    }
}

/// Produces one ring's worth of segments at a time. Random words are drawn a
/// batch at a time, about a megabyte, and each ring takes the next
/// `points_per_run` of them until the batch is used up.
pub struct SegmentGenerator {
    n: usize,
    batch: Vec<u32>,
    used: usize,
}

impl SegmentGenerator {
    #[verifier::type_invariant]
    spec fn well_formed(self) -> bool {
        &&& points_per_run(self.n as nat) * 4 <= usize::MAX
        &&& self.batch.len() == runs_per_batch(self.n as nat) * points_per_run(self.n as nat)
        &&& points_per_run(self.n as nat) <= self.batch.len()
        &&& self.batch.len() * 4 <= usize::MAX
        &&& self.used <= self.batch.len()
    }

    /// The number of hashes on each ring.
    pub closed spec fn ring_size(self) -> nat {
        self.n as nat
    }

    /// The current batch of random words.
    pub closed spec fn batch_words(self) -> Seq<u32> {
        self.batch@
    }

    /// How many words of the batch have been taken.
    pub closed spec fn words_used(self) -> nat {
        self.used as nat
    }

    /// A generator for rings of `n` hashes. Its batch is empty of fresh
    /// words, so the first ring draws a new batch.
    pub fn new(n: usize) -> (g: Self)
        requires
            points_per_run(n as nat) * 4 <= usize::MAX,
        ensures
            g.ring_size() == n,
            g.batch_words().len() == runs_per_batch(n as nat) * points_per_run(n as nat),
            g.words_used() == g.batch_words().len(),
    {
        let per_run: usize = if n <= 1 { 1 } else { n - 1 };
        let target_bytes: usize = 1_000_000;
        let q = target_bytes / (per_run * 4);
        let batch_runs: usize = if q < 1 { 1 } else { q };
        proof {
            let d: int = per_run as int * 4;
            vstd::arithmetic::div_mod::lemma_fundamental_div_mod(1_000_000int, d);
            assert(batch_runs * per_run <= 250_000 || batch_runs * per_run == per_run) by (nonlinear_arith)
                requires
                    per_run >= 1,
                    d == per_run * 4,
                    q as int == 1_000_000int / d,
                    1_000_000int == d * (1_000_000int / d) + 1_000_000int % d,
                    1_000_000int % d >= 0,
                    batch_runs == if q < 1 { 1 } else { q },
            ;
            assert(per_run <= batch_runs * per_run) by (nonlinear_arith)
                requires
                    batch_runs >= 1,
            ;
        }
        assert(per_run as nat == points_per_run(n as nat));
        assert(batch_runs as nat == runs_per_batch(n as nat));
        let len = batch_runs * per_run;
        let batch: Vec<u32> = vec![0u32; len];
        SegmentGenerator { n, batch, used: len }
    }

    /// The segments of the next ring: the next `points_per_run` words of the
    /// batch, drawing a new batch first when fewer words are left, and a
    /// point at 0 cut the ring into that many segments plus one, which add
    /// up to the whole ring.
    pub fn next(&mut self) -> (r: Result<Vec<u32>, RandomError>)
        ensures
            final(self).ring_size() == old(self).ring_size(),
            final(self).batch_words().len() == old(self).batch_words().len(),
            final(self).words_used() <= final(self).batch_words().len(),
            r is Err ==> r == Err::<Vec<u32>, RandomError>(RandomError::SourceFailed),
            old(self).words_used() + points_per_run(old(self).ring_size())
                <= old(self).batch_words().len() ==> r is Ok,
            r matches Ok(segments) ==> {
                let w = points_per_run(old(self).ring_size());
                let used = final(self).words_used();
                &&& old(self).words_used() + w <= old(self).batch_words().len() ==> {
                    &&& final(self).batch_words() == old(self).batch_words()
                    &&& used == old(self).words_used() + w
                }
                &&& old(self).words_used() + w > old(self).batch_words().len() ==> used == w
                &&& w <= used
                &&& cut_by_window(
                    segments@,
                    final(self).batch_words().subrange(used - w, used as int),
                )
                &&& segments.len() == w + 1
                &&& seq_sum(segments@) == u32::MAX
            },
    {
        proof {
            use_type_invariant(&*self);
        }
        let per_run: usize = if self.n <= 1 { 1 } else { self.n - 1 };
        if self.used > self.batch.len() - per_run {
            let mut fresh: Vec<u32> = vec![0u32; self.batch.len()];
            fill_random_words(&mut fresh)?;
            self.batch = fresh;
            self.used = 0;
        }
        let start = self.used;
        let mut window: Vec<u32> = Vec::with_capacity(per_run);
        let mut i: usize = 0;
        while i < per_run
            invariant
                start + per_run <= self.batch.len(),
                i <= per_run,
                window@ == self.batch@.subrange(start as int, start + i),
            decreases per_run - i,
        {
            window.push(self.batch[start + i]);
            i = i + 1;
            assert(window@ =~= self.batch@.subrange(start as int, start + i));
        }
        let segments = segments_from_window(&window);
        self.used = start + per_run;
        Ok(segments)
    }
}

/// `segments` are the pieces that `points_per_run(n)` random points and a
/// point at 0 cut the ring into.
pub open spec fn is_random_ring_cut(segments: Seq<u32>, n: nat) -> bool {
    exists|window: Seq<u32>|
        window.len() == points_per_run(n) && #[trigger] cut_by_window(segments, window)
}

/// The length of group `j` of `k` adjacent segments.
pub open spec fn group_length(segments: Seq<u32>, k: nat, j: int) -> int {
    seq_sum(segments.subrange(j * k, j * k + k))
}

/// `x` is the length of a group of `k` adjacent segments of a ring of `n`
/// hashes cut by random points.
pub open spec fn is_group_length(x: u32, n: nat, k: nat) -> bool {
    exists|segments: Seq<u32>, j: int|
        {
            &&& is_random_ring_cut(segments, n)
            &&& 0 <= j < segments.len() / k
            &&& x == #[trigger] group_length(segments, k, j)
        }
}

/// The lengths of all the groups of `k` adjacent segments of a ring, in
/// order.
pub open spec fn ring_groups(segments: Seq<u32>, k: nat) -> Seq<u32> {
    Seq::new(segments.len() / k, |j: int| group_length(segments, k, j) as u32)
}

/// `x` is the first group length of the ring that the points of `window`
/// and a point at 0 cut, and `rest` are that ring's other group lengths, in
/// order.
pub open spec fn starts_fresh_ring(x: u32, rest: Seq<u32>, window: Seq<u32>, k: nat) -> bool {
    exists|segments: Seq<u32>|
        {
            &&& cut_by_window(segments, window)
            &&& #[trigger] ring_groups(segments, k).len() >= 1
            &&& x == ring_groups(segments, k)[0]
            &&& rest == ring_groups(segments, k).drop_first()
        }
}

/// Draws the lengths of groups of `k` adjacent segments, one at a time: all
/// the groups of one ring in order, then those of the next ring.
pub struct KSumSampler {
    generator: SegmentGenerator,
    k: usize,
    sums: Vec<u32>,
    taken: usize,
    ring: Ghost<Seq<u32>>,
}

impl KSumSampler {
    /// The number of hashes on each ring.
    pub closed spec fn ring_size(&self) -> nat {
        self.generator.ring_size()
    }

    /// The number of adjacent segments in a group.
    pub closed spec fn group_size(&self) -> nat {
        self.k as nat
    }

    /// The generator's current batch of random words.
    pub closed spec fn batch_words(&self) -> Seq<u32> {
        self.generator.batch_words()
    }

    /// How many words of the generator's batch have been taken.
    pub closed spec fn words_used(&self) -> nat {
        self.generator.words_used()
    }

    /// The group lengths of the current ring that are still to be handed
    /// out, in order.
    pub closed spec fn pending(&self) -> Seq<u32> {
        self.sums@.subrange(self.taken as int, self.sums.len() as int)
    }

    /// The sampler's state is consistent: the group lengths still to be
    /// handed out are those of the current ring.
    pub closed spec fn well_formed(&self) -> bool {
        &&& 0 < self.k <= points_per_run(self.generator.ring_size()) + 1
        &&& self.taken <= self.sums.len()
        &&& self.sums.len() == self.ring@.len() / (self.k as nat)
        &&& forall|j: int|
            0 <= j < self.sums.len() ==> #[trigger] self.sums[j] as int == group_length(
                self.ring@,
                self.k as nat,
                j,
            )
        &&& self.sums.len() > 0 ==> is_random_ring_cut(self.ring@, self.generator.ring_size())
    }

    /// A sampler of the groups of `k` adjacent segments of rings of `n`
    /// hashes. Each ring has at least one such group.
    pub fn new(n: usize, k: usize) -> (s: Self)
        requires
            points_per_run(n as nat) * 4 <= usize::MAX,
            0 < k <= points_per_run(n as nat) + 1,
        ensures
            s.well_formed(),
            s.ring_size() == n,
            s.group_size() == k,
            s.pending().len() == 0,
    {
        KSumSampler {
            generator: SegmentGenerator::new(n),
            k,
            sums: Vec::new(),
            taken: 0,
            ring: Ghost(Seq::empty()),
        }
    }

    /// The length of the next group: the next group of the current ring, or
    /// the first group of a new ring when the current one has none left.
    pub fn next_sum(&mut self) -> (r: Result<u32, RandomError>)
        requires
            old(self).well_formed(),
        ensures
            final(self).well_formed(),
            final(self).ring_size() == old(self).ring_size(),
            final(self).group_size() == old(self).group_size(),
            r is Err ==> r == Err::<u32, RandomError>(RandomError::SourceFailed),
            r matches Ok(x) ==> is_group_length(x, old(self).ring_size(), old(self).group_size()),
            old(self).pending().len() > 0 ==> r is Ok,
            r matches Ok(x) ==> old(self).pending().len() > 0 ==> {
                &&& x == old(self).pending()[0]
                &&& final(self).pending() == old(self).pending().drop_first()
            },
            old(self).pending().len() > 0 ==> {
                &&& final(self).batch_words() == old(self).batch_words()
                &&& final(self).words_used() == old(self).words_used()
            },
            r matches Ok(x) ==> old(self).pending().len() == 0 ==> {
                let w = points_per_run(old(self).ring_size());
                let used = final(self).words_used();
                &&& old(self).words_used() + w <= old(self).batch_words().len() ==> {
                    &&& final(self).batch_words() == old(self).batch_words()
                    &&& used == old(self).words_used() + w
                }
                &&& old(self).words_used() + w > old(self).batch_words().len() ==> used == w
                &&& final(self).batch_words().len() == old(self).batch_words().len()
                &&& w <= used <= final(self).batch_words().len()
                &&& starts_fresh_ring(
                    x,
                    final(self).pending(),
                    final(self).batch_words().subrange(used - w, used as int),
                    old(self).group_size(),
                )
            },
    {
        if self.taken >= self.sums.len() {
            let segments = self.generator.next()?;
            proof {
                let w = points_per_run(self.generator.ring_size());
                let used = self.generator.words_used();
                let window = self.generator.batch_words().subrange(used - w, used as int);
                assert(window.len() == w);
                assert(is_random_ring_cut(segments@, self.generator.ring_size()));
            }
            let sums = sum_k_segments(&segments, self.k);
            proof {
                assert(sums.len() >= 1) by (nonlinear_arith)
                    requires
                        sums.len() == segments.len() / self.k,
                        segments.len() >= self.k,
                        self.k > 0,
                ;
            }
            self.sums = sums;
            self.taken = 0;
            self.ring = Ghost(segments@);
            proof {
                assert forall|j: int| 0 <= j < self.sums.len() implies self.sums@[j]
                    == ring_groups(self.ring@, self.k as nat)[j] by {
                    assert(self.sums[j] as int == group_length(self.ring@, self.k as nat, j));
                }
                assert(self.sums@ =~= ring_groups(self.ring@, self.k as nat));
            }
        }
        let x = self.sums[self.taken];
        proof {
            assert(self.sums@.subrange(self.taken + 1, self.sums.len() as int)
                =~= self.sums@.subrange(self.taken as int, self.sums.len() as int).drop_first());
            assert(x == group_length(self.ring@, self.k as nat, self.taken as int));
            assert(is_group_length(x, self.generator.ring_size(), self.k as nat));
            if old(self).pending().len() == 0 {
                assert(ring_groups(self.ring@, self.k as nat).len() >= 1);
                assert(self.sums@.subrange(1, self.sums.len() as int) =~= self.sums@.drop_first());
            }
        }
        self.taken = self.taken + 1;
        Ok(x)
    }
}

} // verus!
