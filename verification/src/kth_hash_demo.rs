//! The k-th-hash demo: with the first hash pinned at 0, the first `k`
//! segments of the ring together reach exactly to hash `k + 1`.

use vstd::prelude::*;
use crate::random::{random_hashes, RandomError};
use crate::ring::{
    arcs_sum, close_ring, closed_ring, first_arcs_reach_hash, is_sorted, lemma_closed_ring_sorted,
    sort_hashes,
};
use crate::text::{decimal, ordinal, ordinal_suffix, push_decimal};

verus! {

/// Options of the k-th-hash demo.
#[derive(Debug, Clone, Copy, PartialEq, Eq, Structural)]
pub struct KthHashDemoOpts {
    pub dark_mode: bool,
    /// The number of hashes on the ring.
    pub total_hashes: u32,
    /// The number of segments summed.
    pub summed_hashes: u32,
}

impl KthHashDemoOpts {
    /// The number of hashes that the demo puts on the ring: at least one.
    pub open spec fn normalized_total(self) -> nat {
        if self.total_hashes < 1 {
            1
        } else {
            self.total_hashes as nat
        }
    }

    /// The number of segments summed: at most the number of hashes.
    pub open spec fn normalized_summed(self) -> nat {
        if self.summed_hashes > self.normalized_total() {
            self.normalized_total()
        } else {
            self.summed_hashes as nat
        }
    }

    /// The options with at least one hash on the ring and at most as many
    /// segments summed as there are hashes. Summing all of them is allowed:
    /// the hash after the last is the end of the ring.
    pub fn normalized(self) -> (r: Self)
        ensures
            r.dark_mode == self.dark_mode,
            r.total_hashes == self.normalized_total(),
            r.summed_hashes == self.normalized_summed(),
    {
        let mut r = self;
        if r.total_hashes < 1 {
            r.total_hashes = 1;
        }
        if r.summed_hashes > r.total_hashes {
            r.summed_hashes = r.total_hashes;
        }
        r
    }
}

/// What the k-th-hash demo draws: the positions of the closed ring, the
/// number `summed` of segments summed, and the position they reach, which
/// is that of hash `summed + 1` (the end of the ring when all are summed).
#[derive(Debug)]
pub struct KthHashLayout {
    pub positions: Vec<u32>,
    pub summed: usize,
    pub target: u32,
}

/// `l` lays out the sorted hashes `sorted` with `summed` segments summed.
pub open spec fn lays_out_kth_hash(l: KthHashLayout, sorted: Seq<u32>, summed: nat) -> bool {
    &&& l.positions@ == closed_ring(sorted)
    &&& l.summed == summed
    &&& l.target == l.positions@[summed as int]
}

/// Lays out the sorted hashes on the closed ring and finds the position
/// that the first `summed` segments reach.
pub fn kth_hash_layout(sorted: &Vec<u32>, summed: usize) -> (l: KthHashLayout)
    requires
        sorted.len() > 0,
        is_sorted(sorted@),
        summed <= sorted.len(),
    ensures
        lays_out_kth_hash(l, sorted@, summed as nat),
        l.target == arcs_sum(l.positions@, summed as int),
{
    let positions = close_ring(sorted);
    proof {
        lemma_closed_ring_sorted(sorted@);
        first_arcs_reach_hash(sorted@, summed as int);
    }
    let target = positions[summed];
    KthHashLayout { positions, summed, target }
}

/// `l` is a layout that the k-th-hash demo can draw with `options`.
pub open spec fn kth_hash_demo_outcome(l: KthHashLayout, options: KthHashDemoOpts) -> bool {
    exists|sorted: Seq<u32>|
        {
            &&& sorted.len() == options.normalized_total()
            &&& is_sorted(sorted)
            &&& #[trigger] lays_out_kth_hash(l, sorted, options.normalized_summed())
        }
}

/// Runs the k-th-hash demo's draws: `total_hashes` random hashes (at least
/// one), sorted.
pub fn kth_hash_demo_layout(options: KthHashDemoOpts) -> (r: Result<KthHashLayout, RandomError>)
    ensures
        r matches Ok(l) ==> kth_hash_demo_outcome(l, options),
        r is Err ==> r == Err::<KthHashLayout, RandomError>(RandomError::SourceFailed),
{
    let opts = options.normalized();
    let n = opts.total_hashes as usize;
    let hashes = random_hashes(n)?;
    let sorted = sort_hashes(hashes);
    proof {
        broadcast use vstd::seq_lib::group_to_multiset_ensures;
        assert(sorted@.len() == sorted@.to_multiset().len());
        assert(hashes@.len() == hashes@.to_multiset().len());
    }
    let l = kth_hash_layout(&sorted, opts.summed_hashes as usize);
    proof {
        assert(lays_out_kth_hash(l, sorted@, options.normalized_summed()));
    }
    Ok(l)
}

/// The start of the label that names the hash reached: "All hashes = " when
/// all `n` segments are summed, otherwise the ordinal of hash `k + 1`
/// followed by " hash = ".
pub fn kth_hash_label_prefix(k: usize, n: usize) -> (s: String)
    requires
        k != n ==> k < usize::MAX,
    ensures
        s@ == if k == n {
            "All hashes = "@
        } else {
            decimal((k + 1) as nat) + ordinal_suffix((k + 1) as nat) + " hash = "@
        },
{
    if k == n {
        String::from_str("All hashes = ")
    } else {
        let mut s = ordinal(k + 1);
        s.append(" hash = ");
        s
    }
}

/// The second line of the label: "sum of k segments", or "sum of 1 segment".
pub fn segments_caption(k: usize) -> (s: String)
    ensures
        s@ == "sum of "@ + decimal(k as nat) + " segment"@ + if k == 1 {
            ""@
        } else {
            "s"@
        },
{
    let mut s = String::from_str("sum of ");
    push_decimal(&mut s, k);
    s.append(" segment");
    if k != 1 {
        s.append("s");
    }
    proof {
        reveal_strlit("");
    }
    s
}

} // verus!
