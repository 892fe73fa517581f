//! The packed-hash demo: a server owns the arcs that follow `k` adjacent
//! hashes, and the demo compares their total with the fair share `k / n`.

use vstd::prelude::*;
use crate::random::{random_hashes, RandomError};
use crate::ring::{
    arcs_sum, close_ring, closed_ring, first_arcs_reach_hash, is_sorted, lemma_closed_ring_sorted,
    sort_hashes,
};

verus! {

/// Options of the packed-hash demo.
#[derive(Debug, Clone, Copy, PartialEq, Eq, Structural)]
pub struct PackedHashDemoOpts {
    pub dark_mode: bool,
    /// The number of hashes on the ring.
    pub total_hashes: u32,
    /// The number of adjacent hashes that the server owns.
    pub summed_hashes: u32,
}

impl PackedHashDemoOpts {
    /// The number of hashes that the demo puts on the ring: at least two.
    pub open spec fn normalized_total(self) -> nat {
        if self.total_hashes < 2 {
            2
        } else {
            self.total_hashes as nat
        }
    }

    /// The number of hashes that the server owns: at most the number of
    /// hashes asked for, before that is raised to two.
    pub open spec fn normalized_summed(self) -> nat {
        if self.summed_hashes > self.total_hashes {
            self.total_hashes as nat
        } else {
            self.summed_hashes as nat
        }
    }

    /// The options with the server's hashes capped at the number of hashes
    /// asked for, and then at least two hashes on the ring.
    pub fn normalized(self) -> (r: Self)
        ensures
            r.dark_mode == self.dark_mode,
            r.total_hashes == self.normalized_total(),
            r.summed_hashes == self.normalized_summed(),
            r.summed_hashes <= r.total_hashes,
    {
        let mut r = self;
        if r.summed_hashes > r.total_hashes {
            r.summed_hashes = r.total_hashes;
        }
        if r.total_hashes < 2 {
            r.total_hashes = 2;
        }
        r
    }
}

/// What the packed-hash demo draws: the positions of the closed ring, the
/// number `summed` of adjacent hashes that the server owns from the first
/// one on, and its share of the ring, from position 0 to position `summed`.
#[derive(Debug)]
pub struct PackedHashLayout {
    pub positions: Vec<u32>,
    pub summed: usize,
    pub share: u32,
}

/// `l` lays out the sorted hashes `sorted` with a server of `summed` hashes.
pub open spec fn lays_out_packed_hash(l: PackedHashLayout, sorted: Seq<u32>, summed: nat) -> bool {
    &&& l.positions@ == closed_ring(sorted)
    &&& l.summed == summed
    &&& l.share == l.positions@[summed as int] - l.positions@[0]
}

/// Lays out the sorted hashes on the closed ring with a server that owns
/// the first `summed` of them. Its share is the total of the arcs that
/// follow them.
pub fn packed_hash_layout(sorted: &Vec<u32>, summed: usize) -> (l: PackedHashLayout)
    requires
        sorted.len() > 0,
        is_sorted(sorted@),
        summed <= sorted.len(),
    ensures
        lays_out_packed_hash(l, sorted@, summed as nat),
        l.share == arcs_sum(l.positions@, summed as int),
{
    let positions = close_ring(sorted);
    proof {
        lemma_closed_ring_sorted(sorted@);
        first_arcs_reach_hash(sorted@, summed as int);
    }
    let share = positions[summed] - positions[0];
    PackedHashLayout { positions, summed, share }
}

/// `l` is a layout that the packed-hash demo can draw with `options`.
pub open spec fn packed_hash_demo_outcome(l: PackedHashLayout, options: PackedHashDemoOpts) -> bool {
    exists|sorted: Seq<u32>|
        {
            &&& sorted.len() == options.normalized_total()
            &&& is_sorted(sorted)
            &&& #[trigger] lays_out_packed_hash(l, sorted, options.normalized_summed())
        }
}

/// Runs the packed-hash demo's draws: `total_hashes` random hashes (at
/// least two), sorted.
pub fn packed_hash_demo_layout(options: PackedHashDemoOpts) -> (r: Result<
    PackedHashLayout,
    RandomError,
>)
    ensures
        r matches Ok(l) ==> packed_hash_demo_outcome(l, options),
        r is Err ==> r == Err::<PackedHashLayout, RandomError>(RandomError::SourceFailed),
{
    let opts = options.normalized();
    let n = opts.total_hashes as usize;
    let hashes = random_hashes(n)?;
    let sorted = sort_hashes(hashes);
    proof {
        broadcast use vstd::seq_lib::group_to_multiset_ensures;
        assert(sorted@.len() == sorted@.to_multiset().len());
        assert(hashes@.len() == hashes@.to_multiset().len());
    }
    let l = packed_hash_layout(&sorted, opts.summed_hashes as usize);
    proof {
        assert(lays_out_packed_hash(l, sorted@, options.normalized_summed()));
    }
    Ok(l)
}

} // verus!
