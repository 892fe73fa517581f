//! The single-hash demo: one server owns the arc that follows its hash, and
//! the demo compares that arc with the fair share `1 / n`.

use vstd::prelude::*;
use crate::random::{random_hashes, random_u64, RandomError};
use crate::ring::{arc, is_sorted, shift_to_origin, sort_hashes};

verus! {

/// Options of the single-hash demo.
#[derive(Debug, Clone, Copy, PartialEq, Eq, Structural)]
pub struct SingleHashDemoOpts {
    pub dark_mode: bool,
    /// Put the server at the first hash and rotate that hash to 0.
    pub reorient: bool,
    /// The number of hashes on the ring.
    pub total_hashes: u32,
}

impl SingleHashDemoOpts {
    /// The options with at least two hashes on the ring.
    pub fn normalized(self) -> (r: Self)
        ensures
            r.dark_mode == self.dark_mode,
            r.reorient == self.reorient,
            r.total_hashes == if self.total_hashes < 2 { 2 } else { self.total_hashes },
    {
        let mut r = self;
        if r.total_hashes < 2 {
            r.total_hashes = 2;
        }
        r
    }
}

/// The positions that the demo shows for the sorted hashes `sorted`: rotated
/// so that the first hash sits at 0 when reoriented, as they are otherwise.
pub open spec fn single_hash_positions(reorient: bool, sorted: Seq<u32>) -> Seq<u32> {
    if reorient {
        shift_to_origin(sorted)
    } else {
        sorted
    }
}

/// The hash whose following arc the server owns: the first one when
/// reoriented, otherwise the one that the random word `draw` picks among
/// all but the last.
pub open spec fn single_server_index(reorient: bool, n: nat, draw: u64) -> nat {
    if reorient {
        0
    } else {
        ((draw as usize) as nat) % ((n - 1) as nat)
    }
}

/// When not reoriented, the server's hash is the one that the random word
/// picks among all hashes but the last: its index is below `n - 1`, a word
/// below `n - 1` picks the hash of that index, and adding `n - 1` to the
/// word picks the same hash again. When reoriented it is the first hash.
pub proof fn server_index_follows_draw(n: nat, draw: u64)
    requires
        n >= 2,
        draw <= usize::MAX,
    ensures
        single_server_index(false, n, draw) < n - 1,
        draw < n - 1 ==> single_server_index(false, n, draw) == draw,
        draw + (n - 1) <= usize::MAX ==> single_server_index(
            false,
            n,
            (draw + (n - 1)) as u64,
        ) == single_server_index(false, n, draw),
        single_server_index(true, n, draw) == 0,
{
    let m: int = n - 1;
    assert((draw as usize) as int == draw as int);
    if draw < m {
        vstd::arithmetic::div_mod::lemma_small_mod(draw as nat, m as nat);
    }
    if draw + m <= usize::MAX {
        assert(((draw + m) as u64) as int == draw + m);
        assert((((draw + m) as u64) as usize) as int == draw + m);
        vstd::arithmetic::div_mod::lemma_mod_add_multiples_vanish(draw as int, m);
    }
}

/// What the single-hash demo draws: the hash positions, the server's hash
/// and the length of the arc it owns, from the hash to the next one.
#[derive(Debug)]
pub struct SingleHashLayout {
    pub positions: Vec<u32>,
    pub server_index: usize,
    pub server_arc: u32,
}

/// `l` lays out the sorted hashes `sorted` with the server drawn by `draw`.
pub open spec fn lays_out_single_hash(
    l: SingleHashLayout,
    reorient: bool,
    sorted: Seq<u32>,
    draw: u64,
) -> bool {
    &&& l.positions@ == single_hash_positions(reorient, sorted)
    &&& l.server_index == single_server_index(reorient, sorted.len(), draw)
    &&& l.server_index + 1 < l.positions.len()
    &&& l.server_arc == arc(l.positions@, l.server_index as int)
}

/// Lays out the sorted hashes and picks the server's hash with `draw`.
pub fn single_hash_layout(reorient: bool, sorted: &Vec<u32>, draw: u64) -> (l: SingleHashLayout)
    requires
        sorted.len() >= 2,
        is_sorted(sorted@),
    ensures
        lays_out_single_hash(l, reorient, sorted@, draw),
        is_sorted(l.positions@),
        reorient ==> l.server_index == 0,
        !reorient ==> l.server_index == (draw as usize) % (sorted.len() - 1) as usize,
        l.server_arc == l.positions[l.server_index + 1] - l.positions[l.server_index as int],
{
    let n = sorted.len();
    let positions = if reorient {
        crate::ring::rotate_to_origin(sorted)
    } else {
        sorted.clone()
    };
    proof {
        crate::ring::lemma_closed_ring_sorted(sorted@);
    }
    let server_index = if reorient {
        0
    } else {
        let d: usize = draw as usize;
        d % (n - 1)
    };
    let server_arc = positions[server_index + 1] - positions[server_index];
    SingleHashLayout { positions, server_index, server_arc }
}

/// `l` is a layout that the single-hash demo can draw with `options`: that
/// of `options.normalized_total()` sorted hashes, with some random word
/// picking the server.
pub open spec fn single_hash_demo_outcome(l: SingleHashLayout, options: SingleHashDemoOpts) -> bool {
    exists|sorted: Seq<u32>, draw: u64|
        {
            &&& sorted.len() == options.normalized_total()
            &&& is_sorted(sorted)
            &&& #[trigger] lays_out_single_hash(l, options.reorient, sorted, draw)
        }
}

/// Runs the single-hash demo's draws: `total_hashes` random hashes (at
/// least two), sorted, and, unless reoriented, a random word that picks the
/// server.
pub fn single_hash_demo_layout(options: SingleHashDemoOpts) -> (r: Result<
    SingleHashLayout,
    RandomError,
>)
    ensures
        r matches Ok(l) ==> single_hash_demo_outcome(l, options),
        r is Err ==> r == Err::<SingleHashLayout, RandomError>(RandomError::SourceFailed),
{
    let opts = options.normalized();
    let n = opts.total_hashes as usize;
    let hashes = random_hashes(n)?;
    let sorted = sort_hashes(hashes);
    proof {
        broadcast use vstd::seq_lib::group_to_multiset_ensures;
        assert(sorted@.len() == sorted@.to_multiset().len());
        assert(hashes@.len() == hashes@.to_multiset().len());
    }
    let draw = if opts.reorient {
        0
    } else {
        random_u64()?
    };
    let l = single_hash_layout(opts.reorient, &sorted, draw);
    proof {
        assert(sorted@.len() == options.normalized_total());
        assert(lays_out_single_hash(l, options.reorient, sorted@, draw));
        assert(is_sorted(sorted@));
    }
    Ok(l)
}

impl SingleHashDemoOpts {
    /// The number of hashes that the demo puts on the ring.
    pub open spec fn normalized_total(self) -> nat {
        if self.total_hashes < 2 {
            2
        } else {
            self.total_hashes as nat
        }
    }
}

} // verus!
