//! The double-hash demo: a server owns the arcs that follow two of the
//! hashes on the ring, and the demo compares their total with the fair
//! share `2 / n`.

use vstd::prelude::*;
use crate::random::{random_hashes, random_u64, RandomError};
use crate::ring::{
    arc, close_ring, closed_ring, is_sorted, lemma_closed_ring_sorted, sort_hashes,
    two_arcs_fit_in_ring,
};

verus! {

/// Options of the double-hash demo.
#[derive(Debug, Clone, Copy, PartialEq, Eq, Structural)]
pub struct DoubleHashDemoOpts {
    pub dark_mode: bool,
    /// Put the server's first hash at the first position of the ring.
    pub reorient: bool,
    /// The number of hashes on the ring.
    pub total_hashes: u32,
}

impl DoubleHashDemoOpts {
    /// The number of hashes that the demo puts on the ring.
    pub open spec fn normalized_total(self) -> nat {
        if self.total_hashes < 2 {
            2
        } else {
            self.total_hashes as nat
        }
    }

    /// The options with at least two hashes on the ring.
    pub fn normalized(self) -> (r: Self)
        ensures
            r.dark_mode == self.dark_mode,
            r.reorient == self.reorient,
            r.total_hashes == self.normalized_total(),
    {
        let mut r = self;
        if r.total_hashes < 2 {
            r.total_hashes = 2;
        }
        r
    }
}

/// The pair of hashes that two random words pick among `n`, smaller index
/// first, or nothing when both pick the same hash.
pub open spec fn pair_from_draws(first: u64, second: u64, n: nat) -> Option<(nat, nat)> {
    let a = ((first as usize) as nat) % n;
    let b = ((second as usize) as nat) % n;
    if a == b {
        None
    } else if a < b {
        Some((a, b))
    } else {
        Some((b, a))
    }
}

/// The pair of hashes when reoriented: the first hash and one that the
/// random word `draw` picks among the others.
pub open spec fn reoriented_pair(draw: u64, n: nat) -> (nat, nat) {
    (0, ((draw as usize) as nat) % ((n - 1) as nat) + 1)
}

/// When reoriented, the server's first hash is the first one and its second
/// hash is the one that the random word picks among the other `n - 1`: a
/// word below `n - 1` picks hash `word + 1`, every hash from 1 to `n - 1`
/// can be picked, and adding `n - 1` to the word picks the same hash again.
pub proof fn reoriented_pair_follows_draw(n: nat, draw: u64)
    requires
        n >= 2,
        draw <= usize::MAX,
    ensures
        reoriented_pair(draw, n).0 == 0,
        1 <= reoriented_pair(draw, n).1 < n,
        draw < n - 1 ==> reoriented_pair(draw, n).1 == draw + 1,
        draw + (n - 1) <= usize::MAX ==> reoriented_pair((draw + (n - 1)) as u64, n)
            == reoriented_pair(draw, n),
{
    let m: int = n - 1;
    assert((draw as usize) as int == draw as int);
    if draw < m {
        vstd::arithmetic::div_mod::lemma_small_mod(draw as nat, m as nat);
    }
    if draw + m <= usize::MAX {
        assert(((draw + m) as u64) as int == draw + m);
        assert((((draw + m) as u64) as usize) as int == draw + m);
        vstd::arithmetic::div_mod::lemma_mod_add_multiples_vanish(draw as int, m);
    }
}

/// Two random words pick the hashes of their remainders modulo `n`: no pair
/// when they pick the same hash, otherwise both hashes, smaller first. Words
/// below `n` pick the hash of their own index.
pub proof fn pair_follows_draws(first: u64, second: u64, n: nat)
    requires
        n >= 1,
        first < n,
        second < n,
        n <= usize::MAX,
    ensures
        pair_from_draws(first, second, n) == if first == second {
            None
        } else if first < second {
            Some((first as nat, second as nat))
        } else {
            Some((second as nat, first as nat))
        },
{
    assert((first as usize) as int == first as int);
    assert((second as usize) as int == second as int);
    vstd::arithmetic::div_mod::lemma_small_mod(first as nat, n);
    vstd::arithmetic::div_mod::lemma_small_mod(second as nat, n);
}

/// The pair of hashes that two random words pick among `n`, smaller index
/// first, or `None` when both pick the same hash.
pub fn choose_server_pair(first: u64, second: u64, n: usize) -> (r: Option<(usize, usize)>)
    requires
        n >= 1,
    ensures
        r matches Some(p) ==> pair_from_draws(first, second, n as nat) == Some(
            (p.0 as nat, p.1 as nat),
        ),
        r is None ==> pair_from_draws(first, second, n as nat) is None,
        r is None <==> (first as usize) % n == (second as usize) % n,
        r matches Some(p) ==> {
            &&& p.0 < p.1 < n
            &&& (p.0 == (first as usize) % n && p.1 == (second as usize) % n) || (p.0 == (
            second as usize) % n && p.1 == (first as usize) % n)
        },
{
    let f: usize = first as usize;
    let s: usize = second as usize;
    let a = f % n;
    let b = s % n;
    if a == b {
        None
    } else if a < b {
        Some((a, b))
    } else {
        Some((b, a))
    }
}

/// The pair of hashes when reoriented: the first one and the one that
/// `draw` picks among the others.
pub fn reoriented_server_pair(draw: u64, n: usize) -> (r: (usize, usize))
    requires
        n >= 2,
    ensures
        (r.0 as nat, r.1 as nat) == reoriented_pair(draw, n as nat),
        r.0 < r.1 < n,
        r.0 == 0,
        r.1 == ((draw as usize) as int) % (n - 1) + 1,
{
    let d: usize = draw as usize;
    (0, d % (n - 1) + 1)
}

/// Each pair of random words in `draws` picks the same hash twice among `n`.
pub open spec fn all_coincide(draws: Seq<(u64, u64)>, n: nat) -> bool {
    forall|i: int|
        0 <= i < draws.len() ==> #[trigger] pair_from_draws(draws[i].0, draws[i].1, n) is None
}

/// `draws` are the pairs of random words read until the first pair that
/// picks two different hashes among `n`, and that pair picks `pair`: every
/// earlier pair picked one hash twice. Reading them takes `2 * draws.len()`
/// words.
pub open spec fn first_distinct_pair(draws: Seq<(u64, u64)>, n: nat, pair: (usize, usize)) -> bool {
    &&& draws.len() >= 1
    &&& all_coincide(draws.drop_last(), n)
    &&& pair_from_draws(draws.last().0, draws.last().1, n) == Some((pair.0 as nat, pair.1 as nat))
}

/// `pair` is a pair that the demo can pick among `n` hashes: when
/// reoriented, the first hash and one picked by a random word; otherwise
/// the pair picked by the first pair of random words that picks two
/// different hashes.
pub open spec fn drawable_pair(pair: (usize, usize), reorient: bool, n: nat) -> bool {
    if reorient {
        exists|draw: u64| #[trigger] reoriented_pair(draw, n) == (pair.0 as nat, pair.1 as nat)
    } else {
        exists|draws: Seq<(u64, u64)>| #[trigger] first_distinct_pair(draws, n, pair)
    }
}

/// `u64::MAX` pairs of random words were read and each picked one hash
/// twice among `n`.
pub open spec fn retries_exhausted(n: nat) -> bool {
    exists|draws: Seq<(u64, u64)>| draws.len() == u64::MAX && #[trigger] all_coincide(draws, n)
}

/// Picks the server's two hashes among `n`: when reoriented, the first hash
/// and a random other one; otherwise pairs of random words are drawn until
/// one picks two different hashes, giving up after `u64::MAX` pairs.
pub fn draw_server_pair(reorient: bool, n: usize) -> (r: Result<(usize, usize), RandomError>)
    requires
        n >= 2,
    ensures
        r matches Ok(p) ==> p.0 < p.1 < n && drawable_pair(p, reorient, n as nat),
        r matches Err(e) ==> e == RandomError::SourceFailed || (!reorient && e
            == RandomError::RetriesExhausted),
        r == Err::<(usize, usize), RandomError>(RandomError::RetriesExhausted) ==> retries_exhausted(
            n as nat,
        ),
{
    if reorient {
        let draw = random_u64()?;
        let p = reoriented_server_pair(draw, n);
        proof {
            assert(reoriented_pair(draw, n as nat) == (p.0 as nat, p.1 as nat));
        }
        return Ok(p);
    }
    let mut attempts: u64 = 0;
    let ghost mut draws: Seq<(u64, u64)> = Seq::empty();
    while attempts < u64::MAX
        invariant
            n >= 2,
            !reorient,
            draws.len() == attempts,
            all_coincide(draws, n as nat),
        decreases u64::MAX - attempts,
    {
        let first = random_u64()?;
        let second = random_u64()?;
        match choose_server_pair(first, second, n) {
            Some(p) => {
                proof {
                    let a = ((first as usize) as nat) % (n as nat);
                    let b = ((second as usize) as nat) % (n as nat);
                    assert(a < n && b < n);
                    let all = draws.push((first, second));
                    assert(all.drop_last() =~= draws);
                    assert(first_distinct_pair(all, n as nat, p));
                }
                return Ok(p);
            },
            None => {},
        }
        proof {
            let old_draws = draws;
            draws = draws.push((first, second));
            assert forall|i: int| 0 <= i < draws.len() implies #[trigger] pair_from_draws(
                draws[i].0,
                draws[i].1,
                n as nat,
            ) is None by {
                if i < old_draws.len() {
                    assert(draws[i] == old_draws[i]);
                }
            }
        }
        attempts = attempts + 1;
    }
    proof {
        assert(all_coincide(draws, n as nat));
    }
    Err(RandomError::RetriesExhausted)
}

/// What the double-hash demo draws: the positions of the closed ring, the
/// server's two hashes, the lengths of the arcs that follow them and their
/// total, the server's share of the ring.
#[derive(Debug)]
pub struct DoubleHashLayout {
    pub positions: Vec<u32>,
    pub servers: (usize, usize),
    pub arcs: (u32, u32),
    pub share: u32,
}

/// `l` lays out the sorted hashes `sorted` with the server at `servers`.
pub open spec fn lays_out_double_hash(
    l: DoubleHashLayout,
    sorted: Seq<u32>,
    servers: (usize, usize),
) -> bool {
    &&& l.positions@ == closed_ring(sorted)
    &&& l.servers == servers
    &&& l.arcs.0 == arc(l.positions@, servers.0 as int)
    &&& l.arcs.1 == arc(l.positions@, servers.1 as int)
    &&& l.share == l.arcs.0 + l.arcs.1
}

/// Lays out the sorted hashes on the closed ring with the server's two
/// hashes at `servers`.
pub fn double_hash_layout(sorted: &Vec<u32>, servers: (usize, usize)) -> (l: DoubleHashLayout)
    requires
        is_sorted(sorted@),
        servers.0 < servers.1 < sorted.len(),
    ensures
        lays_out_double_hash(l, sorted@, servers),
{
    let positions = close_ring(sorted);
    proof {
        lemma_closed_ring_sorted(sorted@);
        two_arcs_fit_in_ring(sorted@, servers.0 as int, servers.1 as int);
    }
    let arc_1 = positions[servers.0 + 1] - positions[servers.0];
    let arc_2 = positions[servers.1 + 1] - positions[servers.1];
    DoubleHashLayout { positions, servers, arcs: (arc_1, arc_2), share: arc_1 + arc_2 }
}

/// `l` is a layout that the double-hash demo can draw with `options`.
pub open spec fn double_hash_demo_outcome(l: DoubleHashLayout, options: DoubleHashDemoOpts) -> bool {
    exists|sorted: Seq<u32>|
        {
            &&& sorted.len() == options.normalized_total()
            &&& is_sorted(sorted)
            &&& l.servers.0 < l.servers.1 < sorted.len()
            &&& drawable_pair(l.servers, options.reorient, sorted.len())
            &&& #[trigger] lays_out_double_hash(l, sorted, l.servers)
        }
}

/// Runs the double-hash demo's draws: `total_hashes` random hashes (at
/// least two), sorted, then the server's two hashes.
pub fn double_hash_demo_layout(options: DoubleHashDemoOpts) -> (r: Result<
    DoubleHashLayout,
    RandomError,
>)
    ensures
        r matches Ok(l) ==> double_hash_demo_outcome(l, options),
        r matches Err(e) ==> e == RandomError::SourceFailed || (!options.reorient && e
            == RandomError::RetriesExhausted),
        r == Err::<DoubleHashLayout, RandomError>(RandomError::RetriesExhausted)
            ==> retries_exhausted(options.normalized_total()),
{
    let opts = options.normalized();
    let n = opts.total_hashes as usize;
    let hashes = random_hashes(n)?;
    let sorted = sort_hashes(hashes);
    proof {
        broadcast use vstd::seq_lib::group_to_multiset_ensures;
        assert(sorted@.len() == sorted@.to_multiset().len());
        assert(hashes@.len() == hashes@.to_multiset().len());
    }
    let servers = draw_server_pair(opts.reorient, n)?;
    let l = double_hash_layout(&sorted, servers);
    proof {
        assert(lays_out_double_hash(l, sorted@, l.servers));
    }
    Ok(l)
}

} // verus!
