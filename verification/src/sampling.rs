//! Sizes given as powers of two, and sorted random hashes.

use vstd::prelude::*;
use vstd::arithmetic::power2::pow2;
use crate::random::{generate_random_ints, RandomError};
use crate::ring::{is_sorted, sort_hashes};

verus! {

/// `2^exponent`.
pub fn power_of_two(exponent: u32) -> (r: u32)
    requires
        exponent < 32,
    ensures
        r == pow2(exponent as nat),
{
    proof {
        vstd::bits::lemma_u32_pow2_no_overflow(exponent as nat);
        vstd::bits::lemma_u32_shl_is_mul(1, exponent);
    }
    1u32 << exponent
}

/// The number of hashes that the Bernoulli and uniform-distribution demos
/// draw for an exponent: `2^exponent`, and never fewer than one.
pub fn hash_count_for_exponent(exponent: u32) -> (r: u32)
    requires
        exponent < 32,
    ensures
        r == pow2(exponent as nat),
        r >= 1,
{
    let mut count = power_of_two(exponent);
    proof {
        vstd::arithmetic::power2::lemma_pow2_pos(exponent as nat);
    }
    if count < 1 {
        count = 1;
    }
    count
}

/// `length` random hashes in ascending order.
pub fn generate_sorted_random_ints(length: usize) -> (r: Result<Vec<u32>, RandomError>)
    requires
        length * 4 <= usize::MAX,
    ensures
        r matches Ok(v) ==> v.len() == length && is_sorted(v@),
        r is Err ==> r == Err::<Vec<u32>, RandomError>(RandomError::SourceFailed),
        length == 0 ==> r is Ok,
{
    let ints = generate_random_ints(length)?;
    let sorted = sort_hashes(ints);
    proof {
        broadcast use vstd::seq_lib::group_to_multiset_ensures;
        assert(sorted@.len() == sorted@.to_multiset().len());
        assert(ints@.len() == ints@.to_multiset().len());
    }
    Ok(sorted)
}

} // verus!
