//! Options of the single-segment distribution demo, which plots how long
//! one segment of a ring of `2^e` hashes is.

use vstd::prelude::*;
use vstd::arithmetic::power2::pow2;
use crate::sampling::power_of_two;

verus! {

/// Options of the single-segment distribution demo. The bin count, the
/// number of hashes and the sample count are given as exponents of two.
#[derive(Debug)]
pub struct SingleHashPdfDemo {
    pub dark_mode: bool,
    pub total_hashes: u32,
    pub sample_count: u32,
    pub histogram_bins: u32,
    pub title: String,
    pub actual_pdf: bool,
    pub run_simulation: bool,
}

impl SingleHashPdfDemo {
    /// The options with the bin and sample counts raised to the powers of
    /// two that they give, and the exponent of the number of hashes at
    /// least two.
    pub fn normalized(self) -> (r: Self)
        requires
            self.histogram_bins < 32,
            self.sample_count < 32,
        ensures
            r.histogram_bins == pow2(self.histogram_bins as nat),
            r.sample_count == pow2(self.sample_count as nat),
            r.total_hashes == if self.total_hashes < 2 { 2 } else { self.total_hashes },
            r.dark_mode == self.dark_mode,
            r.title == self.title,
            r.actual_pdf == self.actual_pdf,
            r.run_simulation == self.run_simulation,
    {
        let mut r = self;
        r.histogram_bins = power_of_two(r.histogram_bins);
        if r.total_hashes < 2 {
            r.total_hashes = 2;
        }
        r.sample_count = power_of_two(r.sample_count);
        r
    }

    /// The number of hashes on the ring, `2^total_hashes`, as the `i32` that
    /// `1 << total_hashes` gives. From the exponent 31 on the ring's size no
    /// longer fits in an `i32`.
    pub fn ring_size(&self) -> (r: i32)
        requires
            self.total_hashes < 31,
        ensures
            r == pow2(self.total_hashes as nat),
    {
        let e = self.total_hashes;
        proof {
            vstd::bits::lemma_u32_pow2_no_overflow(e as nat);
            vstd::bits::lemma_u32_shl_is_mul(1, e);
            vstd::arithmetic::power2::lemma_pow2_strictly_increases(e as nat, 31);
            vstd::arithmetic::power2::lemma2_to64();
            assert((1i32 << e) as int == (1u32 << e) as int) by (bit_vector)
                requires
                    e < 31,
            ;
        }
        1i32 << e
    }
}

} // verus!
