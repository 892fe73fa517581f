//! Options of the k-hash distribution demo, which plots how long the `k`
//! adjacent segments of a ring of `n` hashes are.

use vstd::prelude::*;
use vstd::arithmetic::power2::pow2;
use crate::sampling::power_of_two;

verus! {

/// Options of the k-hash distribution demo. The bin and sample counts are
/// given as exponents of two.
#[derive(Debug)]
pub struct KHashPdfDemo {
    pub dark_mode: bool,
    pub total_hashes: u32,
    pub summed_hashes: u32,
    pub histogram_bins: u32,
    pub sample_count: u32,
    pub title: String,
    pub run_simulation: bool,
    pub show_simulated_mean: bool,
    pub show_simulated_std_dev: bool,
    pub show_calculated_mean: bool,
    pub show_calculated_std_dev: bool,
}

impl KHashPdfDemo {
    /// The number of hashes on the ring: at least two.
    pub open spec fn normalized_total(&self) -> nat {
        if self.total_hashes < 2 {
            2
        } else {
            self.total_hashes as nat
        }
    }

    /// The number of adjacent segments summed: at least one, and at most the
    /// number of hashes.
    pub open spec fn normalized_summed(&self) -> nat {
        let k: nat = if self.summed_hashes < 1 {
            1
        } else {
            self.summed_hashes as nat
        };
        if k > self.normalized_total() {
            self.normalized_total()
        } else {
            k
        }
    }

    /// The options with the bin and sample counts raised to the powers of
    /// two that they give, at least two hashes, and between one and all of
    /// them summed.
    pub fn normalized(self) -> (r: Self)
        requires
            self.histogram_bins < 32,
            self.sample_count < 32,
        ensures
            r.histogram_bins == pow2(self.histogram_bins as nat),
            r.sample_count == pow2(self.sample_count as nat),
            r.total_hashes == self.normalized_total(),
            r.summed_hashes == self.normalized_summed(),
            1 <= r.summed_hashes <= r.total_hashes,
            r.dark_mode == self.dark_mode,
            r.title == self.title,
            r.run_simulation == self.run_simulation,
            r.show_simulated_mean == self.show_simulated_mean,
            r.show_simulated_std_dev == self.show_simulated_std_dev,
            r.show_calculated_mean == self.show_calculated_mean,
            r.show_calculated_std_dev == self.show_calculated_std_dev,
    {
        let mut r = self;
        r.histogram_bins = power_of_two(r.histogram_bins);
        r.sample_count = power_of_two(r.sample_count);
        if r.total_hashes < 2 {
            r.total_hashes = 2;
        }
        if r.summed_hashes < 1 {
            r.summed_hashes = 1;
        }
        if r.summed_hashes > r.total_hashes {
            r.summed_hashes = r.total_hashes;
        }
        r
    }
}

} // verus!
