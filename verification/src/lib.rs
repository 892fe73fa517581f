//! Verified core of the consistent-hashing demos: hash rings, their
//! segments, the marble experiment and the text the demos show.

pub mod text;
pub mod random;
pub mod ring;
pub mod segments;
pub mod marbles_demo;
pub mod single_hash_demo;
pub mod double_hash_demo;
pub mod packed_hash_demo;
pub mod kth_hash_demo;
pub mod sampling;
pub mod k_hash_pdf_demo;
pub mod single_hash_pdf_demo;
pub mod messages;

pub use double_hash_demo::DoubleHashDemoOpts;
pub use k_hash_pdf_demo::KHashPdfDemo;
pub use kth_hash_demo::KthHashDemoOpts;
pub use marbles_demo::{single_marble_trial, MarblesDemoOpts, RedGreen};
pub use packed_hash_demo::PackedHashDemoOpts;
pub use random::{generate_random_ints, RandomError};
pub use single_hash_demo::SingleHashDemoOpts;
pub use text::ordinal;
