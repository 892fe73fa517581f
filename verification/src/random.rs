//! Random draws from the operating system's entropy source.

use vstd::prelude::*;

verus! {

#[verifier::external_type_specification]
#[verifier::external_body]
pub struct ExGetrandomError(getrandom::Error);

/// Why a random draw could not be completed.
#[derive(Debug, Clone, Copy, PartialEq, Eq, Structural)]
pub enum RandomError {
    /// The operating system's entropy source reported an error.
    SourceFailed,
    /// A draw that is repeated until it succeeds did not succeed within
    /// `u64::MAX` attempts.
    RetriesExhausted,
}

/// Calls `getrandom::u32`, which returns a uniformly random `u32` from the
/// system's entropy source, or an error. Nothing is claimed of the value.
#[verifier::external_body]
fn os_random_u32() -> Result<u32, getrandom::Error> {
    getrandom::u32()
}

/// Calls `getrandom::u64`, which returns a uniformly random `u64` from the
/// system's entropy source, or an error. Nothing is claimed of the value.
#[verifier::external_body]
fn os_random_u64() -> Result<u64, getrandom::Error> {
    getrandom::u64()
}

/// Calls `getrandom::fill` on the buffer's bytes. The function overwrites the
/// bytes of a slice, so the buffer keeps its length; nothing is claimed of
/// the bytes it writes. For an empty buffer it returns success at once,
/// without asking the operating system (as its documentation and its code,
/// which skips the source when the slice is empty, both say).
#[verifier::external_body]
fn os_fill_bytes(buf: &mut Vec<u8>) -> (r: Result<(), getrandom::Error>)
    ensures
        final(buf)@.len() == old(buf)@.len(),
        old(buf)@.len() == 0 ==> r is Ok,
{
    getrandom::fill(buf.as_mut_slice())
}

/// A random `u32`.
pub fn random_u32() -> (r: Result<u32, RandomError>)
    ensures
        r is Err ==> r == Err::<u32, RandomError>(RandomError::SourceFailed),
{
    match os_random_u32() {
        Ok(v) => Ok(v),
        Err(_) => Err(RandomError::SourceFailed),
    }
}

/// A random `u64`.
pub fn random_u64() -> (r: Result<u64, RandomError>)
    ensures
        r is Err ==> r == Err::<u64, RandomError>(RandomError::SourceFailed),
{
    match os_random_u64() {
        Ok(v) => Ok(v),
        Err(_) => Err(RandomError::SourceFailed),
    }
}

/// The `u32` whose little-endian bytes are `b0, b1, b2, b3`.
pub open spec fn le_word(b0: u8, b1: u8, b2: u8, b3: u8) -> int {
    b0 + 256 * b1 + 65536 * b2 + 16777216 * b3
}

/// Reads `bytes` as consecutive little-endian `u32`s; a trailing group of
/// fewer than four bytes is ignored.
pub fn words_from_bytes(bytes: &Vec<u8>) -> (words: Vec<u32>)
    ensures
        words.len() == bytes.len() / 4,
        forall|i: int|
            0 <= i < words.len() ==> #[trigger] words[i] as int == le_word(
                bytes[4 * i],
                bytes[4 * i + 1],
                bytes[4 * i + 2],
                bytes[4 * i + 3],
            ),
{
    let n = bytes.len() / 4;
    let mut words: Vec<u32> = Vec::with_capacity(n);
    let mut i: usize = 0;
    while i < n
        invariant
            n == bytes.len() / 4,
            i <= n,
            words.len() == i,
            forall|j: int|
                0 <= j < i ==> #[trigger] words[j] as int == le_word(
                    bytes[4 * j],
                    bytes[4 * j + 1],
                    bytes[4 * j + 2],
                    bytes[4 * j + 3],
                ),
        decreases n - i,
    {
        let b0 = bytes[4 * i] as u32;
        let b1 = bytes[4 * i + 1] as u32;
        let b2 = bytes[4 * i + 2] as u32;
        let b3 = bytes[4 * i + 3] as u32;
        let w = b0 + 256 * b1 + 65536 * b2 + 16777216 * b3;
        words.push(w);
        i = i + 1;
    }
    words
}

/// Overwrites every word of `words` with random bits; the length stays.
pub fn fill_random_words(words: &mut Vec<u32>) -> (r: Result<(), RandomError>)
    requires
        old(words).len() * 4 <= usize::MAX,
    ensures
        final(words).len() == old(words).len(),
        r is Err ==> r == Err::<(), RandomError>(RandomError::SourceFailed),
        old(words).len() == 0 ==> r is Ok,
{
    let mut bytes: Vec<u8> = vec![0u8; words.len() * 4];
    match os_fill_bytes(&mut bytes) {
        Ok(()) => {},
        Err(_) => {
            return Err(RandomError::SourceFailed);
        },
    }
    *words = words_from_bytes(&bytes);
    Ok(())
}

/// A vector of `length` random `u32`s.
pub fn generate_random_ints(length: usize) -> (r: Result<Vec<u32>, RandomError>)
    requires
        length * 4 <= usize::MAX,
    ensures
        r matches Ok(v) ==> v.len() == length,
        r is Err ==> r == Err::<Vec<u32>, RandomError>(RandomError::SourceFailed),
        length == 0 ==> r is Ok,
{
    let mut words: Vec<u32> = vec![0u32; length];
    match fill_random_words(&mut words) {
        Ok(()) => Ok(words),
        Err(e) => Err(e),
    }
}

/// `count` random `u32`s, drawn one at a time.
pub fn random_hashes(count: usize) -> (r: Result<Vec<u32>, RandomError>)
    ensures
        r matches Ok(v) ==> v.len() == count,
        r is Err ==> r == Err::<Vec<u32>, RandomError>(RandomError::SourceFailed),
        count == 0 ==> r is Ok,
{
    let mut hashes: Vec<u32> = Vec::new();
    let mut i: usize = 0;
    while i < count
        invariant
            i <= count,
            hashes.len() == i,
        decreases count - i,
    {
        let h = random_u32()?;
        hashes.push(h);
        i = i + 1;
    }
    Ok(hashes)
}

} // verus!
