//! Trusted sources of unpredictable values: random numbers and fresh
//! correlation ids.  Nothing is named of their results — two calls on the
//! same input may differ — so every caller states what holds of any
//! outcome.

use vstd::prelude::*;

verus! {

/// Relies on `rand::RngExt::random_range` over `lo..=hi` (a nonempty
/// range): the draw lies within the bounds.
#[verifier::external_body]
pub(crate) fn random_in_range(lo: u64, hi: u64) -> (r: u64)
    requires
        lo <= hi,
    ensures
        lo <= r <= hi,
{
    <rand::rngs::ThreadRng as rand::RngExt>::random_range(&mut rand::rng(), lo..=hi)
}

/// Draws an index below `n`.
pub(crate) fn random_index(n: usize) -> (r: usize)
    requires
        n > 0,
    ensures
        r < n,
{
    let d = random_in_range(0, (n - 1) as u64);
    d as usize
}

/// Relies on `uuid::Uuid::new_v4` and its `Display`: a fresh correlation id,
/// rendered in the hyphenated form of 36 characters.
#[verifier::external_body]
pub(crate) fn new_correlation_id() -> (r: String)
    ensures
        r@.len() == 36,
{
    uuid::Uuid::new_v4().to_string()
}

/// Relies on `rand::distr::Alphanumeric` through `SampleString`: a string
/// of exactly `len` randomly drawn alphanumeric characters.
#[verifier::external_body]
pub(crate) fn random_alphanumeric(len: usize) -> (r: String)
    ensures
        r@.len() == len,
{
    <rand::distr::Alphanumeric as rand::distr::SampleString>::sample_string(
        &rand::distr::Alphanumeric,
        &mut rand::rng(),
        len,
    )
}

} // verus!
