//! What this crate assumes about its source of randomness.

use vstd::prelude::*;

verus! {

/// Relies on `rand::random`: a fresh value from the thread-local generator.
/// Nothing is promised of the result.
pub assume_specification<T>[ rand::random::<T> ]() -> (r: T)
    where
        rand::distributions::Standard: rand::distributions::Distribution<T>,
;

/// Relies on rand's `Rng::gen_range` on a half-open range: it panics on an
/// empty range and returns a value inside the range.
#[verifier::external_body]
pub(crate) fn random_in_range(lo: usize, hi: usize) -> (r: usize)
    requires
        lo < hi,
    ensures
        lo <= r < hi,
{
    rand::Rng::gen_range(&mut rand::thread_rng(), lo..hi)
}

} // verus!
