//! The one boundary to the system's source of randomness.

use vstd::prelude::*;

use rand::Rng;

verus! {

/// Relies on `rand::rng` and `rand::Rng::random_range`: a draw from the
/// thread-local generator, uniform over `0..n`. Nothing is promised of the
/// value beyond its range.
#[verifier::external_body]
pub(crate) fn rand_below(n: usize) -> (r: usize)
    requires
        1 <= n,
    ensures
        r < n,
{
    rand::rng().random_range(0..n)
}

} // verus!
