//! Random numbers from the `rand` crate.

use rand::Rng;
use vstd::prelude::*;

verus! {

/// Calls `Rng::gen_range` on the thread's generator with the half-open range
/// from `low` to `high`. It panics on an empty range; of the number that
/// comes back only the range is known.
#[verifier::external_body]
pub(crate) fn gen_range(low: usize, high: usize) -> (value: usize)
    requires
        low < high,
    ensures
        low <= value < high,
{
    rand::thread_rng().gen_range(low..high)
}

} // verus!
