//! Random draws.
use rand::Rng;
use vstd::prelude::*;

verus! {

/// A uniformly random number in `lo..=hi` (`rand::Rng::gen_range` on the thread's generator).
///
/// rand panics on an empty range, hence `lo <= hi`; of the value only its range is claimed.
#[verifier::external_body]
pub(crate) fn random_in_range(lo: u64, hi: u64) -> (r: u64)
    requires
        lo <= hi,
    ensures
        lo <= r <= hi,
{
    rand::thread_rng().gen_range(lo..=hi)
}

} // verus!
