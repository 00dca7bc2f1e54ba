use rand::Rng;
use vstd::prelude::*;

verus! {

/// `rand::Rng::gen_range(lo..hi)` on the thread-local generator (`rand::thread_rng`,
/// the generator every part of the screensaver draws from): a value of `lo..hi`. The
/// contract states only that range; which value comes is chance. `gen_range` panics on
/// an empty range, hence `lo < hi`.
#[verifier::external_body]
pub(crate) fn random_range(lo: usize, hi: usize) -> (r: usize)
    requires
        lo < hi,
    ensures
        lo <= r < hi,
{
    rand::thread_rng().gen_range(lo..hi)
}

} // verus!
