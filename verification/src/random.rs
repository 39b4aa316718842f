//! The arena's source of chance.
use vstd::prelude::*;
use rand::Rng;

verus! {

/// Draws a number uniformly from `lo..hi` with `rand::Rng::gen_range` on the
/// thread-local generator.  The contract claims only that the draw lies in the
/// half-open range (which `gen_range` documents); which value comes out is
/// left free, as it rests on chance.  `gen_range` panics on an empty range,
/// which `requires` rules out; `thread_rng` panics only when the operating
/// system cannot seed it, which no argument decides.
#[verifier::external_body]
pub(crate) fn random_range(lo: i64, hi: i64) -> (r: i64)
    requires
        lo < hi,
    ensures
        lo <= r < hi,
{
    rand::thread_rng().gen_range(lo..hi)
}

} // verus!
