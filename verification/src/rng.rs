//! The entropy source: a trusted wrapper around the `rand` crate.

use rand::Rng;
use vstd::prelude::*;

verus! {

/// Relies on rand's `thread_rng` and `Rng::gen_range` over `lo..hi`: an
/// independent sample from the half-open range, which panics when the
/// range is empty.  Nothing beyond the range can be promised of a random
/// draw.
#[verifier::external_body]
pub(crate) fn sample_range(lo: i32, hi: i32) -> (r: i32)
    requires
        lo < hi,
    ensures
        lo <= r < hi,
{
    rand::thread_rng().gen_range(lo..hi)
}

} // verus!
