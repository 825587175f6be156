use rand::Rng;
use vstd::prelude::*;

verus! {

/// Relies on `rand::Rng::gen_range` on the thread-local generator
/// (`rand::thread_rng`): it returns a uniformly distributed value inside the
/// given half-open range, and panics only when the range is empty, which the
/// precondition rules out. Nothing more is promised of the outcome.
#[verifier::external_body]
pub(crate) fn rand_in_range(lo: i64, hi: i64) -> (r: i64)
    requires
        lo < hi,
    ensures
        lo <= r < hi,
{
    rand::thread_rng().gen_range(lo..hi)
}

} // verus!
