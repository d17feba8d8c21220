use vstd::prelude::*;
use rand::Rng;

verus! {

/// Relies on rand::Rng::gen_range, called on rand's thread-local
/// generator: the draw lies in the inclusive range `lo..=hi`, which the
/// precondition keeps non-empty, so the call cannot panic. Nothing is
/// assumed of the distribution, and two calls on equal arguments may
/// differ.
#[verifier::external_body]
pub(crate) fn rand_between(lo: u64, hi: u64) -> (r: u64)
    requires
        lo <= hi,
    ensures
        lo <= r <= hi,
{
    rand::thread_rng().gen_range(lo..=hi)
}

} // verus!
