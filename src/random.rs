use vstd::prelude::*;

use rand::Rng;

verus! {

/// Relies on `rand::random::<bool>`, which draws a fair coin from the
/// thread-local generator. Nothing is promised of the value.
#[verifier::external_body]
pub(crate) fn coin_flip() -> (r: bool) {
    rand::random::<bool>()
}

/// Relies on `rand::Rng::gen_range(0..bound)` on the thread-local generator:
/// the value lies in `0..bound`. It panics on an empty range, which the
/// precondition rules out.
#[verifier::external_body]
pub(crate) fn random_below(bound: u32) -> (r: u32)
    requires
        bound > 0,
    ensures
        r < bound,
{
    rand::thread_rng().gen_range(0..bound)
}

} // verus!
