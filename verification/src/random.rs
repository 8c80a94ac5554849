//! Random choices drawn from `rand`'s thread-local generator.
use rand::Rng;
use vstd::prelude::*;

verus! {

/// `rand::rngs::ThreadRng`, the handle to the thread-local generator.
#[verifier::external_type_specification]
#[verifier::external_body]
pub struct ExThreadRng(rand::rngs::ThreadRng);

/// Calls `rand::Rng::gen_range` on the inclusive range `lo..=hi`. The crate
/// panics on an empty range, hence `lo <= hi`; the number lies in the range.
/// Which number comes, and the generator's state afterwards, depend on chance
/// and are not described.
#[verifier::external_body]
pub(crate) fn random_in(rng: &mut rand::rngs::ThreadRng, lo: usize, hi: usize) -> (r: usize)
    requires
        lo <= hi,
    ensures
        lo <= r <= hi,
{
    rng.gen_range(lo..=hi)
}

} // verus!
