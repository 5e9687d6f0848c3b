//! Chance: the one thing the engine does not decide for itself.

use rand::Rng;
use vstd::prelude::*;

verus! {

/// A number below `bound`, drawn from the generator of the running thread.
///
/// Trusted: the body calls `rand::thread_rng()` and, on the generator it
/// hands out, `Rng::gen_range(0, bound)`, which samples the half-open range
/// and panics where the range is empty. Which number comes back is left
/// open.
#[verifier::external_body]
pub(crate) fn random_below(bound: usize) -> (drawn: usize)
    requires
        0 < bound,
    ensures
        drawn < bound,
{
    rand::thread_rng().gen_range(0, bound)
}

} // verus!
