//! Random numbers from the operating system.

use vstd::prelude::*;

verus! {

/// Calls `gen_range` of rand's `Rng` on `OsRng`, for the range from zero up
/// to, but not including, `bound`. It refuses an empty range, which the
/// precondition leaves out; what it returns differs from call to call, and
/// only its range is known. It gives up where the operating system has no
/// random bytes to give.
#[verifier::external_body]
pub(crate) fn random_below(bound: u128) -> (r: u128)
    requires
        bound > 0,
    ensures
        r < bound,
{
    rand::Rng::gen_range(&mut rand::rngs::OsRng, 0..bound)
}

} // verus!
