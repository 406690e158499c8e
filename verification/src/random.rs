//! Operating-system randomness.

use vstd::prelude::*;

verus! {

/// Calls `getrandom::getrandom`, which fills `dest` with bytes from the
/// operating system's random source. The contract claims only that the
/// buffer keeps its length; which bytes it receives, and whether the call
/// fails, depend on the operating system and are left unsaid.
#[verifier::external_body]
pub(crate) fn fill_random(dest: &mut [u8]) -> (r: core::result::Result<(), getrandom::Error>)
    ensures
        final(dest)@.len() == old(dest)@.len(),
{
    getrandom::getrandom(dest)
}

} // verus!
