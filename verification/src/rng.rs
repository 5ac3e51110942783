//! The engine's one use of randomness: sampling agent colors and starting
//! positions at construction time.

use vstd::prelude::*;

verus! {

/// Relies on rand::random_range: a sample from the thread-local generator,
/// uniform over `[0, bound)`; it panics only on an empty range, which the
/// precondition rules out. Nothing is promised beyond the range: the value
/// differs from call to call.
#[verifier::external_body]
pub(crate) fn random_below(bound: usize) -> (r: usize)
    requires
        0 < bound,
    ensures
        r < bound,
{
    rand::random_range(0..bound)
}

} // verus!
