use vstd::prelude::*;

verus! {

/// Relies on `rand::random_range`: a draw from the thread-local generator,
/// uniform over the half-open range handed to it, which is non-empty here.
/// Nothing more than the bound is assumed of any one outcome.
#[verifier::external_body]
pub(crate) fn rand_below(bound: u64) -> (r: u64)
    requires
        bound > 0,
    ensures
        r < bound,
{
    rand::random_range(0..bound)
}

} // verus!
