use vstd::prelude::*;

verus! {

/// Everything that can go wrong in this library.
///
/// `InvalidWeights`, `InvalidBoost` and `EmptyTierPool` are construction-time
/// errors: a banner whose configuration violates one of the construction
/// invariants is never built.  `EmptyTierPool` covers the shape of the pool
/// itself: a tier with a positive weight but no member, or two pool entries
/// sharing one identity.  `MissingTranslation` is returned by display-name
/// lookups at run time, and `CompositeEncodingFailure` by the collage encoder.
#[derive(Clone, Copy, Debug, PartialEq, Eq, Structural)]
pub enum RecruitError {
    InvalidWeights,
    InvalidBoost,
    EmptyTierPool,
    MissingTranslation,
    CompositeEncodingFailure,
}

} // verus!
