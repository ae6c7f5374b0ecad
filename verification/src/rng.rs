use vstd::prelude::*;

verus! {

/// Relies on `rand::random`: draws one `u32` from the thread-local generator.
/// Nothing can be promised of a random value, so no clause is stated; callers
/// say what holds of every outcome.
#[verifier::external_body]
pub(crate) fn random_u32() -> u32 {
    rand::random::<u32>()
}

} // verus!
