//! The boundary to the pseudo-random generator. Every function of the
//! library that needs randomness takes the generator by mutable reference,
//! so that callers control seeding and sequencing.

use vstd::prelude::*;

verus! {

/// Declares fastrand::Rng, the stateful generator, so that it can be
/// threaded by mutable reference through the library's signatures. Its
/// values are opaque here: nothing is assumed about its state.
#[verifier::external_type_specification]
#[verifier::external_body]
pub struct ExRng(fastrand::Rng);

/// Relies on fastrand::Rng::u8: a draw over the range `0..bound` returns a
/// value strictly below `bound`. The empty range, on which fastrand panics,
/// is excluded by the precondition. Nothing is assumed about which value
/// comes back.
#[verifier::external_body]
pub(crate) fn draw_below(rng: &mut fastrand::Rng, bound: u8) -> (r: u8)
    requires
        bound >= 1,
    ensures
        r < bound,
{
    rng.u8(0..bound)
}

} // verus!
