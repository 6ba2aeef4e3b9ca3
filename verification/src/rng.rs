//! The boundary to the random number generator.
//!
//! Every random choice in the crate is drawn through [`gen_range_u64`] from
//! an explicit `rand::rngs::StdRng` handle, so a seeded generator makes a
//! whole run reproducible.
use vstd::prelude::*;

verus! {

/// Declares rand's standard generator so that it can stand in signatures.
/// A value of it is opaque here: nothing is assumed about its state.
#[verifier::external_type_specification]
#[verifier::external_body]
pub struct ExStdRng(rand::rngs::StdRng);

/// Relies on rand's `Rng::gen_range` over the inclusive range `lo..=hi`:
/// it returns a value of that range and panics only on an empty one.
#[verifier::external_body]
pub(crate) fn gen_range_u64(rng: &mut rand::rngs::StdRng, lo: u64, hi: u64) -> (r: u64)
    requires
        lo <= hi,
    ensures
        lo <= r <= hi,
{
    rand::Rng::gen_range(rng, lo..=hi)
}

} // verus!
