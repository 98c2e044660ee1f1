//! The session random source: a PCG-32 generator from the `rand_pcg` crate,
//! reached through a small trusted boundary.

use vstd::prelude::*;

verus! {

/// `rand_pcg::Pcg32` (`Lcg64Xsh32`), declared so that a generator can stand
/// in fields and signatures; Verus sees nothing of its inside.
#[verifier::external_type_specification]
#[verifier::external_body]
pub struct ExPcg32(rand_pcg::Pcg32);

/// Relies on `rand_core::SeedableRng::seed_from_u64`: builds a generator
/// whose state is a fixed function of `seed` alone, so two generators made
/// from one seed yield one and the same sequence of draws.
#[verifier::external_body]
pub(crate) fn new_rng(seed: u64) -> rand_pcg::Pcg32 {
    <rand_pcg::Pcg32 as rand::SeedableRng>::seed_from_u64(seed)
}

/// Relies on `rand::Rng::random_range` over `lo..hi`: returns a uniformly
/// drawn element of the half-open range, and panics only on an empty range,
/// which the precondition rules out.
#[verifier::external_body]
pub(crate) fn sample_range(rng: &mut rand_pcg::Pcg32, lo: u32, hi: u32) -> (r: u32)
    requires
        lo < hi,
    ensures
        lo <= r < hi,
{
    rand::Rng::random_range(rng, lo..hi)
}

} // verus!
