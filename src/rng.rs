//! The random source of a sampling run.

use rand::rngs::StdRng;
use rand::{Rng, SeedableRng};
use vstd::prelude::*;

verus! {

#[verifier::external_type_specification]
#[verifier::external_body]
pub struct ExStdRng(StdRng);

/// The generator that a seed gives.
pub uninterp spec fn seeded_rng(seed: u64) -> StdRng;

/// Relies on `rand::SeedableRng::seed_from_u64`: the generator it builds depends on the seed alone.
#[verifier::external_body]
fn rng_from_seed(seed: u64) -> (r: StdRng)
    ensures
        r == seeded_rng(seed),
{
    StdRng::seed_from_u64(seed)
}

/// Relies on `rand::SeedableRng::from_rng` over `rand::thread_rng()`: a generator seeded
/// from the thread-local generator, which does not fail.
#[verifier::external_body]
fn rng_from_entropy() -> StdRng {
    StdRng::from_rng(rand::thread_rng()).unwrap()
}

/// Relies on `rand::Rng::gen_range` over `0..bound`: a value inside that range.
/// It panics on an empty range, which the precondition leaves out.
#[verifier::external_body]
pub(crate) fn random_below(rng: &mut StdRng, bound: usize) -> (r: usize)
    requires
        0 < bound,
    ensures
        r < bound,
{
    rng.gen_range(0..bound)
}

/// The generator of one sampling run: seeded with `seed` when one is given,
/// so that the run can be repeated, and from the thread's entropy otherwise.
pub fn make_rng(seed: Option<u64>) -> (r: StdRng)
    ensures
        seed is Some ==> r == seeded_rng(seed->Some_0),
{
    match seed {
        Some(s) => rng_from_seed(s),
        None => rng_from_entropy(),
    }
}

} // verus!
