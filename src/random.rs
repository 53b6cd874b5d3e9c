use vstd::prelude::*;
use rand::rngs::StdRng;
use rand::{Rng, SeedableRng};

verus! {

#[verifier::external_type_specification]
#[verifier::external_body]
pub struct ExStdRng(StdRng);

/// Relies on `rand::thread_rng` and `Rng::gen::<u64>`: a fresh seed drawn from
/// the thread-local generator. Nothing is promised of its value.
#[verifier::external_body]
pub(crate) fn fresh_seed() -> u64 {
    rand::thread_rng().gen::<u64>()
}

/// Relies on `SeedableRng::seed_from_u64` for `StdRng`: a generator whose
/// stream of values is fixed by the seed.
#[verifier::external_body]
pub(crate) fn seeded_rng(seed: u64) -> StdRng {
    StdRng::seed_from_u64(seed)
}

/// Relies on `Rng::gen_range` over the half-open range `0..bound`: a value
/// below `bound`, uniformly drawn. It panics only on an empty range, which
/// `requires` leaves out.
#[verifier::external_body]
pub(crate) fn draw_below(rng: &mut StdRng, bound: u32) -> (r: u32)
    requires
        0 < bound,
    ensures
        r < bound,
{
    rng.gen_range(0..bound)
}

} // verus!
