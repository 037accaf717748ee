//! The seeded pseudorandom stream that jitters the initial lattice.
use vstd::prelude::*;
use rand::{Rng, SeedableRng};

verus! {

/// The first `n` values of the `u32` stream of rand's `StdRng` seeded with `seed`.
pub uninterp spec fn seeded_draws(seed: u64, n: nat) -> Seq<u32>;

/// Relies on rand's `StdRng::seed_from_u64` and `Rng::sample_iter` with the
/// `Standard` distribution: a generator seeded from a `u64` yields the same
/// stream on every run, and `take(n)` keeps its first `n` values.
#[verifier::external_body]
pub(crate) fn draw_u32s(seed: u64, n: usize) -> (r: Vec<u32>)
    ensures
        r@ == seeded_draws(seed, n as nat),
        r@.len() == n,
{
    rand::rngs::StdRng::seed_from_u64(seed).sample_iter(rand::distributions::Standard).take(n).collect()
}

} // verus!
