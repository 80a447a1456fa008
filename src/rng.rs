//! Draws from `rand`: a seeded `StdRng` for the reproducible ones, the thread
//! generator for the others.
use rand::rngs::StdRng;
use rand::{Rng, SeedableRng};
use vstd::prelude::*;

verus! {

/// The index in `0..len` that a `StdRng` seeded with `seed` draws first.
pub uninterp spec fn std_rng_index(seed: u64, len: u32) -> u32;

/// The `amount` distinct indices of `0..len` that `rand::seq::index::sample`
/// draws with a `StdRng` seeded with `seed`.
pub uninterp spec fn std_rng_sample(seed: u64, len: usize, amount: usize) -> Seq<usize>;

/// Relies on `StdRng::seed_from_u64` and `Rng::gen_range` over a `u32` range,
/// as `SliceRandom::choose` draws for slices of that size: a value in `0..len`
/// that depends on the seed and the bound alone.
#[verifier::external_body]
pub(crate) fn seeded_index(seed: u64, len: u32) -> (r: u32)
    requires
        len > 0,
    ensures
        r == std_rng_index(seed, len),
        r < len,
{
    StdRng::seed_from_u64(seed).gen_range(0..len)
}

/// Relies on `StdRng::seed_from_u64` and `rand::seq::index::sample`, which
/// `SliceRandom::choose_multiple` uses: exactly `amount` distinct indices of
/// `0..len`, which depend on the seed and the bounds alone.
#[verifier::external_body]
pub(crate) fn seeded_sample(seed: u64, len: usize, amount: usize) -> (r: Vec<usize>)
    requires
        amount <= len,
    ensures
        r@ == std_rng_sample(seed, len, amount),
        r@.len() == amount,
        forall|i: int| 0 <= i < r@.len() ==> r@[i] < len,
        forall|i: int, j: int| 0 <= i < j < r@.len() ==> r@[i] != r@[j],
{
    let mut rng = StdRng::seed_from_u64(seed);
    rand::seq::index::sample(&mut rng, len, amount).into_vec()
}

/// Relies on `rand::thread_rng` and `Rng::gen_range`: some value in `0..len`.
#[verifier::external_body]
pub(crate) fn random_index(len: usize) -> (r: usize)
    requires
        len > 0,
    ensures
        r < len,
{
    rand::thread_rng().gen_range(0..len)
}

} // verus!
