//! The random sources the simulation draws from.
use vstd::prelude::*;
use bevy_prng::WyRand;
use rand::seq::{IndexedRandom, IteratorRandom};
use rand::{Rng, SeedableRng};

verus! {

#[verifier::external_type_specification]
#[verifier::external_body]
pub struct ExWyRand(WyRand);

/// Relies on `SeedableRng::from_seed` of bevy_prng's `WyRand`: a generator
/// whose stream is fixed by the eight native-endian bytes of `seed`.
#[verifier::external_body]
pub(crate) fn seeded_rng(seed: u64) -> WyRand {
    WyRand::from_seed(seed.to_ne_bytes())
}

/// Relies on the derived `Clone` of bevy_prng's `WyRand`: a generator in
/// the same state.
#[verifier::external_body]
pub(crate) fn copy_rng(rng: &WyRand) -> (r: WyRand)
    ensures
        r == *rng,
{
    rng.clone()
}

/// Relies on `rand::random::<u32>`: a fresh seed from the thread's generator.
#[verifier::external_body]
pub(crate) fn fresh_seed() -> u32 {
    rand::random::<u32>()
}

/// Relies on `IndexedRandom::choose`: `None` exactly for an empty slice, else
/// one of its items.
#[verifier::external_body]
pub(crate) fn choose_from<T: Copy>(rng: &mut WyRand, items: &[T]) -> (r: Option<T>)
    ensures
        r.is_some() == (items@.len() > 0),
        r matches Some(x) ==> items@.contains(x),
{
    items.choose(rng).copied()
}

/// Relies on `IndexedRandom::choose_weighted` with integer weights: it fails
/// when the weights sum to zero or overflow, and otherwise yields an index
/// whose weight is positive.
#[verifier::external_body]
pub(crate) fn choose_weighted_index(rng: &mut WyRand, weights: &[u32; 4]) -> (r: Option<usize>)
    ensures
        r matches Some(i) ==> i < 4 && weights[i as int] > 0,
        r.is_some() == crate::config::weights_usable(*weights),
{
    let indices: Vec<usize> = (0..weights.len()).collect();
    indices.choose_weighted(rng, |&i| weights[i]).ok().copied()
}

/// Relies on `Rng::random_range` over an inclusive range: a value in it.
#[verifier::external_body]
pub(crate) fn random_between(rng: &mut WyRand, lo: usize, hi: usize) -> (r: usize)
    requires
        lo <= hi,
    ensures
        lo <= r <= hi,
{
    rng.random_range(lo..=hi)
}

/// Relies on `IteratorRandom::choose_multiple`: `amount` items, or all of
/// them when there are fewer, each taken from `cells` at a distinct place.
#[verifier::external_body]
pub(crate) fn choose_cells(rng: &mut WyRand, cells: &Vec<(usize, usize)>, amount: usize) -> (r: Vec<(usize, usize)>)
    ensures
        r@.len() == if amount <= cells@.len() { amount as int } else { cells@.len() as int },
        forall|k: int| 0 <= k < r@.len() ==> cells@.contains(#[trigger] r@[k]),
        cells@.no_duplicates() ==> r@.no_duplicates(),
{
    cells.iter().copied().choose_multiple(rng, amount)
}

} // verus!
