use vstd::prelude::*;

verus! {

/// Draw a uniformly random value in `lo..hi`.
///
/// Relies on rand's `Rng::gen_range` with the thread-local generator: for a
/// nonempty half-open range it returns a value inside the range and panics
/// only on an empty one.
#[verifier::external_body]
pub(crate) fn rand_in_range(lo: usize, hi: usize) -> (r: usize)
    requires
        lo < hi,
    ensures
        lo <= r < hi,
{
    rand::Rng::gen_range(&mut rand::thread_rng(), lo..hi)
}

/// Draw a uniformly random value in `lo..=hi`.
///
/// Relies on rand's `Rng::gen_range` with the thread-local generator: for a
/// nonempty inclusive range it returns a value inside the range and panics
/// only on an empty one.
#[verifier::external_body]
pub(crate) fn rand_in_range_inclusive(lo: usize, hi: usize) -> (r: usize)
    requires
        lo <= hi,
    ensures
        lo <= r <= hi,
{
    rand::Rng::gen_range(&mut rand::thread_rng(), lo..=hi)
}

/// Draw a random seed.
///
/// Relies on rand's `RngCore::next_u32` on the thread-local generator, which
/// may return any value.
#[verifier::external_body]
pub(crate) fn rand_seed() -> u32 {
    rand::RngCore::next_u32(&mut rand::thread_rng())
}

/// Shuffle a vector in place.
///
/// Relies on rand's `SliceRandom::shuffle` with the thread-local generator: a
/// Fisher-Yates pass that permutes the elements and changes nothing else.
#[verifier::external_body]
pub(crate) fn shuffle<T>(v: &mut Vec<T>)
    ensures
        final(v)@.to_multiset() == old(v)@.to_multiset(),
        final(v)@.len() == old(v)@.len(),
{
    rand::seq::SliceRandom::shuffle(v.as_mut_slice(), &mut rand::thread_rng());
}

} // verus!
