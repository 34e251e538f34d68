use rand::seq::SliceRandom;
use rand::Rng;
use vstd::prelude::*;

verus! {

/// The random-number generator that `rand` keeps per thread.
#[verifier::external_type_specification]
#[verifier::external_body]
pub struct ExThreadRng(rand::rngs::ThreadRng);

/// Calls `rand::thread_rng`, which hands out a handle to the lazily seeded
/// generator of the current thread. Nothing is claimed of its state.
#[verifier::external_body]
pub(crate) fn thread_rng() -> rand::rngs::ThreadRng {
    rand::thread_rng()
}

/// Calls `SliceRandom::choose` on a non-empty slice of words. The source
/// returns `Some` of a reference into the slice whenever the slice is not
/// empty, so the word handed back is one of the slice's elements; which one
/// rests on the generator and is not stated.
#[verifier::external_body]
pub(crate) fn choose_word<'a>(rng: &mut rand::rngs::ThreadRng, pool: &'a [Vec<char>]) -> (w: &'a Vec<char>)
    requires
        pool@.len() > 0,
    ensures
        crate::rng::one_of(pool@, w@),
{
    pool.choose(rng).unwrap()
}

/// `w` holds the characters of one of the words of `pool`.
pub open spec fn one_of(pool: Seq<Vec<char>>, w: Seq<char>) -> bool {
    exists|i: int| 0 <= i < pool.len() && w == pool[i]@
}

/// Calls `Rng::gen_range` with the range `0..100`: a uniformly drawn whole
/// percentage. The source samples inside the half-open range, so the result
/// is below 100; its value rests on the generator and is not stated.
#[verifier::external_body]
pub(crate) fn roll_percent(rng: &mut rand::rngs::ThreadRng) -> (r: u32)
    ensures
        r < 100,
{
    rng.gen_range(0..100u32)
}

} // verus!
